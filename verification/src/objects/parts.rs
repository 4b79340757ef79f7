use vstd::prelude::*;
use vstd::string::*;
use crate::errors::DeserializeError;
use crate::json::{distinct_keys, lookup, Json, JsonView};
use crate::objects::kinds::{core_api_version, Kind};
use crate::objects::meta::TypeMeta;
use crate::text::{precedes, same_text};
use crate::utils::textmap::{gathered, lemma_gathered, lemma_gathered_sorted, TextMap};
use crate::utils::validate::{is_valid_rfc_1035, valid_name};

verus! {

/// What the JSON form of every object holds, whatever its kind: the type
/// tag, the metadata that the store reads, and the trees under `spec` and
/// `status`, which each kind reads for itself.
pub struct PartsView {
    pub api_version: Seq<char>,
    pub kind: Seq<char>,
    pub name: Seq<char>,
    pub namespace: Option<Seq<char>>,
    pub version: Option<Seq<char>>,
    pub uid: u64,
    pub creator: Option<Seq<char>>,
    /// What the metadata holds under `annotations`, where it holds that member.
    pub annotations: Option<JsonView>,
    pub spec: JsonView,
    pub status: Option<JsonView>,
}

/// The parts of an object, held as plain values.
#[derive(Debug)]
pub struct Parts {
    pub type_meta: TypeMeta,
    pub name: String,
    pub namespace: Option<String>,
    pub version: Option<String>,
    pub uid: u64,
    pub creator: Option<String>,
    pub annotations: Option<Json>,
    pub spec: Json,
    pub status: Option<Json>,
}

/// The characters of a string that may be missing.
pub open spec fn opt_text(s: Option<String>) -> Option<Seq<char>> {
    match s {
        Some(t) => Some(t@),
        None => None,
    }
}

/// The tree of a document that may be missing.
pub open spec fn opt_tree(j: Option<Json>) -> Option<JsonView> {
    match j {
        Some(t) => Some(t@),
        None => None,
    }
}

impl View for Parts {
    type V = PartsView;

    open spec fn view(&self) -> PartsView {
        PartsView {
            api_version: self.type_meta.api_version@,
            kind: self.type_meta.kind@,
            name: self.name@,
            namespace: opt_text(self.namespace),
            version: opt_text(self.version),
            uid: self.uid,
            creator: opt_text(self.creator),
            annotations: opt_tree(self.annotations),
            spec: self.spec@,
            status: opt_tree(self.status),
        }
    }
}

/// One member that holds a string, or no member where the string is missing.
pub open spec fn text_member(key: Seq<char>, value: Option<Seq<char>>) -> Seq<(Seq<char>, JsonView)> {
    match value {
        Some(t) => seq![(key, JsonView::Text(t))],
        None => Seq::empty(),
    }
}

/// One member that holds a tree, or no member where the tree is missing.
pub open spec fn tree_member(key: Seq<char>, value: Option<JsonView>) -> Seq<(Seq<char>, JsonView)> {
    match value {
        Some(t) => seq![(key, t)],
        None => Seq::empty(),
    }
}

/// The members of the metadata of an object, in the order in which they are written.
pub open spec fn metadata_members(p: PartsView) -> Seq<(Seq<char>, JsonView)> {
    seq![("name"@, JsonView::Text(p.name))] + text_member("namespace"@, p.namespace) + text_member(
        "version"@,
        p.version,
    ) + seq![("uid"@, JsonView::Unsigned(p.uid))] + text_member("creator"@, p.creator) + tree_member(
        "annotations"@,
        p.annotations,
    )
}

/// The tree that stands for the annotations of an object: `null` where it has none.
pub open spec fn noted(annotations: Option<Json>) -> JsonView {
    match annotations {
        Some(t) => t@,
        None => JsonView::Null,
    }
}

/// The parts with the given tree under `annotations`.
pub open spec fn annotated(p: PartsView, annotations: JsonView) -> PartsView {
    PartsView { annotations: Some(annotations), ..p }
}

/// The names of some members, each with the empty text.
pub open spec fn names_in(members: Seq<(Seq<char>, JsonView)>) -> Seq<(Seq<char>, Seq<char>)> {
    Seq::new(members.len(), |i: int| (members[i].0, Seq::<char>::empty()))
}

/// What stands under a name among some members.
pub open spec fn member_at(members: Seq<(Seq<char>, JsonView)>, name: Seq<char>) -> JsonView {
    match lookup(members, name) {
        Some(v) => v,
        None => JsonView::Null,
    }
}

/// Some members in the order of their names, each name once.
pub open spec fn members_sorted(members: Seq<(Seq<char>, JsonView)>) -> Seq<(Seq<char>, JsonView)> {
    let names = gathered(names_in(members), members.len());
    Seq::new(names.len(), |i: int| (names[i].0, member_at(members, names[i].0)))
}

/// The names grow from member to member in the order of strings.
pub open spec fn names_grow(members: Seq<(Seq<char>, JsonView)>) -> bool {
    forall|i: int, j: int| 0 <= i < j < members.len() ==> precedes((#[trigger] members[i]).0, (#[trigger] members[j]).0)
}

/// Annotations are `null` or a map whose names stand in the order of strings.
pub open spec fn is_note(tree: JsonView) -> bool {
    match tree {
        JsonView::Null => true,
        JsonView::Object(members) => names_grow(members),
        _ => false,
    }
}

/// The annotations that an object keeps of what its metadata holds under
/// `annotations`: a map, with its members in the order of their names;
/// `null` for `null` and for a missing member; nothing where the member is
/// anything else.
pub open spec fn kept_annotations(found: Option<JsonView>) -> Option<JsonView> {
    match found {
        None => Some(JsonView::Null),
        Some(JsonView::Null) => Some(JsonView::Null),
        Some(JsonView::Object(members)) => Some(JsonView::Object(members_sorted(members))),
        Some(_) => None,
    }
}

/// What an object keeps as its annotations are annotations, and they have
/// no key twice in any object where what was found has none.
pub proof fn lemma_kept_is_note(found: Option<JsonView>)
    ensures
        kept_annotations(found) matches Some(kept) ==> is_note(kept) && (found matches Some(tree) && tree.well_formed()
            ==> kept.well_formed()),
{
    if let Some(JsonView::Object(members)) = found {
        let names = gathered(names_in(members), members.len());
        let sorted = members_sorted(members);
        lemma_gathered(names_in(members), members.len());
        assert forall|i: int, j: int| 0 <= i < j < sorted.len() implies precedes(
            (#[trigger] sorted[i]).0,
            (#[trigger] sorted[j]).0,
        ) && sorted[i].0 != sorted[j].0 by {
            assert(sorted[i].0 == names[i].0 && sorted[j].0 == names[j].0);
        }
        if found->0.well_formed() {
            assert forall|i: int| 0 <= i < sorted.len() implies (#[trigger] sorted[i]).1.well_formed() by {
                crate::json::lemma_lookup_member(members, names[i].0);
                if let Some(v) = lookup(members, names[i].0) {
                    let at = choose|at: int| 0 <= at < members.len() && (#[trigger] members[at]) == (names[i].0, v);
                    assert(members[at].1.well_formed());
                }
            }
            assert(distinct_keys(sorted));
        }
    }
}

/// Annotations are kept as they are.
pub proof fn lemma_note_kept(tree: JsonView)
    requires
        is_note(tree),
    ensures
        kept_annotations(Some(tree)) == Some(tree),
{
    if let JsonView::Object(members) = tree {
        let all = names_in(members);
        assert forall|i: int, j: int| 0 <= i < j < all.len() implies precedes((#[trigger] all[i]).0, (#[trigger] all[j]).0)
            && all[i].0 != all[j].0 by {
            assert(all[i].0 == members[i].0 && all[j].0 == members[j].0);
            assert(precedes(members[i].0, members[j].0));
            crate::text::lemma_precedes_irreflexive(members[i].0);
        }
        lemma_gathered_sorted(all, members.len());
        assert(all.subrange(0, members.len() as int) =~= all);
        let sorted = members_sorted(members);
        assert forall|i: int| 0 <= i < members.len() implies #[trigger] sorted[i] == members[i] by {
            assert forall|k: int| 0 <= k < i implies (#[trigger] members[k]).0 != members[i].0 by {
                assert(all[k].0 == members[k].0 && all[i].0 == members[i].0);
            }
            crate::json::lemma_lookup_found(members, members[i].0, i);
        }
        assert(sorted =~= members);
    }
}

/// The members of an object, in the order in which they are written.
pub open spec fn object_members(p: PartsView) -> Seq<(Seq<char>, JsonView)> {
    seq![
        ("apiVersion"@, JsonView::Text(p.api_version)),
        ("kind"@, JsonView::Text(p.kind)),
        ("metadata"@, JsonView::Object(metadata_members(p))),
        ("spec"@, p.spec),
    ] + tree_member("status"@, p.status)
}

/// The JSON form of an object with the given parts.
pub open spec fn parts_tree(p: PartsView) -> JsonView {
    JsonView::Object(object_members(p))
}

/// The uid that the metadata names: 0 where it names none, nothing where it is no `u64`.
pub open spec fn uid_in(metadata: JsonView) -> Option<u64> {
    match metadata.field("uid"@) {
        Some(v) => v.unsigned(),
        None => Some(0),
    }
}

/// The parts of a JSON object. It must hold `apiVersion` and `kind` as
/// strings, `metadata` with a `name` that is a string and a `uid` that is a
/// `u64` or missing, and `spec`. Of the other members of the metadata,
/// `namespace`, `version` and `creator` count where they are strings, and
/// `annotations` as it stands; `status` counts unless it is `null`. What
/// else the object holds is passed over.
pub open spec fn parts_of(j: JsonView) -> Option<PartsView> {
    match (j.text_at("apiVersion"@), j.text_at("kind"@), j.field("metadata"@), j.field("spec"@)) {
        (Some(api_version), Some(kind), Some(metadata), Some(spec)) => match (
            metadata.text_at("name"@),
            uid_in(metadata),
        ) {
            (Some(name), Some(uid)) => Some(
                PartsView {
                    api_version,
                    kind,
                    name,
                    namespace: metadata.text_at("namespace"@),
                    version: metadata.text_at("version"@),
                    uid,
                    creator: metadata.text_at("creator"@),
                    annotations: metadata.field("annotations"@),
                    spec,
                    status: j.present("status"@),
                },
            ),
            _ => None,
        },
        _ => None,
    }
}

/// A lookup in two runs of members, one after the other, tries the first run, then the second.
pub proof fn lemma_lookup_concat(a: Seq<(Seq<char>, JsonView)>, b: Seq<(Seq<char>, JsonView)>, key: Seq<char>)
    ensures
        lookup(a + b, key) == match lookup(a, key) {
            Some(v) => Some(v),
            None => lookup(b, key),
        },
    decreases a.len(),
{
    if a.len() == 0 {
        assert(a + b =~= b);
    } else {
        assert((a + b).drop_first() =~= a.drop_first() + b);
        lemma_lookup_concat(a.drop_first(), b, key);
    }
}

/// A lookup in one member.
pub proof fn lemma_lookup_one(k: Seq<char>, v: JsonView, key: Seq<char>)
    ensures
        lookup(seq![(k, v)], key) == if k == key {
            Some(v)
        } else {
            None
        },
{
    let s = seq![(k, v)];
    assert(s.drop_first() =~= Seq::empty());
    assert(lookup(s.drop_first(), key) is None);
}

proof fn lemma_metadata_lookups(p: PartsView)
    ensures
        lookup(metadata_members(p), "name"@) == Some(JsonView::Text(p.name)),
        lookup(metadata_members(p), "uid"@) == Some(JsonView::Unsigned(p.uid)),
        lookup(metadata_members(p), "namespace"@) == match p.namespace {
            Some(t) => Some(JsonView::Text(t)),
            None => None,
        },
        lookup(metadata_members(p), "version"@) == match p.version {
            Some(t) => Some(JsonView::Text(t)),
            None => None,
        },
        lookup(metadata_members(p), "creator"@) == match p.creator {
            Some(t) => Some(JsonView::Text(t)),
            None => None,
        },
        lookup(metadata_members(p), "annotations"@) == p.annotations,
        distinct_keys(metadata_members(p)),
{
    reveal_strlit("name");
    reveal_strlit("namespace");
    reveal_strlit("version");
    reveal_strlit("uid");
    reveal_strlit("creator");
    reveal_strlit("annotations");
    assert("name"@.len() == 4 && "namespace"@.len() == 9 && "version"@.len() == 7 && "uid"@.len() == 3
        && "creator"@.len() == 7 && "annotations"@.len() == 11);
    assert("version"@[0] == 'v' && "creator"@[0] == 'c');
    let a = seq![("name"@, JsonView::Text(p.name))];
    let b = text_member("namespace"@, p.namespace);
    let c = text_member("version"@, p.version);
    let d = seq![("uid"@, JsonView::Unsigned(p.uid))];
    let e = text_member("creator"@, p.creator);
    let f = tree_member("annotations"@, p.annotations);
    assert forall|key: Seq<char>|
        lookup(metadata_members(p), key) == match lookup(a, key) {
            Some(v) => Some(v),
            None => match lookup(b, key) {
                Some(v) => Some(v),
                None => match lookup(c, key) {
                    Some(v) => Some(v),
                    None => match lookup(d, key) {
                        Some(v) => Some(v),
                        None => match lookup(e, key) {
                            Some(v) => Some(v),
                            None => lookup(f, key),
                        },
                    },
                },
            },
        } by {
        lemma_lookup_concat(a + b + c + d + e, f, key);
        lemma_lookup_concat(a + b + c + d, e, key);
        lemma_lookup_concat(a + b + c, d, key);
        lemma_lookup_concat(a + b, c, key);
        lemma_lookup_concat(a, b, key);
    }
    assert forall|key: Seq<char>| lookup(a, key) == (if "name"@ == key { Some(JsonView::Text(p.name)) } else { None }) by {
        lemma_lookup_one("name"@, JsonView::Text(p.name), key);
    }
    assert forall|key: Seq<char>| lookup(d, key) == (if "uid"@ == key { Some(JsonView::Unsigned(p.uid)) } else { None }) by {
        lemma_lookup_one("uid"@, JsonView::Unsigned(p.uid), key);
    }
    assert forall|key: Seq<char>| lookup(b, key) == (if "namespace"@ == key && p.namespace is Some { Some(JsonView::Text(p.namespace->0)) } else { None }) by {
        if p.namespace is Some {
            lemma_lookup_one("namespace"@, JsonView::Text(p.namespace->0), key);
        }
    }
    assert forall|key: Seq<char>| lookup(c, key) == (if "version"@ == key && p.version is Some { Some(JsonView::Text(p.version->0)) } else { None }) by {
        if p.version is Some {
            lemma_lookup_one("version"@, JsonView::Text(p.version->0), key);
        }
    }
    assert forall|key: Seq<char>| lookup(e, key) == (if "creator"@ == key && p.creator is Some { Some(JsonView::Text(p.creator->0)) } else { None }) by {
        if p.creator is Some {
            lemma_lookup_one("creator"@, JsonView::Text(p.creator->0), key);
        }
    }
    assert forall|key: Seq<char>| lookup(f, key) == (if "annotations"@ == key { p.annotations } else { None }) by {
        if p.annotations is Some {
            lemma_lookup_one("annotations"@, p.annotations->0, key);
        }
    }
    let m = metadata_members(p);
    assert forall|i: int, j: int| 0 <= i < j < m.len() implies m[i].0 != m[j].0 by {
        lemma_member_keys(p, i);
        lemma_member_keys(p, j);
    }
}

/// The keys of the metadata come in the order name, namespace, version, uid, creator, annotations.
pub open spec fn key_rank(key: Seq<char>) -> int {
    if key == "name"@ {
        0
    } else if key == "namespace"@ {
        1
    } else if key == "version"@ {
        2
    } else if key == "uid"@ {
        3
    } else if key == "creator"@ {
        4
    } else {
        5
    }
}

proof fn lemma_member_keys(p: PartsView, i: int)
    requires
        0 <= i < metadata_members(p).len(),
    ensures
        forall|j: int| i < j < metadata_members(p).len() ==> key_rank(metadata_members(p)[i].0) < key_rank(#[trigger] metadata_members(p)[j].0),
{
    reveal_strlit("name");
    reveal_strlit("namespace");
    reveal_strlit("version");
    reveal_strlit("uid");
    reveal_strlit("creator");
    reveal_strlit("annotations");
    assert("name"@.len() == 4 && "namespace"@.len() == 9 && "version"@.len() == 7 && "uid"@.len() == 3
        && "creator"@.len() == 7 && "annotations"@.len() == 11);
    assert("version"@[0] == 'v' && "creator"@[0] == 'c');
}

/// Reading the parts of a written object gives the parts back.
pub proof fn lemma_parts_roundtrip(p: PartsView)
    requires
        !(p.status matches Some(s) && s is Null),
    ensures
        parts_of(parts_tree(p)) == Some(p),
        distinct_keys(object_members(p)),
        distinct_keys(metadata_members(p)),
{
    lemma_metadata_lookups(p);
    reveal_strlit("apiVersion");
    reveal_strlit("kind");
    reveal_strlit("metadata");
    reveal_strlit("spec");
    reveal_strlit("status");
    assert("apiVersion"@.len() == 10 && "kind"@.len() == 4 && "metadata"@.len() == 8 && "spec"@.len() == 4
        && "status"@.len() == 6);
    assert("kind"@[0] == 'k' && "spec"@[0] == 's');
    let head = seq![
        ("apiVersion"@, JsonView::Text(p.api_version)),
        ("kind"@, JsonView::Text(p.kind)),
        ("metadata"@, JsonView::Object(metadata_members(p))),
        ("spec"@, p.spec),
    ];
    let tail = tree_member("status"@, p.status);
    assert forall|key: Seq<char>| lookup(object_members(p), key) == match lookup(head, key) {
        Some(v) => Some(v),
        None => lookup(tail, key),
    } by {
        lemma_lookup_concat(head, tail, key);
    }
    crate::json::lemma_lookup_found(head, "apiVersion"@, 0);
    crate::json::lemma_lookup_found(head, "kind"@, 1);
    crate::json::lemma_lookup_found(head, "metadata"@, 2);
    crate::json::lemma_lookup_found(head, "spec"@, 3);
    crate::json::lemma_lookup_missing(head, "status"@);
    if p.status is Some {
        lemma_lookup_one("status"@, p.status->0, "status"@);
    }
    let j = parts_tree(p);
    assert(j.text_at("apiVersion"@) == Some(p.api_version));
    assert(j.text_at("kind"@) == Some(p.kind));
    assert(j.field("metadata"@) == Some(JsonView::Object(metadata_members(p))));
    assert(j.field("spec"@) == Some(p.spec));
    assert(j.present("status"@) == p.status);
    let q = parts_of(j)->0;
    assert(q.namespace == p.namespace);
    assert(q.version == p.version);
    assert(q.creator == p.creator);
    assert(q.annotations == p.annotations);
}

/// The JSON form of an object has no key twice where the trees under
/// `annotations`, `spec` and `status` have none.
pub proof fn lemma_parts_well_formed(p: PartsView)
    requires
        p.spec.well_formed(),
        p.status matches Some(s) ==> s.well_formed() && !(s is Null),
        p.annotations matches Some(a) ==> a.well_formed(),
    ensures
        parts_tree(p).well_formed(),
{
    lemma_parts_roundtrip(p);
    reveal_with_fuel(JsonView::well_formed, 3);
    let members = object_members(p);
    let inner = metadata_members(p);
    assert forall|i: int| 0 <= i < inner.len() implies (#[trigger] inner[i]).1.well_formed() by {}
    assert(JsonView::Object(inner).well_formed());
    assert forall|i: int| 0 <= i < members.len() implies (#[trigger] members[i]).1.well_formed() by {}
}

impl Parts {
    /// Reads the parts of a JSON object.
    pub fn read(j: &Json) -> (r: Option<Parts>)
        ensures
            match r {
                Some(p) => parts_of(j@) == Some(p@),
                None => parts_of(j@) is None,
            },
    {
        let api_version = match j.get_text("apiVersion") {
            Some(s) => s,
            None => { return None; },
        };
        let kind = match j.get_text("kind") {
            Some(s) => s,
            None => { return None; },
        };
        let metadata = match j.get("metadata") {
            Some(m) => m,
            None => { return None; },
        };
        let spec = match j.get("spec") {
            Some(s) => s.copy(),
            None => { return None; },
        };
        let name = match metadata.get_text("name") {
            Some(s) => s,
            None => { return None; },
        };
        let uid = match metadata.get("uid") {
            Some(v) => match v.as_u64() {
                Some(n) => n,
                None => { return None; },
            },
            None => 0,
        };
        let status = match j.get_present("status") {
            Some(s) => Some(s.copy()),
            None => None,
        };
        let annotations = match metadata.get("annotations") {
            Some(a) => Some(a.copy()),
            None => None,
        };
        Some(
            Parts {
                type_meta: TypeMeta { api_version, kind },
                name,
                namespace: metadata.get_text("namespace"),
                version: metadata.get_text("version"),
                uid,
                creator: metadata.get_text("creator"),
                annotations,
                spec,
                status,
            },
        )
    }

    /// Writes the parts as a JSON object.
    pub fn write(&self) -> (r: Json)
        ensures
            r@ == parts_tree(self@),
    {
        let mut metadata: Vec<(String, Json)> = Vec::new();
        metadata.push((String::from_str("name"), Json::from_text(self.name.as_str())));
        match &self.namespace {
            Some(ns) => {
                metadata.push((String::from_str("namespace"), Json::from_text(ns.as_str())));
            },
            None => {},
        }
        match &self.version {
            Some(v) => {
                metadata.push((String::from_str("version"), Json::from_text(v.as_str())));
            },
            None => {},
        }
        metadata.push((String::from_str("uid"), Json::from_u64(self.uid)));
        match &self.creator {
            Some(c) => {
                metadata.push((String::from_str("creator"), Json::from_text(c.as_str())));
            },
            None => {},
        }
        match &self.annotations {
            Some(a) => {
                metadata.push((String::from_str("annotations"), a.copy()));
            },
            None => {},
        }
        let metadata_json = Json::object(metadata);
        assert(metadata_json@.members()->0 =~= metadata_members(self@));
        let mut members: Vec<(String, Json)> = Vec::new();
        members.push((String::from_str("apiVersion"), Json::from_text(self.type_meta.api_version.as_str())));
        members.push((String::from_str("kind"), Json::from_text(self.type_meta.kind.as_str())));
        members.push((String::from_str("metadata"), metadata_json));
        members.push((String::from_str("spec"), self.spec.copy()));
        match &self.status {
            Some(s) => {
                members.push((String::from_str("status"), s.copy()));
            },
            None => {},
        }
        let r = Json::object(members);
        assert(r@.members()->0 =~= object_members(self@));
        r
    }
}

/// The trees under `annotations`, `spec` and `status` of a tree without a key twice have no key twice either.
pub proof fn lemma_spec_well_formed(j: JsonView)
    requires
        j.well_formed(),
    ensures
        parts_of(j) matches Some(p) ==> p.spec.well_formed() && (p.status matches Some(s) ==> s.well_formed()) && (
        p.annotations matches Some(a) ==> a.well_formed()),
{
    if let JsonView::Object(members) = j {
        crate::json::lemma_lookup_member(members, "spec"@);
        crate::json::lemma_lookup_member(members, "status"@);
        crate::json::lemma_lookup_member(members, "metadata"@);
        if let Some(JsonView::Object(inner)) = lookup(members, "metadata"@) {
            crate::json::lemma_lookup_member(inner, "annotations"@);
            let at = choose|i: int| 0 <= i < members.len() && (#[trigger] members[i]) == ("metadata"@, JsonView::Object(inner));
            assert(members[at].1.well_formed());
            if let Some(a) = lookup(inner, "annotations"@) {
                let k = choose|k: int| 0 <= k < inner.len() && (#[trigger] inner[k]) == ("annotations"@, a);
                assert(inner[k].1.well_formed());
            }
        }
    }
}

/// The annotations that an object keeps of what its metadata holds, or the
/// refusal of a member that is neither a map nor `null`.
pub fn keep_annotations(found: Option<Json>) -> (r: Result<Option<Json>, DeserializeError>)
    ensures
        match r {
            Ok(a) => kept_annotations(opt_tree(found)) == Some(noted(a)) && is_note(noted(a)) && (opt_tree(found) matches Some(
                tree,
            ) && tree.well_formed() ==> noted(a).well_formed()),
            Err(e) => kept_annotations(opt_tree(found)) is None && fault_of(e) == ParseFault::Malformed,
        },
{
    proof {
        lemma_kept_is_note(opt_tree(found));
    }
    let tree = match found {
        None => { return Ok(None); },
        Some(tree) => tree,
    };
    let members = match &tree {
        Json::Null => { return Ok(None); },
        Json::Object(members) => members,
        _ => { return Err(DeserializeError::JsonError(String::from_str("annotations must be a map"))); },
    };
    proof {
        crate::json::lemma_object_view(*members);
    }
    let ghost given = tree@->Object_0;
    let mut names = TextMap::new();
    let mut i: usize = 0;
    while i < members.len()
        invariant
            i <= members.len(),
            tree@ == JsonView::Object(given),
            given.len() == members.len(),
            forall|n: int| 0 <= n < members.len() ==> (#[trigger] given[n]) == (members[n].0@, members[n].1@),
            names.wf(),
            names@ == gathered(names_in(given), i as nat),
        decreases members.len() - i,
    {
        assert(names_in(given)[i as int] == (members[i as int].0@, Seq::<char>::empty()));
        names.insert(members[i].0.clone(), String::new());
        i = i + 1;
    }
    let mut out: Vec<(String, Json)> = Vec::new();
    let mut k: usize = 0;
    while k < names.len()
        invariant
            k <= names@.len(),
            out.len() == k,
            tree@ == JsonView::Object(given),
            names@ == gathered(names_in(given), given.len()),
            forall|n: int| 0 <= n < k ==> (#[trigger] out[n]).0@ == names@[n].0 && out[n].1@ == member_at(given, names@[n].0),
        decreases names@.len() - k,
    {
        let name = names.key_at(k);
        let value = match tree.get(name.as_str()) {
            Some(v) => v.copy(),
            None => Json::Null,
        };
        out.push((name.clone(), value));
        k = k + 1;
    }
    let r = Json::object(out);
    assert(r@.members()->0 =~= members_sorted(given));
    Ok(Some(r))
}

/// The annotations of an object as they are written: `null` where it has none.
pub fn write_annotations(annotations: &Option<Json>) -> (r: Option<Json>)
    ensures
        opt_tree(r) == Some(noted(*annotations)),
{
    match annotations {
        Some(a) => Some(a.copy()),
        None => Some(Json::Null),
    }
}

/// Why the JSON form of an object is refused.
pub enum ParseFault {
    /// It is no JSON, or a member is missing or of the wrong type.
    Malformed,
    /// It names another api version or kind than its type.
    TypeMeta,
    /// Its name does not follow the naming grammar.
    Name,
}

/// The fault that an error of reading an object reports.
pub open spec fn fault_of(e: DeserializeError) -> ParseFault {
    match e {
        DeserializeError::JsonError(_) => ParseFault::Malformed,
        DeserializeError::MismatchTypeMeta(_) => ParseFault::TypeMeta,
        DeserializeError::InvalidName(_) => ParseFault::Name,
    }
}

/// What is wrong with the parts of an object that is to be of the given
/// kind: the type tag is looked at first, then the name.
pub open spec fn parts_fault(kind: Kind, p: PartsView) -> Option<ParseFault> {
    if p.api_version != core_api_version() || p.kind != kind.name() {
        Some(ParseFault::TypeMeta)
    } else if !valid_name(p.name) {
        Some(ParseFault::Name)
    } else {
        None
    }
}

/// What is said of a type tag that is not that of the kind: the api
/// version is looked at first, then the kind.
pub open spec fn mismatch_text(kind: Kind, api_version: Seq<char>, found: Seq<char>) -> Seq<char> {
    if api_version != core_api_version() {
        "apiVersion mismatch, expect '"@ + core_api_version() + "', but get '"@ + api_version + "'"@
    } else {
        "kind mismatch, expect '"@ + kind.name() + "', but get '"@ + found + "'"@
    }
}

/// What an error of reading an object of a kind says: of a type tag that
/// is not the kind's, what was expected and what was found; of a name, that
/// it does not follow the grammar. Of a malformed document the reader's own words.
pub open spec fn says(e: DeserializeError, kind: Kind, j: JsonView) -> bool {
    match e {
        DeserializeError::MismatchTypeMeta(msg) => match parts_of(j) {
            Some(p) => msg@ == mismatch_text(kind, p.api_version, p.kind),
            None => false,
        },
        DeserializeError::InvalidName(msg) => msg@ == "name is not a valid RFC 1035 label"@,
        DeserializeError::JsonError(_) => true,
    }
}

/// Holds the type tag and the name of an object against its kind.
pub fn check_parts(kind: Kind, type_meta: &TypeMeta, name: &str) -> (r: Result<(), DeserializeError>)
    ensures
        match r {
            Ok(()) => type_meta@ == kind.meta() && valid_name(name@),
            Err(e) => if type_meta@ != kind.meta() {
                fault_of(e) == ParseFault::TypeMeta && e->MismatchTypeMeta_0@ == mismatch_text(
                    kind,
                    type_meta@.api_version,
                    type_meta@.kind,
                )
            } else {
                fault_of(e) == ParseFault::Name && !valid_name(name@) && e->InvalidName_0@
                    == "name is not a valid RFC 1035 label"@
            },
        },
{
    if !same_text(type_meta.api_version.as_str(), "core/v1") {
        let mut msg = String::from_str("apiVersion mismatch, expect '");
        msg.append("core/v1");
        msg.append("', but get '");
        msg.append(type_meta.api_version.as_str());
        msg.append("'");
        return Err(DeserializeError::MismatchTypeMeta(msg));
    }
    if !same_text(type_meta.kind.as_str(), kind.kind_name()) {
        let mut msg = String::from_str("kind mismatch, expect '");
        msg.append(kind.kind_name());
        msg.append("', but get '");
        msg.append(type_meta.kind.as_str());
        msg.append("'");
        return Err(DeserializeError::MismatchTypeMeta(msg));
    }
    if !is_valid_rfc_1035(name) {
        return Err(DeserializeError::InvalidName(String::from_str("name is not a valid RFC 1035 label")));
    }
    Ok(())
}

/// A member-wise reading of a list: the readings of all items, where every item can be read.
pub open spec fn read_all<T>(items: Seq<JsonView>, read: spec_fn(JsonView) -> Option<T>) -> Option<Seq<T>> {
    if forall|i: int| 0 <= i < items.len() ==> read(#[trigger] items[i]) is Some {
        Some(Seq::new(items.len(), |i: int| read(items[i])->0))
    } else {
        None
    }
}

} // verus!
