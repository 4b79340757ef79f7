use vstd::prelude::*;
use vstd::string::*;
use crate::errors::DeserializeError;
use crate::json::{
    distinct_keys, json_decoded, lemma_array_view, lemma_lookup_found, lemma_object_view, lemma_texts_roundtrip,
    texts_of, Json, JsonView,
};
use crate::objects::kinds::Kind;
use crate::text::precedes;
use crate::utils::textmap::{gathered, has_key, lemma_gathered, lemma_gathered_sorted, TextMap};
use crate::objects::meta::TypeMeta;
use crate::objects::parts::{
    annotated, check_parts, fault_of, is_note, keep_annotations, kept_annotations, lemma_parts_roundtrip,
    lemma_parts_well_formed, lemma_spec_well_formed, noted, parts_fault, parts_of, parts_tree, write_annotations,
    read_all, ParseFault, Parts, PartsView,
};

verus! {

/// What a computing contract lays down.
#[derive(Debug)]
pub struct ContractSpec {
    /// The text of the contract.
    pub content: String,
    /// The data declarations that the contract refers to, by name and uid.
    pub data: Vec<(String, u64)>,
    /// The function declarations that the contract refers to, by name and uid.
    pub functions: Vec<(String, u64)>,
    /// The ways in which the contract may be carried out, each a list of organizations.
    pub exec_patterns: Vec<Vec<String>>,
}

impl ContractSpec {
    pub fn data(&self) -> (r: &Vec<(String, u64)>)
        ensures
            r == &self.data,
    {
        &self.data
    }

    pub fn functions(&self) -> (r: &Vec<(String, u64)>)
        ensures
            r == &self.functions,
    {
        &self.functions
    }
}

/// The state of a computing contract: it has none.
#[derive(Debug)]
pub struct ContractStatus {}

/// The metadata of a computing contract.
#[derive(Debug)]
pub struct ContractMetadata {
    pub name: String,
    pub namespace: String,
    pub version: String,
    pub uid: u64,
    /// What is noted on the contract: a map, or nothing.
    pub annotations: Option<Json>,
}

/// A computing contract: a versioned object of a namespace.
#[derive(Debug)]
pub struct Contract {
    pub type_meta: TypeMeta,
    pub metadata: ContractMetadata,
    pub spec: ContractSpec,
    pub status: ContractStatus,
}

/// What the `spec` of a contract holds.
pub struct ContractSpecView {
    pub content: Seq<char>,
    pub data: Seq<(Seq<char>, u64)>,
    pub functions: Seq<(Seq<char>, u64)>,
    pub exec_patterns: Seq<Seq<Seq<char>>>,
}

/// Names with uids, as mathematical values.
pub open spec fn uid_pairs_of(pairs: Seq<(String, u64)>) -> Seq<(Seq<char>, u64)> {
    Seq::new(pairs.len(), |i: int| (pairs[i].0@, pairs[i].1))
}

/// Lists of organizations, as mathematical values.
pub open spec fn patterns_of(patterns: Seq<Vec<String>>) -> Seq<Seq<Seq<char>>> {
    Seq::new(patterns.len(), |i: int| texts_of(patterns[i]@))
}

/// No name occurs twice.
pub open spec fn unique_names(pairs: Seq<(Seq<char>, u64)>) -> bool {
    forall|i: int, j: int| 0 <= i < j < pairs.len() ==> (#[trigger] pairs[i]).0 != (#[trigger] pairs[j]).0
}

/// The pairs stand in the order of their names, and so no name occurs twice.
pub open spec fn sorted_names(pairs: Seq<(Seq<char>, u64)>) -> bool {
    &&& unique_names(pairs)
    &&& forall|i: int, j: int| 0 <= i < j < pairs.len() ==> precedes((#[trigger] pairs[i]).0, (#[trigger] pairs[j]).0)
}

/// The names of some pairs, each with the empty text.
pub open spec fn names_of(pairs: Seq<(Seq<char>, u64)>) -> Seq<(Seq<char>, Seq<char>)> {
    Seq::new(pairs.len(), |i: int| (pairs[i].0, Seq::<char>::empty()))
}

/// The uid that stands with a name.
pub open spec fn uid_named(pairs: Seq<(Seq<char>, u64)>, name: Seq<char>) -> u64 {
    pairs[choose|i: int| 0 <= i < pairs.len() && (#[trigger] pairs[i]).0 == name].1
}

/// Some pairs in the order of their names.
pub open spec fn in_name_order(pairs: Seq<(Seq<char>, u64)>) -> Seq<(Seq<char>, u64)> {
    let names = gathered(names_of(pairs), pairs.len());
    Seq::new(names.len(), |i: int| (names[i].0, uid_named(pairs, names[i].0)))
}

/// Pairs in which no name occurs twice come to stand in the order of their names.
pub proof fn lemma_in_name_order(pairs: Seq<(Seq<char>, u64)>)
    requires
        unique_names(pairs),
    ensures
        sorted_names(in_name_order(pairs)),
{
    lemma_gathered(names_of(pairs), pairs.len());
    let names = gathered(names_of(pairs), pairs.len());
    let sorted = in_name_order(pairs);
    assert forall|i: int, j: int| 0 <= i < j < sorted.len() implies (#[trigger] sorted[i]).0 != (#[trigger] sorted[j]).0
        && precedes(sorted[i].0, sorted[j].0) by {
        assert(sorted[i].0 == names[i].0 && sorted[j].0 == names[j].0);
    }
}

/// Pairs that stand in the order of their names stay as they are.
pub proof fn lemma_name_order_kept(pairs: Seq<(Seq<char>, u64)>)
    requires
        sorted_names(pairs),
    ensures
        in_name_order(pairs) == pairs,
{
    let all = names_of(pairs);
    assert forall|i: int, j: int| 0 <= i < j < all.len() implies (#[trigger] all[i]).0 != (#[trigger] all[j]).0 && precedes(
        all[i].0,
        all[j].0,
    ) by {
        assert(all[i].0 == pairs[i].0 && all[j].0 == pairs[j].0);
    }
    lemma_gathered_sorted(all, pairs.len());
    assert(all.subrange(0, pairs.len() as int) =~= all);
    let sorted = in_name_order(pairs);
    assert forall|i: int| 0 <= i < pairs.len() implies #[trigger] sorted[i] == pairs[i] by {
        let at = choose|k: int| 0 <= k < pairs.len() && (#[trigger] pairs[k]).0 == pairs[i].0;
        assert(pairs[i].0 == pairs[i].0);
        if at < i {
            assert(pairs[at].0 != pairs[i].0);
        }
        if i < at {
            assert(pairs[i].0 != pairs[at].0);
        }
    }
    assert(sorted =~= pairs);
}

impl View for ContractSpec {
    type V = ContractSpecView;

    open spec fn view(&self) -> ContractSpecView {
        ContractSpecView {
            content: self.content@,
            data: uid_pairs_of(self.data@),
            functions: uid_pairs_of(self.functions@),
            exec_patterns: patterns_of(self.exec_patterns@),
        }
    }
}

/// The tree of the execution patterns.
pub open spec fn patterns_tree(patterns: Seq<Seq<Seq<char>>>) -> JsonView {
    JsonView::Array(Seq::new(patterns.len(), |i: int| JsonView::of_texts(patterns[i])))
}

/// The execution patterns that a tree names.
pub open spec fn patterns_in(list: JsonView) -> Option<Seq<Seq<Seq<char>>>> {
    match list {
        JsonView::Array(items) => read_all(items, |j: JsonView| j.texts()),
        _ => None,
    }
}

/// The tree under `spec` of a contract.
pub open spec fn contract_spec_tree(v: ContractSpecView) -> JsonView {
    JsonView::Object(
        seq![
            ("content"@, JsonView::Text(v.content)),
            ("data"@, JsonView::of_uid_pairs(v.data)),
            ("functions"@, JsonView::of_uid_pairs(v.functions)),
            ("execPatterns"@, patterns_tree(v.exec_patterns)),
        ],
    )
}

/// The names with uids under `key`, in the order of the names; none where the member is missing.
pub open spec fn uid_pairs_at(spec: JsonView, key: Seq<char>) -> Option<Seq<(Seq<char>, u64)>> {
    match spec.field(key) {
        Some(v) => match v.uid_pairs() {
            Some(pairs) => Some(in_name_order(pairs)),
            None => None,
        },
        None => Some(Seq::empty()),
    }
}

/// What the tree under `spec` of a contract names.
pub open spec fn contract_spec_of(spec: JsonView) -> Option<ContractSpecView> {
    match (
        spec.text_at("content"@),
        uid_pairs_at(spec, "data"@),
        uid_pairs_at(spec, "functions"@),
        spec.field("execPatterns"@),
    ) {
        (Some(content), Some(data), Some(functions), Some(list)) => match patterns_in(list) {
            Some(exec_patterns) => Some(ContractSpecView { content, data, functions, exec_patterns }),
            None => None,
        },
        _ => None,
    }
}

/// What the tree under `spec` of a contract names stands in the order of the names.
pub proof fn lemma_spec_sorted(spec: JsonView)
    ensures
        contract_spec_of(spec) matches Some(v) ==> sorted_names(v.data) && sorted_names(v.functions),
{
    if let Some(v) = contract_spec_of(spec) {
        if let Some(tree) = spec.field("data"@) {
            lemma_in_name_order(tree.uid_pairs()->0);
        }
        if let Some(tree) = spec.field("functions"@) {
            lemma_in_name_order(tree.uid_pairs()->0);
        }
    }
}

/// The status of a contract holds nothing: any object will do, and so will none.
pub open spec fn contract_status_ok(status: Option<JsonView>) -> bool {
    match status {
        Some(s) => s is Object,
        None => true,
    }
}

/// The parts of a contract, but for its annotations.
pub open spec fn contract_parts(
    api_version: Seq<char>,
    kind: Seq<char>,
    name: Seq<char>,
    namespace: Seq<char>,
    version: Seq<char>,
    uid: u64,
    spec: ContractSpecView,
) -> PartsView {
    PartsView {
        api_version,
        kind,
        name,
        namespace: Some(namespace),
        version: Some(version),
        uid,
        creator: None,
        annotations: None,
        spec: contract_spec_tree(spec),
        status: Some(JsonView::Object(Seq::empty())),
    }
}

/// What reading a contract from a JSON object gives.
pub open spec fn contract_parsed(j: JsonView) -> Result<PartsView, ParseFault> {
    match parts_of(j) {
        Some(p) => match (p.namespace, p.version, contract_spec_of(p.spec), kept_annotations(p.annotations)) {
            (Some(namespace), Some(version), Some(spec), Some(notes)) => if !contract_status_ok(p.status) {
                Err(ParseFault::Malformed)
            } else {
                match parts_fault(Kind::Contract, p) {
                    Some(fault) => Err(fault),
                    None => Ok(
                        annotated(
                            contract_parts(p.api_version, p.kind, p.name, namespace, version, p.uid, spec),
                            notes,
                        ),
                    ),
                }
            },
            _ => Err(ParseFault::Malformed),
        },
        None => Err(ParseFault::Malformed),
    }
}

impl View for Contract {
    type V = PartsView;

    open spec fn view(&self) -> PartsView {
        annotated(
            contract_parts(
                self.type_meta.api_version@,
                self.type_meta.kind@,
                self.metadata.name@,
                self.metadata.namespace@,
                self.metadata.version@,
                self.metadata.uid,
                self.spec@,
            ),
            noted(self.metadata.annotations),
        )
    }
}

/// Whether an organization is named in some execution pattern.
pub open spec fn in_patterns(patterns: Seq<Seq<Seq<char>>>, org: Seq<char>) -> bool {
    exists|i: int, j: int| 0 <= i < patterns.len() && 0 <= j < patterns[i].len() && #[trigger] patterns[i][j] == org
}

/// Reading back an object of names with uids gives the names with their uids.
pub proof fn lemma_uid_pairs_roundtrip(pairs: Seq<(Seq<char>, u64)>)
    requires
        unique_names(pairs),
    ensures
        JsonView::of_uid_pairs(pairs).uid_pairs() == Some(pairs),
        JsonView::of_uid_pairs(pairs).well_formed(),
{
    let tree = JsonView::of_uid_pairs(pairs);
    assert(distinct_keys(tree.members()->0));
    assert(tree.uid_pairs()->0 =~= pairs);
    reveal_with_fuel(JsonView::well_formed, 2);
}

proof fn lemma_patterns_roundtrip(patterns: Seq<Seq<Seq<char>>>)
    ensures
        patterns_in(patterns_tree(patterns)) == Some(patterns),
        patterns_tree(patterns).well_formed(),
{
    let items = patterns_tree(patterns)->Array_0;
    let read = |j: JsonView| j.texts();
    assert forall|i: int| 0 <= i < items.len() implies read(#[trigger] items[i]) == Some(patterns[i]) && items[i].well_formed() by {
        lemma_texts_roundtrip(patterns[i]);
    }
    assert(read_all(items, read)->0 =~= patterns);
    reveal_with_fuel(JsonView::well_formed, 2);
}

/// Reading the `spec` of a written contract gives what it held back.
pub proof fn lemma_contract_spec(v: ContractSpecView)
    requires
        sorted_names(v.data),
        sorted_names(v.functions),
    ensures
        contract_spec_of(contract_spec_tree(v)) == Some(v),
        contract_spec_tree(v).well_formed(),
{
    reveal_strlit("content");
    reveal_strlit("data");
    reveal_strlit("functions");
    reveal_strlit("execPatterns");
    assert("content"@.len() == 7 && "data"@.len() == 4 && "functions"@.len() == 9 && "execPatterns"@.len() == 12);
    let members = contract_spec_tree(v).members()->0;
    lemma_lookup_found(members, "content"@, 0);
    lemma_lookup_found(members, "data"@, 1);
    lemma_lookup_found(members, "functions"@, 2);
    lemma_lookup_found(members, "execPatterns"@, 3);
    lemma_uid_pairs_roundtrip(v.data);
    lemma_uid_pairs_roundtrip(v.functions);
    lemma_name_order_kept(v.data);
    lemma_name_order_kept(v.functions);
    lemma_patterns_roundtrip(v.exec_patterns);
    reveal_with_fuel(JsonView::well_formed, 2);
    assert(distinct_keys(members));
}

/// A contract that is written and read again is the same contract.
pub proof fn lemma_contract_roundtrip(
    name: Seq<char>,
    namespace: Seq<char>,
    version: Seq<char>,
    uid: u64,
    spec: ContractSpecView,
    notes: JsonView,
)
    requires
        crate::utils::validate::valid_name(name),
        sorted_names(spec.data),
        sorted_names(spec.functions),
        is_note(notes),
    ensures
        ({
            let p = annotated(
                contract_parts(
                    Kind::Contract.meta().api_version,
                    Kind::Contract.meta().kind,
                    name,
                    namespace,
                    version,
                    uid,
                    spec,
                ),
                notes,
            );
            &&& contract_parsed(parts_tree(p)) == Ok::<PartsView, ParseFault>(p)
            &&& notes.well_formed() ==> parts_tree(p).well_formed()
        }),
{
    let p = annotated(
        contract_parts(
            Kind::Contract.meta().api_version,
            Kind::Contract.meta().kind,
            name,
            namespace,
            version,
            uid,
            spec,
        ),
        notes,
    );
    lemma_parts_roundtrip(p);
    crate::objects::parts::lemma_note_kept(notes);
    lemma_contract_spec(spec);
    reveal_with_fuel(JsonView::well_formed, 2);
    assert(distinct_keys(Seq::<(Seq<char>, JsonView)>::empty()));
    if notes.well_formed() {
        lemma_parts_well_formed(p);
    }
}

/// Reads an object of names with uids in which no name occurs twice.
fn read_uid_pairs(j: &Json) -> (r: Option<Vec<(String, u64)>>)
    ensures
        match r {
            Some(pairs) => j@.uid_pairs() == Some(uid_pairs_of(pairs@)) && unique_names(uid_pairs_of(pairs@)),
            None => j@.uid_pairs() is None,
        },
{
    let members = match j {
        Json::Object(members) => members,
        _ => { return None; },
    };
    proof {
        lemma_object_view(*members);
    }
    let ghost trees = j@->Object_0;
    let mut pairs: Vec<(String, u64)> = Vec::new();
    let mut i: usize = 0;
    while i < members.len()
        invariant
            i <= members.len(),
            pairs.len() == i,
            j@ == JsonView::Object(trees),
            trees.len() == members.len(),
            forall|n: int| 0 <= n < members.len() ==> (#[trigger] trees[n]) == (members[n].0@, members[n].1@),
            forall|n: int| 0 <= n < i ==> (#[trigger] trees[n]).0 == pairs[n].0@ && trees[n].1.unsigned() == Some(pairs[n].1),
            forall|a: int, b: int| 0 <= a < b < i ==> (#[trigger] trees[a]).0 != (#[trigger] trees[b]).0,
        decreases members.len() - i,
    {
        let uid = match members[i].1.as_u64() {
            Some(n) => n,
            None => {
                assert(trees[i as int].1.unsigned() is None);
                return None;
            },
        };
        let mut k: usize = 0;
        while k < i
            invariant
                k <= i,
                i < members.len(),
                pairs.len() == i,
                j@ == JsonView::Object(trees),
                trees.len() == members.len(),
                forall|n: int| 0 <= n < members.len() ==> (#[trigger] trees[n]) == (members[n].0@, members[n].1@),
                forall|n: int| 0 <= n < i ==> (#[trigger] trees[n]).0 == pairs[n].0@,
                forall|n: int| 0 <= n < k ==> (#[trigger] trees[n]).0 != trees[i as int].0,
            decreases i - k,
        {
            if pairs[k].0 == members[i].0 {
                assert(trees[k as int].0 == trees[i as int].0);
                return None;
            }
            k = k + 1;
        }
        pairs.push((members[i].0.clone(), uid));
        i = i + 1;
    }
    assert(j@.uid_pairs()->0 =~= uid_pairs_of(pairs@));
    Some(pairs)
}

/// The place of a name among some pairs.
fn find_name(pairs: &Vec<(String, u64)>, name: &String) -> (r: Option<usize>)
    ensures
        match r {
            Some(i) => i < pairs.len() && pairs[i as int].0@ == name@,
            None => forall|k: int| 0 <= k < pairs.len() ==> (#[trigger] pairs[k]).0@ != name@,
        },
{
    let mut i: usize = 0;
    while i < pairs.len()
        invariant
            i <= pairs.len(),
            forall|k: int| 0 <= k < i ==> (#[trigger] pairs[k]).0@ != name@,
        decreases pairs.len() - i,
    {
        if pairs[i].0 == *name {
            return Some(i);
        }
        i = i + 1;
    }
    None
}

/// Puts names with uids, of which no name occurs twice, in the order of the names.
fn sort_by_name(pairs: Vec<(String, u64)>) -> (r: Vec<(String, u64)>)
    requires
        unique_names(uid_pairs_of(pairs@)),
    ensures
        uid_pairs_of(r@) == in_name_order(uid_pairs_of(pairs@)),
        sorted_names(uid_pairs_of(r@)),
{
    let ghost given = uid_pairs_of(pairs@);
    let mut names = TextMap::new();
    let mut i: usize = 0;
    while i < pairs.len()
        invariant
            i <= pairs.len(),
            given == uid_pairs_of(pairs@),
            names.wf(),
            names@ == gathered(names_of(given), i as nat),
        decreases pairs.len() - i,
    {
        assert(names_of(given)[i as int] == (pairs[i as int].0@, Seq::<char>::empty()));
        names.insert(pairs[i].0.clone(), String::new());
        i = i + 1;
    }
    proof {
        lemma_gathered(names_of(given), given.len());
        assert(names_of(given).subrange(0, given.len() as int) =~= names_of(given));
    }
    let mut out: Vec<(String, u64)> = Vec::new();
    let mut k: usize = 0;
    while k < names.len()
        invariant
            k <= names@.len(),
            out.len() == k,
            given == uid_pairs_of(pairs@),
            unique_names(given),
            names@ == gathered(names_of(given), given.len()),
            forall|key: Seq<char>| #[trigger] has_key(names@, key) == has_key(names_of(given), key),
            forall|n: int| 0 <= n < k ==> (#[trigger] out[n]).0@ == names@[n].0 && out[n].1 == uid_named(given, names@[n].0),
        decreases names@.len() - k,
    {
        let name = names.key_at(k);
        let uid = match find_name(&pairs, name) {
            Some(at) => {
                proof {
                    assert(given[at as int].0 == name@);
                    let chosen = choose|c: int| 0 <= c < given.len() && (#[trigger] given[c]).0 == name@;
                    if chosen < at {
                        assert(given[chosen].0 != given[at as int].0);
                    }
                    if at < chosen {
                        assert(given[at as int].0 != given[chosen].0);
                    }
                }
                pairs[at].1
            },
            None => {
                proof {
                    assert(names@[k as int].0 == name@);
                    assert(has_key(names@, name@));
                    let c = crate::utils::textmap::key_slot(names_of(given), name@);
                    assert(given[c].0 == name@);
                    assert(uid_pairs_of(pairs@)[c] == (pairs[c].0@, pairs[c].1));
                }
                0
            },
        };
        out.push((name.clone(), uid));
        k = k + 1;
    }
    proof {
        assert(uid_pairs_of(out@) =~= in_name_order(given));
        lemma_in_name_order(given);
    }
    out
}

/// Writes names with uids as an object.
pub fn uid_pairs_json(pairs: &Vec<(String, u64)>) -> (r: Json)
    ensures
        r@ == JsonView::of_uid_pairs(uid_pairs_of(pairs@)),
{
    let mut members: Vec<(String, Json)> = Vec::new();
    let mut i: usize = 0;
    while i < pairs.len()
        invariant
            i <= pairs.len(),
            members.len() == i,
            forall|n: int| 0 <= n < i ==> (#[trigger] members[n]).0@ == pairs[n].0@ && members[n].1@ == JsonView::Unsigned(pairs[n].1),
        decreases pairs.len() - i,
    {
        members.push((pairs[i].0.clone(), Json::from_u64(pairs[i].1)));
        i = i + 1;
    }
    let r = Json::object(members);
    assert(r@.members()->0 =~= JsonView::of_uid_pairs(uid_pairs_of(pairs@)).members()->0);
    r
}

/// Reads the execution patterns.
fn read_patterns(list: &Json) -> (r: Option<Vec<Vec<String>>>)
    ensures
        match r {
            Some(patterns) => patterns_in(list@) == Some(patterns_of(patterns@)),
            None => patterns_in(list@) is None,
        },
{
    let items = match list {
        Json::Array(items) => items,
        _ => { return None; },
    };
    proof {
        lemma_array_view(*items);
    }
    let ghost trees = list@->Array_0;
    let mut patterns: Vec<Vec<String>> = Vec::new();
    let mut i: usize = 0;
    while i < items.len()
        invariant
            i <= items.len(),
            patterns.len() == i,
            list@ == JsonView::Array(trees),
            trees.len() == items.len(),
            forall|n: int| 0 <= n < items.len() ==> (#[trigger] trees[n]) == items[n]@,
            forall|n: int| 0 <= n < i ==> (#[trigger] trees[n]).texts() == Some(texts_of(patterns[n]@)),
        decreases items.len() - i,
    {
        match items[i].texts() {
            Some(orgs) => {
                patterns.push(orgs);
            },
            None => {
                proof {
                    let f = |j: JsonView| j.texts();
                    assert(f(trees[i as int]) is None);
                    assert(read_all(trees, f) is None);
                }
                return None;
            },
        }
        i = i + 1;
    }
    proof {
        let read = |j: JsonView| j.texts();
        assert forall|n: int| 0 <= n < trees.len() implies read(#[trigger] trees[n]) is Some by {}
        assert(read_all(trees, read)->0 =~= patterns_of(patterns@));
    }
    Some(patterns)
}

/// Writes the execution patterns.
fn patterns_json(patterns: &Vec<Vec<String>>) -> (r: Json)
    ensures
        r@ == patterns_tree(patterns_of(patterns@)),
{
    let mut items: Vec<Json> = Vec::new();
    let mut i: usize = 0;
    while i < patterns.len()
        invariant
            i <= patterns.len(),
            items.len() == i,
            forall|n: int| 0 <= n < i ==> (#[trigger] items[n])@ == JsonView::of_texts(texts_of(patterns[n]@)),
        decreases patterns.len() - i,
    {
        items.push(Json::from_texts(&patterns[i]));
        i = i + 1;
    }
    proof {
        lemma_array_view(items);
    }
    let r = Json::Array(items);
    assert(r@->Array_0 =~= patterns_tree(patterns_of(patterns@))->Array_0);
    r
}

impl ContractSpec {
    /// The tree under `spec` of a contract.
    pub fn to_value(&self) -> (r: Json)
        ensures
            r@ == contract_spec_tree(self@),
    {
        let mut members: Vec<(String, Json)> = Vec::new();
        members.push((String::from_str("content"), Json::from_text(self.content.as_str())));
        members.push((String::from_str("data"), uid_pairs_json(&self.data)));
        members.push((String::from_str("functions"), uid_pairs_json(&self.functions)));
        members.push((String::from_str("execPatterns"), patterns_json(&self.exec_patterns)));
        let spec = Json::object(members);
        assert(spec@.members()->0 =~= contract_spec_tree(self@).members()->0);
        spec
    }
}

impl Contract {
    /// The declarations stand in the order of their names, and the
    /// annotations have no key twice in any of their objects.
    pub open spec fn wf(&self) -> bool {
        sorted_names(self.spec@.data) && sorted_names(self.spec@.functions) && noted(
            self.metadata.annotations,
        ).well_formed()
    }

    pub fn spec(&self) -> (r: &ContractSpec)
        ensures
            r == &self.spec,
    {
        &self.spec
    }

    /// The parts of the contract.
    pub fn to_parts(&self) -> (p: Parts)
        ensures
            p@ == self@,
    {
        let spec = self.spec.to_value();
        let status = Json::object(Vec::new());
        assert(status@.members()->0 =~= Seq::<(Seq<char>, JsonView)>::empty());
        Parts {
            type_meta: self.type_meta.copy(),
            name: self.metadata.name.clone(),
            namespace: Some(self.metadata.namespace.clone()),
            version: Some(self.metadata.version.clone()),
            uid: self.metadata.uid,
            creator: None,
            annotations: write_annotations(&self.metadata.annotations),
            spec,
            status: Some(status),
        }
    }

    /// The JSON form of the contract.
    pub fn to_value(&self) -> (j: Json)
        ensures
            j@ == parts_tree(self@),
            self.wf() ==> j@.well_formed(),
    {
        proof {
            if self.wf() {
                lemma_contract_spec(self.spec@);
                reveal_with_fuel(JsonView::well_formed, 2);
                assert(distinct_keys(Seq::<(Seq<char>, JsonView)>::empty()));
                lemma_parts_well_formed(self@);
            }
        }
        self.to_parts().write()
    }

    /// Reads a contract from its JSON form and holds it against the type's tag and the naming grammar.
    pub fn parse_from_value(value: &Json) -> (r: Result<Contract, DeserializeError>)
        ensures
            match r {
                Ok(c) => contract_parsed(value@) == Ok::<PartsView, ParseFault>(c@) && (value@.well_formed()
                    ==> c.wf()),
                Err(e) => contract_parsed(value@) == Err::<PartsView, ParseFault>(fault_of(e)) && crate::objects::parts::says(
                    e,
                    Kind::Contract,
                    value@,
                ),
            },
    {
        proof {
            if value@.well_formed() {
                lemma_spec_well_formed(value@);
            }
        }
        let parts = match Parts::read(value) {
            Some(p) => p,
            None => { return Err(DeserializeError::JsonError(String::from_str("malformed object"))); },
        };
        let namespace = match parts.namespace {
            Some(ns) => ns,
            None => { return Err(DeserializeError::JsonError(String::from_str("missing field namespace"))); },
        };
        let version = match parts.version {
            Some(v) => v,
            None => { return Err(DeserializeError::JsonError(String::from_str("missing field version"))); },
        };
        let content = match parts.spec.get_text("content") {
            Some(s) => s,
            None => { return Err(DeserializeError::JsonError(String::from_str("missing field content"))); },
        };
        let data = match parts.spec.get("data") {
            Some(v) => match read_uid_pairs(v) {
                Some(d) => sort_by_name(d),
                None => { return Err(DeserializeError::JsonError(String::from_str("malformed field data"))); },
            },
            None => Vec::new(),
        };
        let functions = match parts.spec.get("functions") {
            Some(v) => match read_uid_pairs(v) {
                Some(d) => sort_by_name(d),
                None => { return Err(DeserializeError::JsonError(String::from_str("malformed field functions"))); },
            },
            None => Vec::new(),
        };
        let exec_patterns = match parts.spec.get("execPatterns") {
            Some(v) => match read_patterns(v) {
                Some(p) => p,
                None => { return Err(DeserializeError::JsonError(String::from_str("malformed field execPatterns"))); },
            },
            None => { return Err(DeserializeError::JsonError(String::from_str("missing field execPatterns"))); },
        };
        match &parts.status {
            Some(Json::Object(_)) => {},
            None => {},
            _ => { return Err(DeserializeError::JsonError(String::from_str("malformed status"))); },
        }
        let annotations = match keep_annotations(parts.annotations) {
            Ok(a) => a,
            Err(e) => { return Err(e); },
        };
        match check_parts(Kind::Contract, &parts.type_meta, parts.name.as_str()) {
            Ok(()) => {},
            Err(e) => { return Err(e); },
        }
        let spec = ContractSpec { content, data, functions, exec_patterns };
        assert(spec@.data =~= uid_pairs_at(parts.spec@, "data"@)->0);
        assert(spec@.functions =~= uid_pairs_at(parts.spec@, "functions"@)->0);
        Ok(
            Contract {
                type_meta: parts.type_meta,
                metadata: ContractMetadata { name: parts.name, namespace, version, uid: parts.uid, annotations },
                spec,
                status: ContractStatus {  },
            },
        )
    }

    /// Reads a contract from JSON text.
    pub fn parse_from_slice(text: &[u8]) -> (r: Result<Contract, DeserializeError>)
        ensures
            match r {
                Ok(c) => json_decoded(text@) matches Some(j) && contract_parsed(j) == Ok::<PartsView, ParseFault>(c@) && c.wf(),
                Err(e) => match json_decoded(text@) {
                    Some(j) => contract_parsed(j) == Err::<PartsView, ParseFault>(fault_of(e)) && crate::objects::parts::says(
                        e,
                        Kind::Contract,
                        j,
                    ),
                    None => fault_of(e) == ParseFault::Malformed,
                },
            },
    {
        match Json::parse(text) {
            Ok(j) => Contract::parse_from_value(&j),
            Err(msg) => Err(DeserializeError::JsonError(msg)),
        }
    }
}

} // verus!
