use vstd::prelude::*;
use vstd::string::*;
use crate::errors::DeserializeError;
use crate::json::{json_decoded, lemma_texts_roundtrip, texts_of, Json, JsonView};
use crate::objects::kinds::Kind;
use crate::objects::meta::TypeMeta;
use crate::objects::parts::{
    annotated, check_parts, fault_of, is_note, keep_annotations, kept_annotations, lemma_lookup_one,
    lemma_parts_roundtrip, lemma_parts_well_formed, lemma_spec_well_formed, noted, parts_fault, parts_of,
    parts_tree, write_annotations, ParseFault, Parts, PartsView,
};

verus! {

/// What a namespace is made for: the organizations that are its members.
#[derive(Debug)]
pub struct NamespaceSpec {
    pub members: Vec<String>,
}

impl NamespaceSpec {
    pub fn new(members: Vec<String>) -> (s: Self)
        ensures
            s.members == members,
    {
        NamespaceSpec { members }
    }
}

/// The metadata of a namespace.
#[derive(Debug)]
pub struct NamespaceMetadata {
    pub name: String,
    pub uid: u64,
    /// What is noted on the namespace: a map, or nothing.
    pub annotations: Option<Json>,
}

/// A namespace: a global object that names the organizations which share what lies in it.
#[derive(Debug)]
pub struct Namespace {
    pub type_meta: TypeMeta,
    pub metadata: NamespaceMetadata,
    pub spec: NamespaceSpec,
}

/// The tree under `spec` of a namespace with the given members.
pub open spec fn namespace_spec_tree(members: Seq<Seq<char>>) -> JsonView {
    JsonView::Object(seq![("members"@, JsonView::of_texts(members))])
}

/// The members that the tree under `spec` of a namespace names.
pub open spec fn namespace_members(spec: JsonView) -> Option<Seq<Seq<char>>> {
    match spec.field("members"@) {
        Some(v) => v.texts(),
        None => None,
    }
}

/// The parts of a namespace, but for its annotations.
pub open spec fn namespace_parts(
    api_version: Seq<char>,
    kind: Seq<char>,
    name: Seq<char>,
    uid: u64,
    members: Seq<Seq<char>>,
) -> PartsView {
    PartsView {
        api_version,
        kind,
        name,
        namespace: None,
        version: None,
        uid,
        creator: None,
        annotations: None,
        spec: namespace_spec_tree(members),
        status: None,
    }
}

/// What reading a namespace from a JSON object gives: its parts, or why it is refused.
pub open spec fn namespace_parsed(j: JsonView) -> Result<PartsView, ParseFault> {
    match parts_of(j) {
        Some(p) => match (namespace_members(p.spec), kept_annotations(p.annotations)) {
            (Some(members), Some(notes)) => match parts_fault(Kind::Namespace, p) {
                Some(fault) => Err(fault),
                None => Ok(annotated(namespace_parts(p.api_version, p.kind, p.name, p.uid, members), notes)),
            },
            _ => Err(ParseFault::Malformed),
        },
        None => Err(ParseFault::Malformed),
    }
}

impl View for Namespace {
    type V = PartsView;

    open spec fn view(&self) -> PartsView {
        annotated(
            namespace_parts(
                self.type_meta.api_version@,
                self.type_meta.kind@,
                self.metadata.name@,
                self.metadata.uid,
                texts_of(self.spec.members@),
            ),
            noted(self.metadata.annotations),
        )
    }
}

/// Reading the members under `spec` of a written namespace gives the members back.
pub proof fn lemma_namespace_spec(members: Seq<Seq<char>>)
    ensures
        namespace_members(namespace_spec_tree(members)) == Some(members),
        namespace_spec_tree(members).well_formed(),
{
    lemma_lookup_one("members"@, JsonView::of_texts(members), "members"@);
    lemma_texts_roundtrip(members);
    reveal_with_fuel(JsonView::well_formed, 2);
}

/// A namespace that is written and read again is the same namespace.
pub proof fn lemma_namespace_roundtrip(name: Seq<char>, uid: u64, members: Seq<Seq<char>>, notes: JsonView)
    requires
        crate::utils::validate::valid_name(name),
        is_note(notes),
    ensures
        ({
            let p = annotated(
                namespace_parts(Kind::Namespace.meta().api_version, Kind::Namespace.meta().kind, name, uid, members),
                notes,
            );
            &&& namespace_parsed(parts_tree(p)) == Ok::<PartsView, ParseFault>(p)
            &&& notes.well_formed() ==> parts_tree(p).well_formed()
        }),
{
    let p = annotated(
        namespace_parts(Kind::Namespace.meta().api_version, Kind::Namespace.meta().kind, name, uid, members),
        notes,
    );
    lemma_parts_roundtrip(p);
    crate::objects::parts::lemma_note_kept(notes);
    lemma_namespace_spec(members);
    if notes.well_formed() {
        lemma_parts_well_formed(p);
    }
}

impl Namespace {
    /// The annotations have no key twice in any of their objects.
    pub open spec fn wf(&self) -> bool {
        noted(self.metadata.annotations).well_formed()
    }

    pub fn new(type_meta: TypeMeta, metadata: NamespaceMetadata, spec: NamespaceSpec) -> (ns: Self)
        ensures
            ns.type_meta == type_meta,
            ns.metadata == metadata,
            ns.spec == spec,
    {
        Namespace { type_meta, metadata, spec }
    }

    /// The parts of the namespace.
    pub fn to_parts(&self) -> (p: Parts)
        ensures
            p@ == self@,
    {
        let mut members: Vec<(String, Json)> = Vec::new();
        members.push((String::from_str("members"), Json::from_texts(&self.spec.members)));
        let spec = Json::object(members);
        assert(spec@.members()->0 =~= namespace_spec_tree(texts_of(self.spec.members@)).members()->0);
        Parts {
            type_meta: self.type_meta.copy(),
            name: self.metadata.name.clone(),
            namespace: None,
            version: None,
            uid: self.metadata.uid,
            creator: None,
            annotations: write_annotations(&self.metadata.annotations),
            spec,
            status: None,
        }
    }

    /// The JSON form of the namespace.
    pub fn to_value(&self) -> (j: Json)
        ensures
            j@ == parts_tree(self@),
            self.wf() ==> j@.well_formed(),
    {
        proof {
            if self.wf() {
                lemma_namespace_spec(texts_of(self.spec.members@));
                lemma_parts_well_formed(self@);
            }
        }
        self.to_parts().write()
    }

    /// Reads a namespace from its JSON form and holds it against the type's tag and the naming grammar.
    pub fn parse_from_value(value: &Json) -> (r: Result<Namespace, DeserializeError>)
        ensures
            match r {
                Ok(ns) => namespace_parsed(value@) == Ok::<PartsView, ParseFault>(ns@) && (value@.well_formed()
                    ==> ns.wf()),
                Err(e) => namespace_parsed(value@) == Err::<PartsView, ParseFault>(fault_of(e)) && crate::objects::parts::says(
                    e,
                    Kind::Namespace,
                    value@,
                ),
            },
    {
        proof {
            if value@.well_formed() {
                lemma_spec_well_formed(value@);
            }
        }
        let parts = match Parts::read(value) {
            Some(p) => p,
            None => { return Err(DeserializeError::JsonError(String::from_str("malformed object"))); },
        };
        let members = match parts.spec.get("members") {
            Some(v) => match v.texts() {
                Some(m) => m,
                None => { return Err(DeserializeError::JsonError(String::from_str("members must be strings"))); },
            },
            None => { return Err(DeserializeError::JsonError(String::from_str("missing field members"))); },
        };
        let annotations = match keep_annotations(parts.annotations) {
            Ok(a) => a,
            Err(e) => { return Err(e); },
        };
        match check_parts(Kind::Namespace, &parts.type_meta, parts.name.as_str()) {
            Ok(()) => {},
            Err(e) => { return Err(e); },
        }
        Ok(
            Namespace {
                type_meta: parts.type_meta,
                metadata: NamespaceMetadata { name: parts.name, uid: parts.uid, annotations },
                spec: NamespaceSpec { members },
            },
        )
    }

    /// Reads a namespace from JSON text.
    pub fn parse_from_slice(text: &[u8]) -> (r: Result<Namespace, DeserializeError>)
        ensures
            match r {
                Ok(ns) => json_decoded(text@) matches Some(j) && namespace_parsed(j) == Ok::<PartsView, ParseFault>(ns@)
                    && ns.wf(),
                Err(e) => match json_decoded(text@) {
                    Some(j) => namespace_parsed(j) == Err::<PartsView, ParseFault>(fault_of(e)) && crate::objects::parts::says(
                        e,
                        Kind::Namespace,
                        j,
                    ),
                    None => fault_of(e) == ParseFault::Malformed,
                },
            },
    {
        match Json::parse(text) {
            Ok(j) => Namespace::parse_from_value(&j),
            Err(msg) => Err(DeserializeError::JsonError(msg)),
        }
    }
}

} // verus!
