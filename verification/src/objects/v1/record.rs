use vstd::prelude::*;
use vstd::string::*;
use crate::errors::DeserializeError;
use crate::json::{
    distinct_keys, json_decoded, lemma_lookup_found, lemma_lookup_member, lemma_texts_roundtrip, texts_of, Json,
    JsonView,
};
use crate::objects::kinds::Kind;
use crate::objects::meta::TypeMeta;
use crate::objects::parts::{
    annotated, check_parts, fault_of, is_note, keep_annotations, kept_annotations, lemma_parts_roundtrip,
    lemma_parts_well_formed, noted, parts_fault, parts_of, parts_tree, write_annotations, ParseFault, Parts,
    PartsView,
};

verus! {

/// What a record holds: its content, any JSON, and the organizations that wrote it.
#[derive(Debug)]
pub struct RecordSpec {
    pub content: Json,
    pub authors: Vec<String>,
}

/// The metadata of a record.
#[derive(Debug)]
pub struct RecordMetadata {
    pub name: String,
    pub namespace: String,
    pub uid: u64,
    /// What is noted on the record: a map, or nothing.
    pub annotations: Option<Json>,
}

/// A record: an object of a namespace that its authors agree on.
#[derive(Debug)]
pub struct Record {
    pub type_meta: TypeMeta,
    pub metadata: RecordMetadata,
    pub spec: RecordSpec,
}

/// The tree under `spec` of a record.
pub open spec fn record_spec_tree(content: JsonView, authors: Seq<Seq<char>>) -> JsonView {
    JsonView::Object(seq![("content"@, content), ("authors"@, JsonView::of_texts(authors))])
}

/// The content and the authors that the tree under `spec` of a record names.
pub open spec fn record_spec_of(spec: JsonView) -> Option<(JsonView, Seq<Seq<char>>)> {
    match (spec.field("content"@), spec.field("authors"@)) {
        (Some(content), Some(list)) => match list.texts() {
            Some(authors) => Some((content, authors)),
            None => None,
        },
        _ => None,
    }
}

/// The authors that the tree under `spec` of a record names.
pub open spec fn record_authors(spec: JsonView) -> Seq<Seq<char>> {
    match record_spec_of(spec) {
        Some(s) => s.1,
        None => Seq::empty(),
    }
}

/// The parts of a record, but for its annotations.
pub open spec fn record_parts(
    api_version: Seq<char>,
    kind: Seq<char>,
    name: Seq<char>,
    namespace: Seq<char>,
    uid: u64,
    content: JsonView,
    authors: Seq<Seq<char>>,
) -> PartsView {
    PartsView {
        api_version,
        kind,
        name,
        namespace: Some(namespace),
        version: None,
        uid,
        creator: None,
        annotations: None,
        spec: record_spec_tree(content, authors),
        status: None,
    }
}

/// What reading a record from a JSON object gives.
pub open spec fn record_parsed(j: JsonView) -> Result<PartsView, ParseFault> {
    match parts_of(j) {
        Some(p) => match (p.namespace, record_spec_of(p.spec), kept_annotations(p.annotations)) {
            (Some(namespace), Some(spec), Some(notes)) => match parts_fault(Kind::Record, p) {
                Some(fault) => Err(fault),
                None => Ok(
                    annotated(record_parts(p.api_version, p.kind, p.name, namespace, p.uid, spec.0, spec.1), notes),
                ),
            },
            _ => Err(ParseFault::Malformed),
        },
        None => Err(ParseFault::Malformed),
    }
}

impl View for Record {
    type V = PartsView;

    open spec fn view(&self) -> PartsView {
        annotated(
            record_parts(
                self.type_meta.api_version@,
                self.type_meta.kind@,
                self.metadata.name@,
                self.metadata.namespace@,
                self.metadata.uid,
                self.spec.content@,
                texts_of(self.spec.authors@),
            ),
            noted(self.metadata.annotations),
        )
    }
}

/// Reading the `spec` of a written record gives its content and authors back.
pub proof fn lemma_record_spec(content: JsonView, authors: Seq<Seq<char>>)
    ensures
        record_spec_of(record_spec_tree(content, authors)) == Some((content, authors)),
        content.well_formed() ==> record_spec_tree(content, authors).well_formed(),
{
    reveal_strlit("content");
    reveal_strlit("authors");
    assert("content"@[0] == 'c' && "authors"@[0] == 'a');
    let members = record_spec_tree(content, authors).members()->0;
    lemma_lookup_found(members, "content"@, 0);
    lemma_lookup_found(members, "authors"@, 1);
    lemma_texts_roundtrip(authors);
    reveal_with_fuel(JsonView::well_formed, 2);
    assert(distinct_keys(members));
}

/// A record that is written and read again is the same record.
pub proof fn lemma_record_roundtrip(
    name: Seq<char>,
    namespace: Seq<char>,
    uid: u64,
    content: JsonView,
    authors: Seq<Seq<char>>,
    notes: JsonView,
)
    requires
        crate::utils::validate::valid_name(name),
        is_note(notes),
    ensures
        ({
            let p = annotated(
                record_parts(
                    Kind::Record.meta().api_version,
                    Kind::Record.meta().kind,
                    name,
                    namespace,
                    uid,
                    content,
                    authors,
                ),
                notes,
            );
            &&& record_parsed(parts_tree(p)) == Ok::<PartsView, ParseFault>(p)
            &&& content.well_formed() && notes.well_formed() ==> parts_tree(p).well_formed()
        }),
{
    let p = annotated(
        record_parts(Kind::Record.meta().api_version, Kind::Record.meta().kind, name, namespace, uid, content, authors),
        notes,
    );
    lemma_parts_roundtrip(p);
    crate::objects::parts::lemma_note_kept(notes);
    lemma_record_spec(content, authors);
    if content.well_formed() && notes.well_formed() {
        lemma_parts_well_formed(p);
    }
}

impl Record {
    /// The content and the annotations have no key twice in any of their objects.
    pub open spec fn wf(&self) -> bool {
        self.spec.content@.well_formed() && noted(self.metadata.annotations).well_formed()
    }

    /// The parts of the record.
    pub fn to_parts(&self) -> (p: Parts)
        ensures
            p@ == self@,
    {
        let mut members: Vec<(String, Json)> = Vec::new();
        members.push((String::from_str("content"), self.spec.content.copy()));
        members.push((String::from_str("authors"), Json::from_texts(&self.spec.authors)));
        let spec = Json::object(members);
        assert(spec@.members()->0 =~= record_spec_tree(self.spec.content@, texts_of(self.spec.authors@)).members()->0);
        Parts {
            type_meta: self.type_meta.copy(),
            name: self.metadata.name.clone(),
            namespace: Some(self.metadata.namespace.clone()),
            version: None,
            uid: self.metadata.uid,
            creator: None,
            annotations: write_annotations(&self.metadata.annotations),
            spec,
            status: None,
        }
    }

    /// The JSON form of the record.
    pub fn to_value(&self) -> (j: Json)
        ensures
            j@ == parts_tree(self@),
            self.wf() ==> j@.well_formed(),
    {
        proof {
            if self.wf() {
                lemma_record_spec(self.spec.content@, texts_of(self.spec.authors@));
                lemma_parts_well_formed(self@);
            }
        }
        self.to_parts().write()
    }

    /// Reads a record from its JSON form and holds it against the type's tag and the naming grammar.
    pub fn parse_from_value(value: &Json) -> (r: Result<Record, DeserializeError>)
        ensures
            match r {
                Ok(rec) => record_parsed(value@) == Ok::<PartsView, ParseFault>(rec@) && (value@.well_formed() ==> rec.wf()),
                Err(e) => record_parsed(value@) == Err::<PartsView, ParseFault>(fault_of(e)) && crate::objects::parts::says(
                    e,
                    Kind::Record,
                    value@,
                ),
            },
    {
        let parts = match Parts::read(value) {
            Some(p) => p,
            None => { return Err(DeserializeError::JsonError(String::from_str("malformed object"))); },
        };
        let namespace = match parts.namespace {
            Some(ns) => ns,
            None => { return Err(DeserializeError::JsonError(String::from_str("missing field namespace"))); },
        };
        let content = match parts.spec.get("content") {
            Some(c) => c.copy(),
            None => { return Err(DeserializeError::JsonError(String::from_str("missing field content"))); },
        };
        let authors = match parts.spec.get("authors") {
            Some(list) => match list.texts() {
                Some(a) => a,
                None => { return Err(DeserializeError::JsonError(String::from_str("authors must be strings"))); },
            },
            None => { return Err(DeserializeError::JsonError(String::from_str("missing field authors"))); },
        };
        let annotations = match keep_annotations(parts.annotations) {
            Ok(a) => a,
            Err(e) => { return Err(e); },
        };
        match check_parts(Kind::Record, &parts.type_meta, parts.name.as_str()) {
            Ok(()) => {},
            Err(e) => { return Err(e); },
        }
        proof {
            if value@.well_formed() {
                crate::objects::parts::lemma_spec_well_formed(value@);
                lemma_lookup_member(parts.spec@.members()->0, "content"@);
            }
        }
        Ok(
            Record {
                type_meta: parts.type_meta,
                metadata: RecordMetadata { name: parts.name, namespace, uid: parts.uid, annotations },
                spec: RecordSpec { content, authors },
            },
        )
    }

    /// Reads a record from JSON text.
    pub fn parse_from_slice(text: &[u8]) -> (r: Result<Record, DeserializeError>)
        ensures
            match r {
                Ok(rec) => json_decoded(text@) matches Some(j) && record_parsed(j) == Ok::<PartsView, ParseFault>(rec@) && rec.wf(),
                Err(e) => match json_decoded(text@) {
                    Some(j) => record_parsed(j) == Err::<PartsView, ParseFault>(fault_of(e)) && crate::objects::parts::says(
                        e,
                        Kind::Record,
                        j,
                    ),
                    None => fault_of(e) == ParseFault::Malformed,
                },
            },
    {
        match Json::parse(text) {
            Ok(j) => Record::parse_from_value(&j),
            Err(msg) => Err(DeserializeError::JsonError(msg)),
        }
    }
}

} // verus!
