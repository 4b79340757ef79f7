use vstd::prelude::*;
use vstd::string::*;
use crate::errors::{ChainModelError, DeserializeError};
use crate::json::{json_decoded, written, Json, JsonView};
use crate::objects::kinds::{get_type_meta, lemma_kind_of_meta, type_meta_of, Kind};
use crate::objects::meta::{TypeMeta, TypeMetaView};
use crate::objects::parts::{
    fault_of, lemma_parts_roundtrip, parts_fault, parts_of, parts_tree, ParseFault, PartsView,
};
use crate::objects::v1::contracts::{contract_parsed, Contract};
use crate::objects::v1::declare::{data_declare_parsed, function_declare_parsed, DataDeclare, FunctionDeclare};
use crate::objects::v1::global_proposal::GlobalProposal;
use crate::objects::v1::namespace::{namespace_parsed, Namespace};
use crate::objects::v1::proposal::{proposal_parsed, Proposal};
use crate::objects::v1::record::{record_parsed, Record};

verus! {

/// An object of any kind that the contract knows.
#[derive(Debug)]
pub enum DynamicObject {
    Namespace(Namespace),
    Proposal(Proposal),
    GlobalProposal(GlobalProposal),
    DataDeclare(DataDeclare),
    FunctionDeclare(FunctionDeclare),
    Contract(Contract),
    Record(Record),
}

/// Why the store refuses a request.
pub enum StoreFault {
    /// A stored text is no JSON, or an object cannot be written as JSON.
    Json,
    /// A JSON object names no type.
    InvalidObject,
    /// No type is registered for the type tag: its api version and kind.
    Unsupported(Seq<char>, Seq<char>),
    /// An object does not read as one of its type.
    Parse(ParseFault),
    /// A uid holds an object of one kind and was to take one of another: the
    /// uid, the kind that it holds and the kind that it was to take.
    MismatchedKind(u64, Seq<char>, Seq<char>),
    /// Table and index disagree.
    State,
    /// The ledger refused a request.
    Ledger,
    /// A scan of the ledger broke off.
    Cursor,
}

/// The fault that an error of the store reports.
pub open spec fn store_fault(e: ChainModelError) -> StoreFault {
    match e {
        ChainModelError::JsonError(_) => StoreFault::Json,
        ChainModelError::DeserializeError(d) => StoreFault::Parse(fault_of(d)),
        ChainModelError::InvalidObject(_) => StoreFault::InvalidObject,
        ChainModelError::UnsupportedObject(api_version, kind) => StoreFault::Unsupported(api_version@, kind@),
        ChainModelError::MismatchedKind { uid, old_kind, new_kind } => StoreFault::MismatchedKind(
            uid,
            old_kind@,
            new_kind@,
        ),
        ChainModelError::StateError(_) => StoreFault::State,
        ChainModelError::ContextError(_) => StoreFault::Ledger,
        ChainModelError::ResultSetError(_) => StoreFault::Cursor,
    }
}

/// What reading an object of a given kind from a JSON object gives.
pub open spec fn kind_parsed(kind: Kind, j: JsonView) -> Result<PartsView, ParseFault> {
    match kind {
        Kind::Namespace => namespace_parsed(j),
        Kind::Proposal => proposal_parsed(Kind::Proposal, j),
        Kind::GlobalProposal => proposal_parsed(Kind::GlobalProposal, j),
        Kind::DataDeclare => data_declare_parsed(j),
        Kind::FunctionDeclare => function_declare_parsed(j),
        Kind::Contract => contract_parsed(j),
        Kind::Record => record_parsed(j),
    }
}

/// What reading an object from a JSON object gives: the type tag says
/// which kind it is to be, and it is read as one of that kind.
pub open spec fn object_parsed(j: JsonView) -> Result<PartsView, StoreFault> {
    match type_meta_of(j) {
        Some(meta) => match Kind::of(meta) {
            Some(kind) => match kind_parsed(kind, j) {
                Ok(p) => Ok(p),
                Err(fault) => Err(StoreFault::Parse(fault)),
            },
            None => Err(StoreFault::Unsupported(meta.api_version, meta.kind)),
        },
        None => Err(StoreFault::InvalidObject),
    }
}

/// What reading an object from a JSON text gives.
pub open spec fn text_parsed(text: Seq<u8>) -> Result<PartsView, StoreFault> {
    match json_decoded(text) {
        Some(j) => object_parsed(j),
        None => Err(StoreFault::Json),
    }
}

/// What was read as an object of a kind reads, once written, as the same
/// object of the same kind: nothing is lost or changed by writing and
/// reading again.
pub proof fn lemma_parsed_is_canonical(kind: Kind, j: JsonView)
    ensures
        kind_parsed(kind, j) matches Ok(p) ==> {
            &&& kind_parsed(kind, parts_tree(p)) == Ok::<PartsView, ParseFault>(p)
            &&& object_parsed(parts_tree(p)) == Ok::<PartsView, StoreFault>(p)
            &&& p.api_version == kind.meta().api_version
            &&& p.kind == kind.meta().kind
            &&& crate::utils::validate::valid_name(p.name)
            &&& kind.is_namespaced() == (p.namespace is Some)
            &&& kind.is_versioned() == (p.version is Some)
        },
{
    if let Ok(p) = kind_parsed(kind, j) {
        let q = parts_of(j)->0;
        assert(parts_fault(kind, q) is None);
        lemma_kind_of_meta(kind);
        crate::objects::parts::lemma_kept_is_note(q.annotations);
        match kind {
            Kind::Namespace => {
                let members = crate::objects::v1::namespace::namespace_members(q.spec)->0;
                crate::objects::v1::namespace::lemma_namespace_roundtrip(
                    q.name,
                    q.uid,
                    members,
                    crate::objects::parts::kept_annotations(q.annotations)->0,
                );
            },
            Kind::Proposal => {
                let actions = crate::objects::v1::proposal::proposal_actions(q.spec)->0;
                let status = crate::objects::v1::proposal::status_of(q.status)->0;
                crate::objects::v1::proposal::lemma_status_sorted(q.status);
                crate::objects::v1::proposal::lemma_proposal_roundtrip(
                    q.name,
                    q.namespace,
                    q.uid,
                    crate::objects::v1::proposal::creator_of(q),
                    actions,
                    status,
                );
            },
            Kind::GlobalProposal => {
                let actions = crate::objects::v1::proposal::proposal_actions(q.spec)->0;
                let status = crate::objects::v1::proposal::status_of(q.status)->0;
                crate::objects::v1::proposal::lemma_status_sorted(q.status);
                crate::objects::v1::proposal::lemma_proposal_roundtrip(
                    q.name,
                    None,
                    q.uid,
                    crate::objects::v1::proposal::creator_of(q),
                    actions,
                    status,
                );
            },
            Kind::DataDeclare => {
                let spec = crate::objects::v1::declare::data_spec_of(q.spec)->0;
                let impls = crate::objects::v1::declare::implementations(q.status)->0;
                crate::objects::v1::declare::lemma_implementations_sorted(q.status);
                crate::objects::v1::declare::lemma_data_declare_roundtrip(
                    q.name,
                    q.namespace->0,
                    q.uid,
                    spec.0,
                    spec.1,
                    impls,
                    crate::objects::parts::kept_annotations(q.annotations)->0,
                );
            },
            Kind::FunctionDeclare => {
                let spec = crate::objects::v1::declare::function_spec_of(q.spec)->0;
                let impls = crate::objects::v1::declare::implementations(q.status)->0;
                crate::objects::v1::declare::lemma_implementations_sorted(q.status);
                crate::objects::v1::declare::lemma_function_declare_roundtrip(
                    q.name,
                    q.namespace->0,
                    q.uid,
                    spec,
                    impls,
                    crate::objects::parts::kept_annotations(q.annotations)->0,
                );
            },
            Kind::Contract => {
                let spec = crate::objects::v1::contracts::contract_spec_of(q.spec)->0;
                crate::objects::v1::contracts::lemma_spec_sorted(q.spec);
                crate::objects::v1::contracts::lemma_contract_roundtrip(
                    q.name,
                    q.namespace->0,
                    q.version->0,
                    q.uid,
                    spec,
                    crate::objects::parts::kept_annotations(q.annotations)->0,
                );
            },
            Kind::Record => {
                let spec = crate::objects::v1::record::record_spec_of(q.spec)->0;
                crate::objects::v1::record::lemma_record_roundtrip(
                    q.name,
                    q.namespace->0,
                    q.uid,
                    spec.0,
                    spec.1,
                    crate::objects::parts::kept_annotations(q.annotations)->0,
                );
            },
        }
        lemma_parts_roundtrip(p);
    }
}

/// What reads as an object of a kind reads as that object without the kind being told.
pub proof fn lemma_kind_parsed_object(kind: Kind, j: JsonView)
    ensures
        kind_parsed(kind, j) matches Ok(p) ==> object_parsed(j) == Ok::<PartsView, StoreFault>(p),
{
    if let Ok(p) = kind_parsed(kind, j) {
        let q = parts_of(j)->0;
        assert(parts_fault(kind, q) is None);
        lemma_kind_of_meta(kind);
    }
}

/// What reads as an object of a kind without the kind being told reads as that object when the kind is told.
pub proof fn lemma_object_parsed_kind(kind: Kind, j: JsonView)
    ensures
        object_parsed(j) is Ok && object_parsed(j)->Ok_0.kind == kind.name() ==> kind_parsed(kind, j) == Ok::<
            PartsView,
            ParseFault,
        >(object_parsed(j)->Ok_0),
{
    if let Ok(p) = object_parsed(j) {
        if p.kind == kind.name() {
            let found = Kind::of(type_meta_of(j)->0)->0;
            lemma_parsed_is_canonical(found, j);
            lemma_kind_of_meta(found);
            lemma_kind_of_meta(kind);
            assert(found.meta() == kind.meta());
        }
    }
}

impl View for DynamicObject {
    type V = PartsView;

    open spec fn view(&self) -> PartsView {
        match self {
            DynamicObject::Namespace(o) => o@,
            DynamicObject::Proposal(o) => o@,
            DynamicObject::GlobalProposal(o) => o@,
            DynamicObject::DataDeclare(o) => o@,
            DynamicObject::FunctionDeclare(o) => o@,
            DynamicObject::Contract(o) => o@,
            DynamicObject::Record(o) => o@,
        }
    }
}

impl DynamicObject {
    /// The kind of the object's type.
    pub open spec fn spec_kind(&self) -> Kind {
        match self {
            DynamicObject::Namespace(_) => Kind::Namespace,
            DynamicObject::Proposal(_) => Kind::Proposal,
            DynamicObject::GlobalProposal(_) => Kind::GlobalProposal,
            DynamicObject::DataDeclare(_) => Kind::DataDeclare,
            DynamicObject::FunctionDeclare(_) => Kind::FunctionDeclare,
            DynamicObject::Contract(_) => Kind::Contract,
            DynamicObject::Record(_) => Kind::Record,
        }
    }

    /// What the object holds is well-formed: in its JSON no object has a key
    /// twice, and its maps name nothing twice.
    pub open spec fn wf(&self) -> bool {
        match self {
            DynamicObject::Namespace(o) => o.wf(),
            DynamicObject::Proposal(o) => o.wf(),
            DynamicObject::GlobalProposal(o) => o.wf(),
            DynamicObject::DataDeclare(o) => o.wf(),
            DynamicObject::FunctionDeclare(o) => o.wf(),
            DynamicObject::Contract(o) => o.wf(),
            DynamicObject::Record(o) => o.wf(),
        }
    }

    /// The object is one that reading gives: well-formed, and written and
    /// read again it is the same object of the same kind.
    pub open spec fn valid(&self) -> bool {
        &&& self.wf()
        &&& object_parsed(parts_tree(self@)) == Ok::<PartsView, StoreFault>(self@)
        &&& self@.kind == self.spec_kind().name()
        &&& self@.api_version == self.spec_kind().meta().api_version
    }

    /// An object names a namespace if and only if its kind lies in one, and a version if and only if its kind carries one.
    pub proof fn lemma_namespaced(&self)
        ensures
            self.spec_kind().is_namespaced() == (self@.namespace is Some),
            self.spec_kind().is_versioned() == (self@.version is Some),
    {
    }

    /// The kind of the object's type.
    pub fn object_kind(&self) -> (k: Kind)
        ensures
            k == self.spec_kind(),
    {
        match self {
            DynamicObject::Namespace(_) => Kind::Namespace,
            DynamicObject::Proposal(_) => Kind::Proposal,
            DynamicObject::GlobalProposal(_) => Kind::GlobalProposal,
            DynamicObject::DataDeclare(_) => Kind::DataDeclare,
            DynamicObject::FunctionDeclare(_) => Kind::FunctionDeclare,
            DynamicObject::Contract(_) => Kind::Contract,
            DynamicObject::Record(_) => Kind::Record,
        }
    }

    /// The type tag that the object carries.
    pub fn type_meta(&self) -> (m: &TypeMeta)
        ensures
            m@ == (TypeMetaView { api_version: self@.api_version, kind: self@.kind }),
    {
        match self {
            DynamicObject::Namespace(o) => &o.type_meta,
            DynamicObject::Proposal(o) => &o.type_meta,
            DynamicObject::GlobalProposal(o) => &o.type_meta,
            DynamicObject::DataDeclare(o) => &o.type_meta,
            DynamicObject::FunctionDeclare(o) => &o.type_meta,
            DynamicObject::Contract(o) => &o.type_meta,
            DynamicObject::Record(o) => &o.type_meta,
        }
    }

    /// The api version of the object's type.
    pub fn api_version(&self) -> (r: &'static str)
        ensures
            r@ == self.spec_kind().meta().api_version,
    {
        "core/v1"
    }

    /// The name of the object's type.
    pub fn kind(&self) -> (r: &'static str)
        ensures
            r@ == self.spec_kind().name(),
    {
        self.object_kind().kind_name()
    }

    /// Whether the object's type lies in a namespace.
    pub fn namespaced(&self) -> (r: bool)
        ensures
            r == self.spec_kind().is_namespaced(),
    {
        match self {
            DynamicObject::Namespace(_) => false,
            DynamicObject::GlobalProposal(_) => false,
            _ => true,
        }
    }

    /// The object's uid.
    pub fn uid(&self) -> (r: u64)
        ensures
            r == self@.uid,
    {
        match self {
            DynamicObject::Namespace(o) => o.metadata.uid,
            DynamicObject::Proposal(o) => o.metadata.uid,
            DynamicObject::GlobalProposal(o) => o.metadata.uid,
            DynamicObject::DataDeclare(o) => o.metadata.uid,
            DynamicObject::FunctionDeclare(o) => o.metadata.uid,
            DynamicObject::Contract(o) => o.metadata.uid,
            DynamicObject::Record(o) => o.metadata.uid,
        }
    }

    /// The object's name.
    pub fn name(&self) -> (r: &str)
        ensures
            r@ == self@.name,
    {
        match self {
            DynamicObject::Namespace(o) => o.metadata.name.as_str(),
            DynamicObject::Proposal(o) => o.metadata.name.as_str(),
            DynamicObject::GlobalProposal(o) => o.metadata.name.as_str(),
            DynamicObject::DataDeclare(o) => o.metadata.name.as_str(),
            DynamicObject::FunctionDeclare(o) => o.metadata.name.as_str(),
            DynamicObject::Contract(o) => o.metadata.name.as_str(),
            DynamicObject::Record(o) => o.metadata.name.as_str(),
        }
    }

    /// The object's version, where its type carries one.
    pub fn version(&self) -> (r: Option<&str>)
        ensures
            match r {
                Some(v) => self@.version == Some(v@),
                None => self@.version is None,
            },
    {
        match self {
            DynamicObject::Contract(o) => Some(o.metadata.version.as_str()),
            _ => None,
        }
    }

    /// The object's namespace, where its type lies in one.
    pub fn namespace(&self) -> (r: Option<&str>)
        ensures
            match r {
                Some(ns) => self@.namespace == Some(ns@),
                None => self@.namespace is None,
            },
    {
        match self {
            DynamicObject::Namespace(_) => None,
            DynamicObject::GlobalProposal(_) => None,
            DynamicObject::Proposal(o) => Some(o.metadata.namespace.as_str()),
            DynamicObject::DataDeclare(o) => Some(o.metadata.namespace.as_str()),
            DynamicObject::FunctionDeclare(o) => Some(o.metadata.namespace.as_str()),
            DynamicObject::Contract(o) => Some(o.metadata.namespace.as_str()),
            DynamicObject::Record(o) => Some(o.metadata.namespace.as_str()),
        }
    }

    /// The JSON form of the object.
    pub fn to_value(&self) -> (j: Json)
        ensures
            j@ == parts_tree(self@),
            self.wf() ==> j@.well_formed(),
    {
        match self {
            DynamicObject::Namespace(o) => o.to_value(),
            DynamicObject::Proposal(o) => o.to_value(),
            DynamicObject::GlobalProposal(o) => o.to_value(),
            DynamicObject::DataDeclare(o) => o.to_value(),
            DynamicObject::FunctionDeclare(o) => o.to_value(),
            DynamicObject::Contract(o) => o.to_value(),
            DynamicObject::Record(o) => o.to_value(),
        }
    }

    /// The object as JSON text.
    pub fn to_json(&self) -> (r: Result<Vec<u8>, String>)
        requires
            self.wf(),
        ensures
            r is Ok <==> written(parts_tree(self@)) is Some,
            r matches Ok(text) ==> written(parts_tree(self@)) == Some(text@) && json_decoded(text@) == Some(
                parts_tree(self@),
            ),
    {
        self.to_value().write()
    }

    /// Writes the object and reads it again: what comes back is the same
    /// object. The write is refused where the object cannot be written.
    pub fn reread(&self) -> (r: Result<DynamicObject, ChainModelError>)
        requires
            self.valid(),
        ensures
            r is Ok <==> written(parts_tree(self@)) is Some,
            r matches Ok(o) ==> o@ == self@ && o.valid(),
            r matches Err(e) ==> store_fault(e) == StoreFault::Json,
    {
        let text = match self.to_json() {
            Ok(t) => t,
            Err(msg) => { return Err(ChainModelError::JsonError(msg)); },
        };
        DynamicObject::parse(text.as_slice())
    }

    /// Reads an object of the given kind from its JSON form.
    pub fn parse_kind(kind: Kind, value: &Json) -> (r: Result<DynamicObject, DeserializeError>)
        ensures
            match r {
                Ok(o) => kind_parsed(kind, value@) == Ok::<PartsView, ParseFault>(o@) && o.spec_kind() == kind && (
                value@.well_formed() ==> o.valid()),
                Err(e) => kind_parsed(kind, value@) == Err::<PartsView, ParseFault>(fault_of(e)) && crate::objects::parts::says(
                    e,
                    kind,
                    value@,
                ),
            },
    {
        proof {
            lemma_parsed_is_canonical(kind, value@);
        }
        match kind {
            Kind::Namespace => match Namespace::parse_from_value(value) {
                Ok(o) => Ok(DynamicObject::Namespace(o)),
                Err(e) => Err(e),
            },
            Kind::Proposal => match Proposal::parse_from_value(value) {
                Ok(o) => Ok(DynamicObject::Proposal(o)),
                Err(e) => Err(e),
            },
            Kind::GlobalProposal => match GlobalProposal::parse_from_value(value) {
                Ok(o) => Ok(DynamicObject::GlobalProposal(o)),
                Err(e) => Err(e),
            },
            Kind::DataDeclare => match DataDeclare::parse_from_value(value) {
                Ok(o) => Ok(DynamicObject::DataDeclare(o)),
                Err(e) => Err(e),
            },
            Kind::FunctionDeclare => match FunctionDeclare::parse_from_value(value) {
                Ok(o) => Ok(DynamicObject::FunctionDeclare(o)),
                Err(e) => Err(e),
            },
            Kind::Contract => match Contract::parse_from_value(value) {
                Ok(o) => Ok(DynamicObject::Contract(o)),
                Err(e) => Err(e),
            },
            Kind::Record => match Record::parse_from_value(value) {
                Ok(o) => Ok(DynamicObject::Record(o)),
                Err(e) => Err(e),
            },
        }
    }

    /// Reads an object from a JSON text: the type tag says which kind it is
    /// to be, and it is read as one of that kind.
    pub fn parse(raw: &[u8]) -> (r: Result<DynamicObject, ChainModelError>)
        ensures
            match r {
                Ok(o) => text_parsed(raw@) == Ok::<PartsView, StoreFault>(o@) && o.valid(),
                Err(e) => text_parsed(raw@) == Err::<PartsView, StoreFault>(store_fault(e)),
            },
    {
        let value = match Json::parse(raw) {
            Ok(j) => j,
            Err(msg) => { return Err(ChainModelError::JsonError(msg)); },
        };
        let type_meta = match get_type_meta(&value) {
            Ok(m) => m,
            Err(e) => { return Err(ChainModelError::InvalidObject(e)); },
        };
        let kind = match Kind::lookup(&type_meta) {
            Some(k) => k,
            None => { return Err(ChainModelError::UnsupportedObject(type_meta.api_version, type_meta.kind)); },
        };
        match DynamicObject::parse_kind(kind, &value) {
            Ok(o) => Ok(o),
            Err(e) => Err(ChainModelError::DeserializeError(e)),
        }
    }
}

} // verus!
