use vstd::prelude::*;
use vstd::string::*;
use crate::errors::InvalidObjectError;
use crate::json::{Json, JsonView};
use crate::objects::meta::{TypeMeta, TypeMetaView};
use crate::text::same_text;

verus! {

/// The resource types that the contract knows, in the order in which they are registered.
#[derive(Clone, Copy, Debug, PartialEq, Eq, Structural)]
pub enum Kind {
    Namespace,
    Proposal,
    GlobalProposal,
    DataDeclare,
    FunctionDeclare,
    Contract,
    Record,
}

/// The api version of every resource type of the contract.
pub open spec fn core_api_version() -> Seq<char> {
    "core/v1"@
}

/// The name of no kind holds the delimiter of the keys.
pub proof fn lemma_kind_names_plain(kind: Kind)
    ensures
        crate::codec::no_delimiter(kind.name()),
{
    reveal_strlit("namespace");
    reveal_strlit("proposal");
    reveal_strlit("globalproposal");
    reveal_strlit("datadeclare");
    reveal_strlit("functiondeclare");
    reveal_strlit("contract");
    reveal_strlit("record");
}

impl Kind {
    /// The name of the kind, as objects carry it.
    pub open spec fn name(self) -> Seq<char> {
        match self {
            Kind::Namespace => "namespace"@,
            Kind::Proposal => "proposal"@,
            Kind::GlobalProposal => "globalproposal"@,
            Kind::DataDeclare => "datadeclare"@,
            Kind::FunctionDeclare => "functiondeclare"@,
            Kind::Contract => "contract"@,
            Kind::Record => "record"@,
        }
    }

    /// The type tag of the kind.
    pub open spec fn meta(self) -> TypeMetaView {
        TypeMetaView { api_version: core_api_version(), kind: self.name() }
    }

    /// Whether objects of the kind lie in a namespace.
    pub open spec fn is_namespaced(self) -> bool {
        !(self is Namespace || self is GlobalProposal)
    }

    /// Whether objects of the kind carry a version.
    pub open spec fn is_versioned(self) -> bool {
        self is Contract
    }

    /// The kind at a place of the registration order.
    pub open spec fn at(i: int) -> Kind {
        if i == 0 {
            Kind::Namespace
        } else if i == 1 {
            Kind::Proposal
        } else if i == 2 {
            Kind::GlobalProposal
        } else if i == 3 {
            Kind::DataDeclare
        } else if i == 4 {
            Kind::FunctionDeclare
        } else if i == 5 {
            Kind::Contract
        } else {
            Kind::Record
        }
    }

    /// The kind that a type tag names, if the contract knows it.
    pub open spec fn of(meta: TypeMetaView) -> Option<Kind> {
        if meta.api_version != core_api_version() {
            None
        } else if meta.kind == Kind::Namespace.name() {
            Some(Kind::Namespace)
        } else if meta.kind == Kind::Proposal.name() {
            Some(Kind::Proposal)
        } else if meta.kind == Kind::GlobalProposal.name() {
            Some(Kind::GlobalProposal)
        } else if meta.kind == Kind::DataDeclare.name() {
            Some(Kind::DataDeclare)
        } else if meta.kind == Kind::FunctionDeclare.name() {
            Some(Kind::FunctionDeclare)
        } else if meta.kind == Kind::Contract.name() {
            Some(Kind::Contract)
        } else if meta.kind == Kind::Record.name() {
            Some(Kind::Record)
        } else {
            None
        }
    }

    /// The name of the kind.
    pub fn kind_name(self) -> (r: &'static str)
        ensures
            r@ == self.name(),
    {
        match self {
            Kind::Namespace => "namespace",
            Kind::Proposal => "proposal",
            Kind::GlobalProposal => "globalproposal",
            Kind::DataDeclare => "datadeclare",
            Kind::FunctionDeclare => "functiondeclare",
            Kind::Contract => "contract",
            Kind::Record => "record",
        }
    }

    /// The type tag of the kind.
    pub fn type_meta(self) -> (m: TypeMeta)
        ensures
            m@ == self.meta(),
    {
        TypeMeta::of("core/v1", self.kind_name())
    }

    /// Every kind, in the order of registration.
    pub fn all() -> (kinds: Vec<Kind>)
        ensures
            kinds@.len() == 7,
            forall|i: int| 0 <= i < 7 ==> kinds@[i] == Kind::at(i),
    {
        let mut kinds: Vec<Kind> = Vec::new();
        kinds.push(Kind::Namespace);
        kinds.push(Kind::Proposal);
        kinds.push(Kind::GlobalProposal);
        kinds.push(Kind::DataDeclare);
        kinds.push(Kind::FunctionDeclare);
        kinds.push(Kind::Contract);
        kinds.push(Kind::Record);
        kinds
    }

    /// The kind that a type tag names, if the contract knows it.
    pub fn lookup(meta: &TypeMeta) -> (r: Option<Kind>)
        ensures
            r == Kind::of(meta@),
    {
        if !same_text(meta.api_version.as_str(), "core/v1") {
            return None;
        }
        let kind = meta.kind.as_str();
        if same_text(kind, "namespace") {
            Some(Kind::Namespace)
        } else if same_text(kind, "proposal") {
            Some(Kind::Proposal)
        } else if same_text(kind, "globalproposal") {
            Some(Kind::GlobalProposal)
        } else if same_text(kind, "datadeclare") {
            Some(Kind::DataDeclare)
        } else if same_text(kind, "functiondeclare") {
            Some(Kind::FunctionDeclare)
        } else if same_text(kind, "contract") {
            Some(Kind::Contract)
        } else if same_text(kind, "record") {
            Some(Kind::Record)
        } else {
            None
        }
    }
}

/// The names of the kinds differ from one another, so a kind is found again by its type tag.
pub proof fn lemma_kind_of_meta(kind: Kind)
    ensures
        Kind::of(kind.meta()) == Some(kind),
{
    reveal_strlit("namespace");
    reveal_strlit("proposal");
    reveal_strlit("globalproposal");
    reveal_strlit("datadeclare");
    reveal_strlit("functiondeclare");
    reveal_strlit("contract");
    reveal_strlit("record");
    assert("namespace"@.len() == 9);
    assert("proposal"@.len() == 8);
    assert("globalproposal"@.len() == 14);
    assert("datadeclare"@.len() == 11);
    assert("functiondeclare"@.len() == 15);
    assert("contract"@.len() == 8);
    assert("record"@.len() == 6);
    assert("proposal"@[0] == 'p');
    assert("contract"@[0] == 'c');
}

/// Whether objects of a type lie in a namespace; false for a type that the contract does not know.
pub fn namespaced(ty: &TypeMeta) -> (r: bool)
    ensures
        r == (Kind::of(ty@) matches Some(k) && k.is_namespaced()),
{
    match Kind::lookup(ty) {
        Some(Kind::Namespace) => false,
        Some(Kind::GlobalProposal) => false,
        Some(_) => true,
        None => false,
    }
}

/// Whether objects of a type carry a version; false for a type that the contract does not know.
pub fn versioned(ty: &TypeMeta) -> (r: bool)
    ensures
        r == (Kind::of(ty@) matches Some(k) && k.is_versioned()),
{
    match Kind::lookup(ty) {
        Some(Kind::Contract) => true,
        _ => false,
    }
}

/// The type tag that a JSON object carries: `Ok` where `apiVersion` and `kind` are both strings.
pub open spec fn type_meta_of(value: JsonView) -> Option<TypeMetaView> {
    match (value.text_at("apiVersion"@), value.text_at("kind"@)) {
        (Some(api_version), Some(kind)) => Some(TypeMetaView { api_version, kind }),
        _ => None,
    }
}

/// The namespace that a JSON object names in its metadata: `None` where the
/// object has no metadata, else the string under `namespace`, if there is one.
pub open spec fn namespace_of(value: JsonView) -> Option<Option<Seq<char>>> {
    match value.field("metadata"@) {
        Some(metadata) => Some(metadata.text_at("namespace"@)),
        None => None,
    }
}

/// Reads the namespace that a JSON object names in its metadata.
pub fn get_namespace(value: &Json) -> (r: Result<Option<String>, InvalidObjectError>)
    ensures
        match r {
            Ok(Some(ns)) => namespace_of(value@) == Some(Some(ns@)),
            Ok(None) => namespace_of(value@) == Some(None::<Seq<char>>),
            Err(_) => namespace_of(value@) is None,
        },
{
    match value.get("metadata") {
        Some(metadata) => Ok(metadata.get_text("namespace")),
        None => Err(InvalidObjectError::new(String::from_str("missing metadata"))),
    }
}

/// Reads the type tag that a JSON object carries.
pub fn get_type_meta(value: &Json) -> (r: Result<TypeMeta, InvalidObjectError>)
    ensures
        match r {
            Ok(meta) => type_meta_of(value@) == Some(meta@),
            Err(_) => type_meta_of(value@) is None,
        },
{
    let api_version = match value.get("apiVersion") {
        Some(v) => match v.as_str() {
            Some(s) => crate::text::copy_str(s),
            None => { return Err(InvalidObjectError::new(String::from_str("apiVersion must be string"))); },
        },
        None => { return Err(InvalidObjectError::new(String::from_str("missing apiVersion"))); },
    };
    let kind = match value.get("kind") {
        Some(v) => match v.as_str() {
            Some(s) => crate::text::copy_str(s),
            None => { return Err(InvalidObjectError::new(String::from_str("kind must be string"))); },
        },
        None => { return Err(InvalidObjectError::new(String::from_str("missing kind"))); },
    };
    Ok(TypeMeta { api_version, kind })
}

} // verus!
