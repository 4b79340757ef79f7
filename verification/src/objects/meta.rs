use vstd::prelude::*;
use vstd::string::*;
use crate::json::Json;
use crate::text::copy_str;

verus! {

/// The api group and version of a resource type, and the type's name.
#[derive(Debug)]
pub struct TypeMeta {
    pub api_version: String,
    pub kind: String,
}

/// A `TypeMeta` as mathematical values.
pub struct TypeMetaView {
    pub api_version: Seq<char>,
    pub kind: Seq<char>,
}

impl View for TypeMeta {
    type V = TypeMetaView;

    open spec fn view(&self) -> TypeMetaView {
        TypeMetaView { api_version: self.api_version@, kind: self.kind@ }
    }
}

impl TypeMeta {
    /// The type tag of the given api version and kind.
    pub fn of(api_version: &str, kind: &str) -> (m: TypeMeta)
        ensures
            m@ == (TypeMetaView { api_version: api_version@, kind: kind@ }),
    {
        TypeMeta { api_version: copy_str(api_version), kind: copy_str(kind) }
    }

    /// Whether two type tags are the same.
    pub fn same(&self, other: &TypeMeta) -> (r: bool)
        ensures
            r == (self@ == other@),
    {
        self.api_version == other.api_version && self.kind == other.kind
    }

    /// A copy of the type tag.
    pub fn copy(&self) -> (r: TypeMeta)
        ensures
            r@ == self@,
    {
        TypeMeta { api_version: self.api_version.clone(), kind: self.kind.clone() }
    }

    /// The tag as text: the api version and the kind in brackets.
    pub fn to_text(&self) -> (r: String)
        ensures
            r@ == "("@ + self.api_version@ + ", "@ + self.kind@ + ")"@,
    {
        let mut r = String::from_str("(");
        r.append(self.api_version.as_str());
        r.append(", ");
        r.append(self.kind.as_str());
        r.append(")");
        r
    }
}

/// The metadata of an object that may or may not lie in a namespace.
#[derive(Debug)]
pub struct Metadata {
    pub name: String,
    pub namespace: Option<String>,
    pub uid: u64,
    /// What is noted on the object: a map, or nothing.
    pub annotations: Option<Json>,
}

/// The metadata of an object that lies in a namespace.
#[derive(Debug)]
pub struct NamespacedMetadata {
    pub name: String,
    pub namespace: String,
    pub uid: u64,
    /// What is noted on the object: a map, or nothing.
    pub annotations: Option<Json>,
}

/// The metadata of a proposal in a namespace.
#[derive(Debug)]
pub struct ProposalMetadata {
    pub name: String,
    pub namespace: String,
    pub uid: u64,
    /// The organization that made the proposal.
    pub creator: String,
}

/// The metadata of a global proposal.
#[derive(Debug)]
pub struct GlobalProposalMetadata {
    pub name: String,
    pub uid: u64,
    /// The organization that made the proposal.
    pub creator: String,
}

} // verus!
