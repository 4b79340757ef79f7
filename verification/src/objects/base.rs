use vstd::prelude::*;
use crate::objects::controller::Controller;
use crate::objects::edit::with_uid;
use crate::objects::kinds::Kind;
use crate::objects::meta::{TypeMeta, TypeMetaView};
use crate::objects::parts::PartsView;
use crate::objects::v1::contracts::Contract;
use crate::objects::v1::declare::{DataDeclare, FunctionDeclare};
use crate::objects::v1::global_proposal::GlobalProposal;
use crate::objects::v1::namespace::Namespace;
use crate::objects::v1::proposal::Proposal;
use crate::objects::v1::record::Record;

verus! {

/// What every object of the contract tells of itself.
pub trait BaseObject: View<V = PartsView> {
    /// The type tag that the object carries.
    fn type_meta(&self) -> (m: &TypeMeta)
        ensures
            m@ == (TypeMetaView { api_version: self@.api_version, kind: self@.kind }),
    ;

    /// The object's uid.
    fn uid(&self) -> (r: u64)
        ensures
            r == self@.uid,
    ;

    /// The object's uid, to be set.
    fn uid_mut(&mut self) -> (r: &mut u64)
        ensures
            *r == old(self)@.uid,
            final(self)@ == with_uid(old(self)@, *final(r)),
    ;

    /// The object's name.
    fn name(&self) -> (r: &str)
        ensures
            r@ == self@.name,
    ;

    /// The object's version, where its type carries one.
    fn version(&self) -> (r: Option<&str>)
        ensures
            crate::model::opt_str(r) == self@.version,
    ;

    /// The object's namespace, where its type lies in one.
    fn namespace(&self) -> (r: Option<&str>)
        ensures
            crate::model::opt_str(r) == self@.namespace,
    ;
}

impl BaseObject for Namespace {
    fn type_meta(&self) -> (m: &TypeMeta) {
        &self.type_meta
    }

    fn uid(&self) -> (r: u64) {
        self.metadata.uid
    }

    fn uid_mut(&mut self) -> (r: &mut u64) {
        &mut self.metadata.uid
    }

    fn name(&self) -> (r: &str) {
        self.metadata.name.as_str()
    }

    fn version(&self) -> (r: Option<&str>) {
        None
    }

    fn namespace(&self) -> (r: Option<&str>) {
        None
    }
}

impl BaseObject for Proposal {
    fn type_meta(&self) -> (m: &TypeMeta) {
        &self.type_meta
    }

    fn uid(&self) -> (r: u64) {
        self.metadata.uid
    }

    fn uid_mut(&mut self) -> (r: &mut u64) {
        &mut self.metadata.uid
    }

    fn name(&self) -> (r: &str) {
        self.metadata.name.as_str()
    }

    fn version(&self) -> (r: Option<&str>) {
        None
    }

    fn namespace(&self) -> (r: Option<&str>) {
        Some(self.metadata.namespace.as_str())
    }
}

impl BaseObject for GlobalProposal {
    fn type_meta(&self) -> (m: &TypeMeta) {
        &self.type_meta
    }

    fn uid(&self) -> (r: u64) {
        self.metadata.uid
    }

    fn uid_mut(&mut self) -> (r: &mut u64) {
        &mut self.metadata.uid
    }

    fn name(&self) -> (r: &str) {
        self.metadata.name.as_str()
    }

    fn version(&self) -> (r: Option<&str>) {
        None
    }

    fn namespace(&self) -> (r: Option<&str>) {
        None
    }
}

impl BaseObject for DataDeclare {
    fn type_meta(&self) -> (m: &TypeMeta) {
        &self.type_meta
    }

    fn uid(&self) -> (r: u64) {
        self.metadata.uid
    }

    fn uid_mut(&mut self) -> (r: &mut u64) {
        &mut self.metadata.uid
    }

    fn name(&self) -> (r: &str) {
        self.metadata.name.as_str()
    }

    fn version(&self) -> (r: Option<&str>) {
        None
    }

    fn namespace(&self) -> (r: Option<&str>) {
        Some(self.metadata.namespace.as_str())
    }
}

impl BaseObject for FunctionDeclare {
    fn type_meta(&self) -> (m: &TypeMeta) {
        &self.type_meta
    }

    fn uid(&self) -> (r: u64) {
        self.metadata.uid
    }

    fn uid_mut(&mut self) -> (r: &mut u64) {
        &mut self.metadata.uid
    }

    fn name(&self) -> (r: &str) {
        self.metadata.name.as_str()
    }

    fn version(&self) -> (r: Option<&str>) {
        None
    }

    fn namespace(&self) -> (r: Option<&str>) {
        Some(self.metadata.namespace.as_str())
    }
}

impl BaseObject for Contract {
    fn type_meta(&self) -> (m: &TypeMeta) {
        &self.type_meta
    }

    fn uid(&self) -> (r: u64) {
        self.metadata.uid
    }

    fn uid_mut(&mut self) -> (r: &mut u64) {
        &mut self.metadata.uid
    }

    fn name(&self) -> (r: &str) {
        self.metadata.name.as_str()
    }

    fn version(&self) -> (r: Option<&str>) {
        Some(self.metadata.version.as_str())
    }

    fn namespace(&self) -> (r: Option<&str>) {
        Some(self.metadata.namespace.as_str())
    }
}

impl BaseObject for Record {
    fn type_meta(&self) -> (m: &TypeMeta) {
        &self.type_meta
    }

    fn uid(&self) -> (r: u64) {
        self.metadata.uid
    }

    fn uid_mut(&mut self) -> (r: &mut u64) {
        &mut self.metadata.uid
    }

    fn name(&self) -> (r: &str) {
        self.metadata.name.as_str()
    }

    fn version(&self) -> (r: Option<&str>) {
        None
    }

    fn namespace(&self) -> (r: Option<&str>) {
        Some(self.metadata.namespace.as_str())
    }
}

impl Namespace {
    /// The handlers of namespaces: they are made and deleted, not updated.
    pub fn controller() -> (c: Controller)
        ensures
            c == Kind::Namespace.handlers(),
    {
        Kind::Namespace.controller()
    }
}

impl Proposal {
    /// The handlers of proposals: none, they go through the workflow.
    pub fn controller() -> (c: Controller)
        ensures
            c == Kind::Proposal.handlers(),
    {
        Kind::Proposal.controller()
    }
}

impl GlobalProposal {
    /// The handlers of global proposals: none, they go through the workflow.
    pub fn controller() -> (c: Controller)
        ensures
            c == Kind::GlobalProposal.handlers(),
    {
        Kind::GlobalProposal.controller()
    }
}

impl DataDeclare {
    /// The handlers of data declarations: they are made, updated and deleted.
    pub fn controller() -> (c: Controller)
        ensures
            c == Kind::DataDeclare.handlers(),
    {
        Kind::DataDeclare.controller()
    }
}

impl FunctionDeclare {
    /// The handlers of function declarations: they are made, updated and deleted.
    pub fn controller() -> (c: Controller)
        ensures
            c == Kind::FunctionDeclare.handlers(),
    {
        Kind::FunctionDeclare.controller()
    }
}

impl Contract {
    /// The handlers of contracts: they are made and deleted, not updated.
    pub fn controller() -> (c: Controller)
        ensures
            c == Kind::Contract.handlers(),
    {
        Kind::Contract.controller()
    }
}

impl Record {
    /// The handlers of records: they are made, updated and deleted.
    pub fn controller() -> (c: Controller)
        ensures
            c == Kind::Record.handlers(),
    {
        Kind::Record.controller()
    }
}

} // verus!
