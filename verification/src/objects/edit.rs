use vstd::prelude::*;
use crate::objects::dynamic::{kind_parsed, lemma_parsed_is_canonical, object_parsed, DynamicObject, StoreFault};
use crate::objects::kinds::{lemma_kind_of_meta, Kind};
use crate::objects::parts::{lemma_parts_roundtrip, parts_tree, ParseFault, PartsView};
use crate::objects::v1::declare::{declare_status_tree, implementations, lemma_declare_status};
use crate::objects::v1::proposal::{
    actions_of, lemma_proposal_spec, lemma_status, proposal_actions, status_of, ProposalAction, ProposalStatus,
    StatusView,
};
use crate::utils::textmap::{sorted_keys, TextMap};

verus! {

/// The parts with another uid.
pub open spec fn with_uid(p: PartsView, uid: u64) -> PartsView {
    PartsView { uid, ..p }
}

/// The parts of a declaration with other implementations.
pub open spec fn with_implementations(p: PartsView, impls: Seq<(Seq<char>, Seq<char>)>) -> PartsView {
    PartsView { status: Some(declare_status_tree(impls)), ..p }
}

/// The parts of a proposal with another state.
pub open spec fn with_status(p: PartsView, status: crate::objects::v1::proposal::StatusView) -> PartsView {
    PartsView { status: Some(crate::objects::v1::proposal::status_tree(status)), ..p }
}

/// An object that reads back as itself does so with any uid.
pub proof fn lemma_with_uid(kind: Kind, p: PartsView, uid: u64)
    requires
        kind_parsed(kind, parts_tree(p)) == Ok::<PartsView, ParseFault>(p),
    ensures
        kind_parsed(kind, parts_tree(with_uid(p, uid))) == Ok::<PartsView, ParseFault>(with_uid(p, uid)),
        object_parsed(parts_tree(with_uid(p, uid))) == Ok::<PartsView, StoreFault>(with_uid(p, uid)),
{
    let q = with_uid(p, uid);
    lemma_parsed_is_canonical(kind, parts_tree(p));
    lemma_parts_roundtrip(p);
    lemma_parts_roundtrip(q);
    lemma_kind_of_meta(kind);
}

/// A declaration that reads back as itself does so with any implementations that name nobody twice.
pub proof fn lemma_with_implementations(kind: Kind, p: PartsView, impls: Seq<(Seq<char>, Seq<char>)>)
    requires
        kind is DataDeclare || kind is FunctionDeclare,
        kind_parsed(kind, parts_tree(p)) == Ok::<PartsView, ParseFault>(p),
        sorted_keys(impls),
    ensures
        kind_parsed(kind, parts_tree(with_implementations(p, impls))) == Ok::<PartsView, ParseFault>(
            with_implementations(p, impls),
        ),
        object_parsed(parts_tree(with_implementations(p, impls))) == Ok::<PartsView, StoreFault>(
            with_implementations(p, impls),
        ),
        implementations(with_implementations(p, impls).status) == Some(impls),
{
    let q = with_implementations(p, impls);
    lemma_parsed_is_canonical(kind, parts_tree(p));
    lemma_parts_roundtrip(p);
    lemma_declare_status(impls);
    lemma_parts_roundtrip(q);
    lemma_kind_of_meta(kind);
}

/// A proposal that reads back as itself does so in any state that names nobody twice.
pub proof fn lemma_with_status(kind: Kind, p: PartsView, status: crate::objects::v1::proposal::StatusView)
    requires
        kind is Proposal || kind is GlobalProposal,
        kind_parsed(kind, parts_tree(p)) == Ok::<PartsView, ParseFault>(p),
        sorted_keys(status.permission),
    ensures
        kind_parsed(kind, parts_tree(with_status(p, status))) == Ok::<PartsView, ParseFault>(with_status(p, status)),
        object_parsed(parts_tree(with_status(p, status))) == Ok::<PartsView, StoreFault>(with_status(p, status)),
        crate::objects::v1::proposal::status_of(with_status(p, status).status) == Some(status),
{
    let q = with_status(p, status);
    lemma_parsed_is_canonical(kind, parts_tree(p));
    lemma_parts_roundtrip(p);
    crate::objects::v1::proposal::lemma_status(status);
    lemma_parts_roundtrip(q);
    lemma_kind_of_meta(kind);
}

impl DynamicObject {
    /// Gives the object another uid.
    pub fn set_uid(&mut self, uid: u64)
        ensures
            final(self)@ == with_uid(old(self)@, uid),
            final(self).spec_kind() == old(self).spec_kind(),
            old(self).wf() ==> final(self).wf(),
            old(self).valid() ==> final(self).valid(),
    {
        proof {
            if self.valid() {
                lemma_with_uid(self.spec_kind(), self@, uid);
            }
        }
        match self {
            DynamicObject::Namespace(o) => {
                o.metadata.uid = uid;
            },
            DynamicObject::Proposal(o) => {
                o.metadata.uid = uid;
            },
            DynamicObject::GlobalProposal(o) => {
                o.metadata.uid = uid;
            },
            DynamicObject::DataDeclare(o) => {
                o.metadata.uid = uid;
            },
            DynamicObject::FunctionDeclare(o) => {
                o.metadata.uid = uid;
            },
            DynamicObject::Contract(o) => {
                o.metadata.uid = uid;
            },
            DynamicObject::Record(o) => {
                o.metadata.uid = uid;
            },
        }
    }

    /// Gives a declaration other implementations; any other object is left as it is.
    pub fn set_implementations(&mut self, impls: TextMap)
        requires
            impls.wf(),
        ensures
            final(self).spec_kind() == old(self).spec_kind(),
            final(self)@ == if old(self).spec_kind() is DataDeclare || old(self).spec_kind() is FunctionDeclare {
                with_implementations(old(self)@, impls@)
            } else {
                old(self)@
            },
            old(self).wf() ==> final(self).wf(),
            old(self).valid() ==> final(self).valid(),
    {
        proof {
            if self.valid() && (self.spec_kind() is DataDeclare || self.spec_kind() is FunctionDeclare) {
                lemma_with_implementations(self.spec_kind(), self@, impls@);
            }
        }
        match self {
            DynamicObject::DataDeclare(o) => {
                o.status.implementation = impls;
            },
            DynamicObject::FunctionDeclare(o) => {
                o.status.implementation = impls;
            },
            _ => {},
        }
    }

    /// A copy of the implementations of a declaration; none for any other object.
    pub fn implementations(&self) -> (r: TextMap)
        requires
            self.wf(),
        ensures
            r.wf(),
            self.spec_kind() is DataDeclare || self.spec_kind() is FunctionDeclare ==> implementations(self@.status)
                == Some(r@),
    {
        match self {
            DynamicObject::DataDeclare(o) => {
                proof {
                    lemma_declare_status(o.status.implementation@);
                }
                o.status.implementation.copy()
            },
            DynamicObject::FunctionDeclare(o) => {
                proof {
                    lemma_declare_status(o.status.implementation@);
                }
                o.status.implementation.copy()
            },
            _ => TextMap::new(),
        }
    }
}

/// The parts of a proposal with another creator.
pub open spec fn with_creator(p: PartsView, creator: Seq<char>) -> PartsView {
    PartsView { creator: Some(creator), ..p }
}

/// The parts of a proposal in another namespace.
pub open spec fn with_namespace(p: PartsView, namespace: Seq<char>) -> PartsView {
    PartsView { namespace: Some(namespace), ..p }
}

/// A proposal that reads back as itself does so with any creator.
pub proof fn lemma_with_creator(kind: Kind, p: PartsView, creator: Seq<char>)
    requires
        kind is Proposal || kind is GlobalProposal,
        kind_parsed(kind, parts_tree(p)) == Ok::<PartsView, ParseFault>(p),
    ensures
        kind_parsed(kind, parts_tree(with_creator(p, creator))) == Ok::<PartsView, ParseFault>(with_creator(p, creator)),
        object_parsed(parts_tree(with_creator(p, creator))) == Ok::<PartsView, StoreFault>(with_creator(p, creator)),
{
    let q = with_creator(p, creator);
    lemma_parsed_is_canonical(kind, parts_tree(p));
    lemma_parts_roundtrip(p);
    lemma_parts_roundtrip(q);
    lemma_kind_of_meta(kind);
}

/// A proposal in a namespace that reads back as itself does so in any namespace.
pub proof fn lemma_with_namespace(p: PartsView, namespace: Seq<char>)
    requires
        kind_parsed(Kind::Proposal, parts_tree(p)) == Ok::<PartsView, ParseFault>(p),
    ensures
        kind_parsed(Kind::Proposal, parts_tree(with_namespace(p, namespace))) == Ok::<PartsView, ParseFault>(
            with_namespace(p, namespace),
        ),
        object_parsed(parts_tree(with_namespace(p, namespace))) == Ok::<PartsView, StoreFault>(
            with_namespace(p, namespace),
        ),
{
    let q = with_namespace(p, namespace);
    lemma_parsed_is_canonical(Kind::Proposal, parts_tree(p));
    lemma_parts_roundtrip(p);
    lemma_parts_roundtrip(q);
    lemma_kind_of_meta(Kind::Proposal);
}

impl DynamicObject {
    /// The object is a proposal, in a namespace or global.
    pub open spec fn is_proposal(&self) -> bool {
        self.spec_kind() is Proposal || self.spec_kind() is GlobalProposal
    }

    /// The actions of a proposal, as the object holds them.
    pub open spec fn held_actions(&self) -> Seq<ProposalAction> {
        match self {
            DynamicObject::Proposal(o) => o.spec.actions@,
            DynamicObject::GlobalProposal(o) => o.spec.actions@,
            _ => Seq::empty(),
        }
    }

    /// The state of a proposal, as the object holds it.
    pub open spec fn held_status(&self) -> StatusView {
        match self {
            DynamicObject::Proposal(o) => o.status@,
            DynamicObject::GlobalProposal(o) => o.status@,
            _ => StatusView::missing(),
        }
    }

    /// What a proposal holds is what its JSON form names.
    pub proof fn lemma_proposal_view(&self)
        requires
            self.is_proposal(),
        ensures
            proposal_actions(self@.spec) == Some(actions_of(self.held_actions())),
            sorted_keys(self.held_status().permission) ==> status_of(self@.status) == Some(self.held_status()),
            self@.creator is Some,
    {
        lemma_proposal_spec(actions_of(self.held_actions()));
        if sorted_keys(self.held_status().permission) {
            lemma_status(self.held_status());
        }
    }

    /// The actions of a proposal.
    pub fn actions(&self) -> (r: &Vec<ProposalAction>)
        requires
            self.is_proposal(),
        ensures
            r@ == self.held_actions(),
    {
        match self {
            DynamicObject::Proposal(o) => &o.spec.actions,
            DynamicObject::GlobalProposal(o) => &o.spec.actions,
            _ => vstd::pervasive::unreached(),
        }
    }

    /// The state of a proposal.
    pub fn status(&self) -> (r: &ProposalStatus)
        requires
            self.is_proposal(),
        ensures
            r@ == self.held_status(),
    {
        match self {
            DynamicObject::Proposal(o) => &o.status,
            DynamicObject::GlobalProposal(o) => &o.status,
            _ => vstd::pervasive::unreached(),
        }
    }

    /// The organization that made a proposal.
    pub fn creator(&self) -> (r: &str)
        requires
            self.is_proposal(),
        ensures
            self@.creator == Some(r@),
    {
        match self {
            DynamicObject::Proposal(o) => o.metadata.creator.as_str(),
            DynamicObject::GlobalProposal(o) => o.metadata.creator.as_str(),
            _ => vstd::pervasive::unreached(),
        }
    }

    /// Gives a proposal another state.
    pub fn set_status(&mut self, status: ProposalStatus)
        requires
            old(self).is_proposal(),
            sorted_keys(status@.permission),
        ensures
            final(self).spec_kind() == old(self).spec_kind(),
            final(self)@ == with_status(old(self)@, status@),
            final(self).held_actions() == old(self).held_actions(),
            final(self).held_status() == status@,
            old(self).wf() && status@.well_formed() ==> final(self).wf(),
            old(self).valid() && status@.well_formed() ==> final(self).valid(),
    {
        proof {
            if self.valid() {
                lemma_with_status(self.spec_kind(), self@, status@);
            }
        }
        match self {
            DynamicObject::Proposal(o) => {
                o.status = status;
            },
            DynamicObject::GlobalProposal(o) => {
                o.status = status;
            },
            _ => {},
        }
    }

    /// Names the organization that made a proposal.
    pub fn set_creator(&mut self, creator: String)
        requires
            old(self).is_proposal(),
        ensures
            final(self).spec_kind() == old(self).spec_kind(),
            final(self)@ == with_creator(old(self)@, creator@),
            final(self).held_actions() == old(self).held_actions(),
            final(self).held_status() == old(self).held_status(),
            old(self).wf() ==> final(self).wf(),
            old(self).valid() ==> final(self).valid(),
    {
        proof {
            if self.valid() {
                lemma_with_creator(self.spec_kind(), self@, creator@);
            }
        }
        match self {
            DynamicObject::Proposal(o) => {
                o.metadata.creator = creator;
            },
            DynamicObject::GlobalProposal(o) => {
                o.metadata.creator = creator;
            },
            _ => {},
        }
    }

    /// Puts a proposal into a namespace; a global proposal is left as it is.
    pub fn set_namespace(&mut self, namespace: String)
        requires
            old(self).is_proposal(),
        ensures
            final(self).spec_kind() == old(self).spec_kind(),
            final(self)@ == if old(self).spec_kind() is Proposal {
                with_namespace(old(self)@, namespace@)
            } else {
                old(self)@
            },
            final(self).held_actions() == old(self).held_actions(),
            final(self).held_status() == old(self).held_status(),
            old(self).wf() ==> final(self).wf(),
            old(self).valid() ==> final(self).valid(),
    {
        proof {
            if self.valid() && self.spec_kind() is Proposal {
                lemma_with_namespace(self@, namespace@);
            }
        }
        match self {
            DynamicObject::Proposal(o) => {
                o.metadata.namespace = namespace;
            },
            _ => {},
        }
    }
}

} // verus!
