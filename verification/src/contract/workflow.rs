use vstd::prelude::*;
use vstd::string::*;
use crate::codec::index_key_of;
use crate::context::Row;
use crate::errors::{ActionFnError, ChainModelError, ContractError, InvalidObjectError, ProposalError};
use crate::json::{json_decoded, json_encoded, written, Json};
use crate::model::{json_array, lemma_joined_push, named_text, or_empty, put_result, stored, ChainModel};
use crate::objects::controller::{action_fault, controller, held, read_held, ActionFault, Controller};
use crate::objects::dynamic::{kind_parsed, store_fault, text_parsed, DynamicObject, StoreFault};
use crate::objects::edit::{with_creator, with_namespace, with_status, with_uid};
use crate::objects::kinds::{get_namespace, get_type_meta, namespace_of, namespaced, type_meta_of, Kind};
use crate::objects::meta::{TypeMeta, TypeMetaView};
use crate::objects::parts::{fault_of, parts_tree, ParseFault, PartsView};
use crate::objects::v1::proposal::{
    actions_of, actions_well_formed, creator_of, lemma_outcome, outcome_tree, outcomes_of, proposal_actions,
    status_of, ActionView, ObjectByAction, OutcomeView, ProposalAction, ProposalStage, ProposalStatus,
    StatusView,
};
use crate::text::same_text;
use crate::utils::textmap::{with_pair, without_key, TextMap};

verus! {

/// Why a request to the contract is refused.
pub enum Fault {
    /// An object does not read as one of its type.
    Parse(ParseFault),
    /// A JSON object names no type, or has no metadata.
    InvalidObject,
    /// The store refused a request.
    Store(StoreFault),
    /// A handler of an action refused.
    Action(ActionFault),
    /// An argument of the call is missing or malformed.
    Argument,
    /// What was read is no proposal; what it is.
    NotProposal(Seq<char>),
    /// A proposal of that name exists.
    Conflict,
    /// A proposal must have an action.
    NoAction,
    /// A global proposal acts on global objects only.
    ObjectNotGlobal,
    /// A proposal in a namespace acts on objects in namespaces only; the type that lies in none.
    ObjectNotNamespaced(Seq<char>),
    /// A proposal in a namespace acts on objects of that namespace only:
    /// the namespace found, and the namespace asked for.
    ObjectNamespaceMismatch(Seq<char>, Seq<char>),
    /// The uid holds no object.
    ObjectNotFound(u64),
    /// The index holds no object of the name.
    ObjectNotFoundByName(Seq<char>),
    /// An update keeps the type of the object.
    UpdateType,
    /// No handlers are registered for the type.
    ControllerNotFound(Seq<char>),
    /// The proposal is no longer active; its uid.
    InActive(u64),
    /// Only the creator of a proposal commits it.
    CommitForbidden,
    /// Only the creator of a proposal revokes it.
    RevokeForbidden,
}

/// The fault that an error of the workflow reports.
pub open spec fn proposal_fault(e: ProposalError) -> Fault {
    match e {
        ProposalError::NotProposal(what) => Fault::NotProposal(what@),
        ProposalError::Conlict => Fault::Conflict,
        ProposalError::NoAction => Fault::NoAction,
        ProposalError::ObjectNotGlobal => Fault::ObjectNotGlobal,
        ProposalError::ObjectNotNamespaced(ty) => Fault::ObjectNotNamespaced(ty@),
        ProposalError::ObjectNamespaceMismatch(found, wanted) => Fault::ObjectNamespaceMismatch(found@, wanted@),
        ProposalError::ObjectNotFound(uid) => Fault::ObjectNotFound(uid),
        ProposalError::ObjectNotFoundByName(name) => Fault::ObjectNotFoundByName(name@),
        ProposalError::UpdateType => Fault::UpdateType,
        ProposalError::ControllerNotFound(ty) => Fault::ControllerNotFound(ty@),
        ProposalError::InActive(uid) => Fault::InActive(uid),
        ProposalError::CommitForbidden => Fault::CommitForbidden,
        ProposalError::RevokeForbidden => Fault::RevokeForbidden,
        ProposalError::ActionFn(a) => Fault::Action(action_fault(a)),
    }
}

/// The fault that an error of a request reports.
pub open spec fn fault(e: ContractError) -> Fault {
    match e {
        ContractError::Context(_) => Fault::Argument,
        ContractError::Deserialize(d) => Fault::Parse(fault_of(d)),
        ContractError::InvalidObject(_) => Fault::InvalidObject,
        ContractError::ChainModel(c) => Fault::Store(store_fault(c)),
        ContractError::ActionFn(a) => Fault::Action(action_fault(a)),
        ContractError::Proposal(p) => proposal_fault(p),
        ContractError::Json(_) => Fault::Store(StoreFault::Json),
    }
}

/// What a check says: nothing, or the fault.
pub open spec fn outcome(r: Result<(), ContractError>) -> Result<(), Fault> {
    match r {
        Ok(()) => Ok(()),
        Err(e) => Err(fault(e)),
    }
}

/// The object under a uid: `None` where the uid holds nothing, a fault where what it holds does not read.
pub open spec fn object_at(rows: Seq<Row>, uid: u64) -> Result<Option<PartsView>, StoreFault> {
    if stored(rows, uid).len() == 0 {
        Ok(None)
    } else {
        match text_parsed(stored(rows, uid)) {
            Ok(p) => Ok(Some(p)),
            Err(fault) => Err(fault),
        }
    }
}

/// A type tag as text: the api version and the kind in brackets.
pub open spec fn meta_text(meta: TypeMetaView) -> Seq<char> {
    "("@ + meta.api_version + ", "@ + meta.kind + ")"@
}

/// The type tag of an object that the store holds.
pub open spec fn meta_of(p: PartsView) -> TypeMetaView {
    TypeMetaView { api_version: p.api_version, kind: p.kind }
}

/// Whether a type lies in a namespace; false for a type that the contract does not know.
pub open spec fn in_namespace(meta: TypeMetaView) -> bool {
    Kind::of(meta) matches Some(k) && k.is_namespaced()
}

/// The type that an action of a proposal in a namespace acts on. What is
/// made must be of a type that lies in a namespace and must name the
/// namespace of the proposal; what is updated or deleted must lie there.
pub open spec fn scoped_type(rows: Seq<Row>, namespace: Seq<char>, a: ActionView) -> Result<TypeMetaView, Fault> {
    match a {
        ActionView::Create { object } => match type_meta_of(object) {
            Some(meta) => if !in_namespace(meta) {
                Err(Fault::ObjectNotNamespaced(meta_text(meta)))
            } else {
                match namespace_of(object) {
                    Some(Some(ns)) => if ns != namespace {
                        Err(Fault::ObjectNamespaceMismatch(ns, namespace))
                    } else {
                        Ok(meta)
                    },
                    Some(None) => Err(Fault::ObjectNamespaceMismatch(""@, namespace)),
                    None => Err(Fault::InvalidObject),
                }
            },
            None => Err(Fault::InvalidObject),
        },
        ActionView::Update { uid, object } => scoped_target(rows, namespace, uid),
        ActionView::Delete { uid } => scoped_target(rows, namespace, uid),
    }
}

/// The type of the object under a uid, which must lie in the given namespace.
pub open spec fn scoped_target(rows: Seq<Row>, namespace: Seq<char>, uid: u64) -> Result<TypeMetaView, Fault> {
    match object_at(rows, uid) {
        Ok(Some(p)) => match p.namespace {
            Some(ns) => if ns != namespace {
                Err(Fault::ObjectNamespaceMismatch(ns, namespace))
            } else {
                Ok(meta_of(p))
            },
            None => Err(Fault::ObjectNamespaceMismatch(""@, namespace)),
        },
        Ok(None) => Err(Fault::ObjectNotFound(uid)),
        Err(fault) => Err(Fault::Store(fault)),
    }
}

/// The type that an action of a global proposal acts on: a type that lies
/// in no namespace. An update keeps the type.
pub open spec fn global_type(rows: Seq<Row>, a: ActionView) -> Result<TypeMetaView, Fault> {
    match a {
        ActionView::Create { object } => match type_meta_of(object) {
            Some(meta) => if in_namespace(meta) {
                Err(Fault::ObjectNotGlobal)
            } else {
                Ok(meta)
            },
            None => Err(Fault::InvalidObject),
        },
        ActionView::Update { uid, object } => match type_meta_of(object) {
            Some(meta) => match object_at(rows, uid) {
                Ok(Some(p)) => if p.namespace is Some {
                    Err(Fault::ObjectNotGlobal)
                } else if meta != meta_of(p) {
                    Err(Fault::UpdateType)
                } else {
                    Ok(meta)
                },
                Ok(None) => Err(Fault::ObjectNotFound(uid)),
                Err(fault) => Err(Fault::Store(fault)),
            },
            None => Err(Fault::InvalidObject),
        },
        ActionView::Delete { uid } => match object_at(rows, uid) {
            Ok(Some(p)) => if p.namespace is Some {
                Err(Fault::ObjectNotGlobal)
            } else {
                Ok(meta_of(p))
            },
            Ok(None) => Err(Fault::ObjectNotFound(uid)),
            Err(fault) => Err(Fault::Store(fault)),
        },
    }
}

/// The type that an action acts on, as the checks of say and of permits
/// find it: that which the object to make names, or that of the object
/// under the uid. `missing` is the fault where the uid holds nothing; where
/// none is given, the fault says that the uid holds no object.
pub open spec fn plain_type(rows: Seq<Row>, a: ActionView, invalid: Fault, missing: Option<Fault>) -> Result<
    TypeMetaView,
    Fault,
> {
    match a {
        ActionView::Create { object } => match type_meta_of(object) {
            Some(meta) => Ok(meta),
            None => Err(invalid),
        },
        ActionView::Update { uid, object } => match object_at(rows, uid) {
            Ok(Some(p)) => Ok(meta_of(p)),
            Ok(None) => Err(
                match missing {
                    Some(f) => f,
                    None => Fault::ObjectNotFound(uid),
                },
            ),
            Err(fault) => Err(Fault::Store(fault)),
        },
        ActionView::Delete { uid } => match object_at(rows, uid) {
            Ok(Some(p)) => Ok(meta_of(p)),
            Ok(None) => Err(
                match missing {
                    Some(f) => f,
                    None => Fault::ObjectNotFound(uid),
                },
            ),
            Err(fault) => Err(Fault::Store(fault)),
        },
    }
}

/// The handlers of a type.
pub open spec fn handlers_of(meta: TypeMetaView) -> Result<Controller, Fault> {
    match Kind::of(meta) {
        Some(kind) => Ok(kind.handlers()),
        None => Err(Fault::ControllerNotFound(meta_text(meta))),
    }
}

/// What the check of whether one action of a proposal is possible says;
/// `namespace` is that of the proposal, `None` for a global one.
#[verifier::opaque]
pub open spec fn action_supported(rows: Seq<Row>, namespace: Option<Seq<char>>, a: ActionView) -> Result<(), Fault> {
    let meta = match namespace {
        Some(ns) => scoped_type(rows, ns, a),
        None => global_type(rows, a),
    };
    match meta {
        Ok(m) => match handlers_of(m) {
            Ok(c) => match c.support_spec(rows, a) {
                Ok(()) => Ok(()),
                Err(f) => Err(Fault::Action(f)),
            },
            Err(f) => Err(f),
        },
        Err(f) => Err(f),
    }
}

/// What the check of whether an organization has a say on one action says.
#[verifier::opaque]
pub open spec fn action_relevant(rows: Seq<Row>, a: ActionView, org: Seq<char>) -> Result<(), Fault> {
    match plain_type(rows, a, Fault::InvalidObject, None) {
        Ok(m) => match handlers_of(m) {
            Ok(c) => match c.relevant_spec(rows, a, org) {
                Ok(()) => Ok(()),
                Err(f) => Err(Fault::Action(f)),
            },
            Err(f) => Err(f),
        },
        Err(f) => Err(f),
    }
}

/// What the check of whether all who have a say on one action have permitted says.
#[verifier::opaque]
pub open spec fn action_commitable(rows: Seq<Row>, a: ActionView, permitted: Seq<(Seq<char>, Seq<char>)>) -> Result<
    (),
    Fault,
> {
    match plain_type(rows, a, Fault::Store(StoreFault::InvalidObject), Some(Fault::Store(StoreFault::InvalidObject))) {
        Ok(m) => match handlers_of(m) {
            Ok(c) => match c.commitable_spec(rows, a, permitted) {
                Ok(()) => Ok(()),
                Err(f) => Err(Fault::Action(f)),
            },
            Err(f) => Err(f),
        },
        Err(f) => Err(f),
    }
}

/// What a check of the first `n` actions says, action by action: the fault of the first that fails.
pub open spec fn checked(actions: Seq<ActionView>, check: spec_fn(ActionView) -> Result<(), Fault>, n: nat) -> Result<
    (),
    Fault,
>
    decreases n,
{
    if n == 0 || n > actions.len() {
        Ok(())
    } else {
        match checked(actions, check, (n - 1) as nat) {
            Ok(()) => check(actions[n - 1]),
            Err(f) => Err(f),
        }
    }
}

/// The check of whether an action of a proposal is possible.
pub open spec fn support_check(rows: Seq<Row>, namespace: Option<Seq<char>>) -> spec_fn(ActionView) -> Result<(), Fault> {
    |a: ActionView| action_supported(rows, namespace, a)
}

/// The check of whether an organization has a say on an action.
pub open spec fn relevant_check(rows: Seq<Row>, org: Seq<char>) -> spec_fn(ActionView) -> Result<(), Fault> {
    |a: ActionView| action_relevant(rows, a, org)
}

/// The check of whether all who have a say on an action have permitted.
pub open spec fn commitable_check(rows: Seq<Row>, permitted: Seq<(Seq<char>, Seq<char>)>) -> spec_fn(ActionView) -> Result<
    (),
    Fault,
> {
    |a: ActionView| action_commitable(rows, a, permitted)
}

/// What the check of whether a proposal is possible says: it must have an
/// action, and every action must be possible on the objects as they are.
pub open spec fn proposal_supported(rows: Seq<Row>, namespace: Option<Seq<char>>, actions: Seq<ActionView>) -> Result<
    (),
    Fault,
> {
    if actions.len() == 0 {
        Err(Fault::NoAction)
    } else {
        checked(actions, support_check(rows, namespace), actions.len())
    }
}

/// What the check of whether an organization has a say on every action of a proposal says.
pub open spec fn proposal_relevant(rows: Seq<Row>, actions: Seq<ActionView>, org: Seq<char>) -> Result<(), Fault> {
    checked(actions, relevant_check(rows, org), actions.len())
}

/// What the check of whether a proposal can be committed says: it must
/// have an action, and for every action all who have a say must be among
/// those that have permitted the proposal.
pub open spec fn proposal_commitable(rows: Seq<Row>, actions: Seq<ActionView>, permitted: Seq<(Seq<char>, Seq<char>)>) -> Result<
    (),
    Fault,
> {
    if actions.len() == 0 {
        Err(Fault::NoAction)
    } else {
        checked(actions, commitable_check(rows, permitted), actions.len())
    }
}

/// Where the check of the first actions fails, that of more actions fails with the same fault.
pub proof fn lemma_checked_fault(
    actions: Seq<ActionView>,
    check: spec_fn(ActionView) -> Result<(), Fault>,
    n: nat,
    m: nat,
)
    requires
        n <= m <= actions.len(),
        checked(actions, check, n) is Err,
    ensures
        checked(actions, check, m) == checked(actions, check, n),
    decreases m,
{
    if n < m {
        lemma_checked_fault(actions, check, n, (m - 1) as nat);
    }
}

/// The type tag of a kind of objects that the store holds.
fn stored_meta(obj: &DynamicObject) -> (m: TypeMeta)
    requires
        obj.valid(),
    ensures
        m@ == meta_of(obj@),
{
    TypeMeta::of(obj.api_version(), obj.kind())
}

/// Reads the object under a uid.
fn fetch(model: &ChainModel, uid: u64) -> (r: Result<Option<DynamicObject>, ContractError>)
    requires
        model.context.wf(),
    ensures
        match object_at(model.rows(), uid) {
            Ok(Some(p)) => r matches Ok(Some(o)) && o@ == p && o.valid(),
            Ok(None) => r matches Ok(None),
            Err(f) => r matches Err(e) && fault(e) == Fault::Store(f),
        },
{
    match model.get_object_by_uid(uid) {
        Ok(o) => Ok(o),
        Err(e) => Err(ContractError::ChainModel(e)),
    }
}

/// An error that says an object lies in another namespace than the proposal.
fn namespace_mismatch(found: &str, wanted: &str) -> (e: ContractError)
    ensures
        fault(e) == Fault::ObjectNamespaceMismatch(found@, wanted@),
{
    ContractError::Proposal(ProposalError::ObjectNamespaceMismatch(String::from_str(found), String::from_str(wanted)))
}

/// The type of the object under a uid, which must lie in the given namespace.
fn resolve_scoped_target(model: &ChainModel, namespace: &str, uid: u64) -> (r: Result<TypeMeta, ContractError>)
    requires
        model.context.wf(),
    ensures
        match scoped_target(model.rows(), namespace@, uid) {
            Ok(meta) => r matches Ok(m) && m@ == meta,
            Err(f) => r matches Err(e) && fault(e) == f,
        },
{
    match fetch(model, uid) {
        Ok(Some(obj)) => match obj.namespace() {
            Some(ns) => if !same_text(ns, namespace) {
                Err(namespace_mismatch(ns, namespace))
            } else {
                Ok(stored_meta(&obj))
            },
            None => Err(namespace_mismatch("", namespace)),
        },
        Ok(None) => Err(ContractError::Proposal(ProposalError::ObjectNotFound(uid))),
        Err(e) => Err(e),
    }
}

/// The type that an action of a proposal in a namespace acts on.
fn resolve_scoped(model: &ChainModel, namespace: &str, action: &ProposalAction) -> (r: Result<TypeMeta, ContractError>)
    requires
        model.context.wf(),
    ensures
        match scoped_type(model.rows(), namespace@, action@) {
            Ok(meta) => r matches Ok(m) && m@ == meta,
            Err(f) => r matches Err(e) && fault(e) == f,
        },
{
    match action {
        ProposalAction::Create(it) => {
            let type_meta = match get_type_meta(&it.object) {
                Ok(m) => m,
                Err(e) => { return Err(ContractError::InvalidObject(e)); },
            };
            if !namespaced(&type_meta) {
                return Err(ContractError::Proposal(ProposalError::ObjectNotNamespaced(type_meta.to_text())));
            }
            match get_namespace(&it.object) {
                Ok(Some(ns)) => if !same_text(ns.as_str(), namespace) {
                    Err(namespace_mismatch(ns.as_str(), namespace))
                } else {
                    Ok(type_meta)
                },
                Ok(None) => Err(namespace_mismatch("", namespace)),
                Err(e) => Err(ContractError::InvalidObject(e)),
            }
        },
        ProposalAction::Update(it) => resolve_scoped_target(model, namespace, it.uid),
        ProposalAction::Delete(it) => resolve_scoped_target(model, namespace, it.uid),
    }
}

/// The type that an action of a global proposal acts on.
fn resolve_global(model: &ChainModel, action: &ProposalAction) -> (r: Result<TypeMeta, ContractError>)
    requires
        model.context.wf(),
    ensures
        match global_type(model.rows(), action@) {
            Ok(meta) => r matches Ok(m) && m@ == meta,
            Err(f) => r matches Err(e) && fault(e) == f,
        },
{
    match action {
        ProposalAction::Create(it) => {
            let type_meta = match get_type_meta(&it.object) {
                Ok(m) => m,
                Err(e) => { return Err(ContractError::InvalidObject(e)); },
            };
            if namespaced(&type_meta) {
                return Err(ContractError::Proposal(ProposalError::ObjectNotGlobal));
            }
            Ok(type_meta)
        },
        ProposalAction::Update(it) => {
            let new_type_meta = match get_type_meta(&it.object) {
                Ok(m) => m,
                Err(e) => { return Err(ContractError::InvalidObject(e)); },
            };
            match fetch(model, it.uid) {
                Ok(Some(obj)) => {
                    proof {
                        obj.lemma_namespaced();
                    }
                    if obj.namespaced() {
                        return Err(ContractError::Proposal(ProposalError::ObjectNotGlobal));
                    }
                    let old_type_meta = stored_meta(&obj);
                    if !new_type_meta.same(&old_type_meta) {
                        return Err(ContractError::Proposal(ProposalError::UpdateType));
                    }
                    Ok(new_type_meta)
                },
                Ok(None) => Err(ContractError::Proposal(ProposalError::ObjectNotFound(it.uid))),
                Err(e) => Err(e),
            }
        },
        ProposalAction::Delete(it) => match fetch(model, it.uid) {
            Ok(Some(obj)) => {
                proof {
                    obj.lemma_namespaced();
                }
                if obj.namespaced() {
                    return Err(ContractError::Proposal(ProposalError::ObjectNotGlobal));
                }
                Ok(stored_meta(&obj))
            },
            Ok(None) => Err(ContractError::Proposal(ProposalError::ObjectNotFound(it.uid))),
            Err(e) => Err(e),
        },
    }
}

/// The handlers of a type.
fn handlers(type_meta: &TypeMeta) -> (r: Result<Controller, ContractError>)
    ensures
        match handlers_of(type_meta@) {
            Ok(c) => r == Ok::<Controller, ContractError>(c),
            Err(f) => r matches Err(e) && fault(e) == f,
        },
{
    match controller(type_meta) {
        Some(c) => Ok(c),
        None => Err(ContractError::Proposal(ProposalError::ControllerNotFound(type_meta.to_text()))),
    }
}

impl ProposalAction {
    /// The type that the action acts on: that which the object to make
    /// names, or that of the object under the uid.
    pub fn get_type_meta(&self, model: &ChainModel) -> (r: Result<TypeMeta, ChainModelError>)
        requires
            model.context.wf(),
        ensures
            match plain_type(
                model.rows(),
                self@,
                Fault::Store(StoreFault::InvalidObject),
                Some(Fault::Store(StoreFault::InvalidObject)),
            ) {
                Ok(meta) => r matches Ok(m) && m@ == meta,
                Err(f) => r matches Err(e) && Fault::Store(store_fault(e)) == f,
            },
    {
        match self {
            ProposalAction::Create(it) => match get_type_meta(&it.object) {
                Ok(m) => Ok(m),
                Err(e) => Err(ChainModelError::InvalidObject(e)),
            },
            ProposalAction::Update(it) => match model.get_object_by_uid(it.uid) {
                Ok(Some(obj)) => Ok(stored_meta(&obj)),
                Ok(None) => Err(
                    ChainModelError::InvalidObject(InvalidObjectError::new(String::from_str("can't find object for update"))),
                ),
                Err(e) => Err(e),
            },
            ProposalAction::Delete(it) => match model.get_object_by_uid(it.uid) {
                Ok(Some(obj)) => Ok(stored_meta(&obj)),
                Ok(None) => Err(
                    ChainModelError::InvalidObject(InvalidObjectError::new(String::from_str("can't find object for delete"))),
                ),
                Err(e) => Err(e),
            },
        }
    }
}

/// Whether one action of a proposal is possible.
fn check_action_support(model: &ChainModel, namespace: Option<&str>, action: &ProposalAction) -> (r: Result<
    (),
    ContractError,
>)
    requires
        model.context.wf(),
        action@.well_formed(),
    ensures
        outcome(r) == action_supported(model.rows(), crate::model::opt_str(namespace), action@),
{
    reveal(action_supported);
    let resolved = match namespace {
        Some(ns) => resolve_scoped(model, ns, action),
        None => resolve_global(model, action),
    };
    let type_meta = match resolved {
        Ok(m) => m,
        Err(e) => { return Err(e); },
    };
    let control = match handlers(&type_meta) {
        Ok(c) => c,
        Err(e) => { return Err(e); },
    };
    match control.check_support(model, action) {
        Ok(()) => Ok(()),
        Err(e) => Err(ContractError::ActionFn(e)),
    }
}

/// The type that an action acts on, as the check of say finds it.
fn resolve_plain(model: &ChainModel, action: &ProposalAction) -> (r: Result<TypeMeta, ContractError>)
    requires
        model.context.wf(),
    ensures
        match plain_type(model.rows(), action@, Fault::InvalidObject, None) {
            Ok(meta) => r matches Ok(m) && m@ == meta,
            Err(f) => r matches Err(e) && fault(e) == f,
        },
{
    match action {
        ProposalAction::Create(it) => match get_type_meta(&it.object) {
            Ok(m) => Ok(m),
            Err(e) => Err(ContractError::InvalidObject(e)),
        },
        ProposalAction::Update(it) => match fetch(model, it.uid) {
            Ok(Some(obj)) => Ok(stored_meta(&obj)),
            Ok(None) => Err(ContractError::Proposal(ProposalError::ObjectNotFound(it.uid))),
            Err(e) => Err(e),
        },
        ProposalAction::Delete(it) => match fetch(model, it.uid) {
            Ok(Some(obj)) => Ok(stored_meta(&obj)),
            Ok(None) => Err(ContractError::Proposal(ProposalError::ObjectNotFound(it.uid))),
            Err(e) => Err(e),
        },
    }
}

/// Whether an organization has a say on one action.
fn check_action_relevant(model: &ChainModel, action: &ProposalAction, org_id: &str) -> (r: Result<(), ContractError>)
    requires
        model.context.wf(),
        action@.well_formed(),
    ensures
        outcome(r) == action_relevant(model.rows(), action@, org_id@),
{
    reveal(action_relevant);
    let type_meta = match resolve_plain(model, action) {
        Ok(m) => m,
        Err(e) => { return Err(e); },
    };
    let control = match handlers(&type_meta) {
        Ok(c) => c,
        Err(e) => { return Err(e); },
    };
    match control.check_relevent(model, action, org_id) {
        Ok(()) => Ok(()),
        Err(e) => Err(ContractError::ActionFn(e)),
    }
}

/// Whether all who have a say on one action have permitted.
fn check_action_commitable(model: &ChainModel, action: &ProposalAction, permitted: &TextMap) -> (r: Result<
    (),
    ContractError,
>)
    requires
        model.context.wf(),
        action@.well_formed(),
    ensures
        outcome(r) == action_commitable(model.rows(), action@, permitted@),
{
    reveal(action_commitable);
    let type_meta = match action.get_type_meta(model) {
        Ok(m) => m,
        Err(e) => { return Err(ContractError::ChainModel(e)); },
    };
    let control = match handlers(&type_meta) {
        Ok(c) => c,
        Err(e) => { return Err(e); },
    };
    match control.check_commitable(model, action, permitted) {
        Ok(()) => Ok(()),
        Err(e) => Err(ContractError::ActionFn(e)),
    }
}

/// Whether a proposal is possible: it must have an action, and every
/// action must be possible on the objects as they are. `namespace` is that
/// of the proposal, `None` for a global one.
pub fn check_support(model: &ChainModel, namespace: Option<&str>, actions: &Vec<ProposalAction>) -> (r: Result<
    (),
    ContractError,
>)
    requires
        model.context.wf(),
        actions_well_formed(actions_of(actions@)),
    ensures
        outcome(r) == proposal_supported(model.rows(), crate::model::opt_str(namespace), actions_of(actions@)),
{
    if actions.len() == 0 {
        return Err(ContractError::Proposal(ProposalError::NoAction));
    }
    let ghost views = actions_of(actions@);
    let ghost check = support_check(model.rows(), crate::model::opt_str(namespace));
    let mut i: usize = 0;
    while i < actions.len()
        invariant
            i <= actions.len(),
            model.context.wf(),
            views == actions_of(actions@),
            actions_well_formed(views),
            check == support_check(model.rows(), crate::model::opt_str(namespace)),
            checked(views, check, i as nat) == Ok::<(), Fault>(()),
        decreases actions.len() - i,
    {
        assert(views[i as int] == actions[i as int]@);
        assert(views[i as int].well_formed());
        match check_action_support(model, namespace, &actions[i]) {
            Ok(()) => {},
            Err(e) => {
                proof {
                    assert(check(views[i as int]) == Err::<(), Fault>(fault(e)));
                    lemma_checked_fault_from(views, check, (i + 1) as nat);
                }
                return Err(e);
            },
        }
        assert(check(views[i as int]) == Ok::<(), Fault>(()));
        i = i + 1;
    }
    Ok(())
}

/// Whether an organization has a say on every action of a proposal.
pub fn check_relavent(model: &ChainModel, actions: &Vec<ProposalAction>, org_id: &str) -> (r: Result<
    (),
    ContractError,
>)
    requires
        model.context.wf(),
        actions_well_formed(actions_of(actions@)),
    ensures
        outcome(r) == proposal_relevant(model.rows(), actions_of(actions@), org_id@),
{
    let ghost views = actions_of(actions@);
    let ghost check = relevant_check(model.rows(), org_id@);
    let mut i: usize = 0;
    while i < actions.len()
        invariant
            i <= actions.len(),
            model.context.wf(),
            views == actions_of(actions@),
            actions_well_formed(views),
            check == relevant_check(model.rows(), org_id@),
            checked(views, check, i as nat) == Ok::<(), Fault>(()),
        decreases actions.len() - i,
    {
        assert(views[i as int] == actions[i as int]@);
        assert(views[i as int].well_formed());
        match check_action_relevant(model, &actions[i], org_id) {
            Ok(()) => {},
            Err(e) => {
                proof {
                    assert(check(views[i as int]) == Err::<(), Fault>(fault(e)));
                    lemma_checked_fault_from(views, check, (i + 1) as nat);
                }
                return Err(e);
            },
        }
        assert(check(views[i as int]) == Ok::<(), Fault>(()));
        i = i + 1;
    }
    Ok(())
}

/// Whether a proposal can be committed: it must have an action, and for
/// every action all who have a say must be among those that have permitted.
pub fn check_commitable(model: &ChainModel, actions: &Vec<ProposalAction>, permitted: &TextMap) -> (r: Result<
    (),
    ContractError,
>)
    requires
        model.context.wf(),
        actions_well_formed(actions_of(actions@)),
    ensures
        outcome(r) == proposal_commitable(model.rows(), actions_of(actions@), permitted@),
{
    if actions.len() == 0 {
        return Err(ContractError::Proposal(ProposalError::NoAction));
    }
    let ghost views = actions_of(actions@);
    let ghost check = commitable_check(model.rows(), permitted@);
    let mut i: usize = 0;
    while i < actions.len()
        invariant
            i <= actions.len(),
            model.context.wf(),
            views == actions_of(actions@),
            actions_well_formed(views),
            check == commitable_check(model.rows(), permitted@),
            checked(views, check, i as nat) == Ok::<(), Fault>(()),
        decreases actions.len() - i,
    {
        assert(views[i as int] == actions[i as int]@);
        assert(views[i as int].well_formed());
        match check_action_commitable(model, &actions[i], permitted) {
            Ok(()) => {},
            Err(e) => {
                proof {
                    assert(check(views[i as int]) == Err::<(), Fault>(fault(e)));
                    lemma_checked_fault_from(views, check, (i + 1) as nat);
                }
                return Err(e);
            },
        }
        assert(check(views[i as int]) == Ok::<(), Fault>(()));
        i = i + 1;
    }
    Ok(())
}

/// Where the check of the action at `n - 1` fails and those before it pass,
/// the check of all actions fails with its fault.
pub proof fn lemma_checked_fault_from(actions: Seq<ActionView>, check: spec_fn(ActionView) -> Result<(), Fault>, n: nat)
    requires
        1 <= n <= actions.len(),
        checked(actions, check, (n - 1) as nat) == Ok::<(), Fault>(()),
        check(actions[n - 1]) is Err,
    ensures
        checked(actions, check, actions.len()) == check(actions[n - 1]),
{
    assert(checked(actions, check, n) == check(actions[n - 1]));
    lemma_checked_fault(actions, check, n, actions.len());
}

/// The proposal of a kind under a uid.
pub open spec fn proposal_at(rows: Seq<Row>, kind: Kind, uid: u64) -> Result<PartsView, Fault> {
    match held(rows, kind, uid) {
        Some(Ok(p)) => Ok(p),
        Some(Err(f)) => Err(Fault::Parse(f)),
        None => Err(Fault::ObjectNotFound(uid)),
    }
}

/// The proposal of a kind that the index names for a name; `namespace` is `None` for a global one.
pub open spec fn proposal_named(rows: Seq<Row>, kind: Kind, namespace: Option<Seq<char>>, name: Seq<char>) -> Result<
    PartsView,
    Fault,
> {
    match named_text(
        rows,
        index_key_of(kind.meta().api_version, kind.meta().kind, or_empty(namespace), name),
        Seq::empty(),
    ) {
        Ok(Some(text)) => match json_decoded(text) {
            Some(j) => match kind_parsed(kind, j) {
                Ok(p) => Ok(p),
                Err(f) => Err(Fault::Parse(f)),
            },
            None => Err(Fault::Parse(ParseFault::Malformed)),
        },
        Ok(None) => Err(Fault::ObjectNotFoundByName(name)),
        Err(f) => Err(Fault::Store(f)),
    }
}

/// The state that a proposal is in.
pub open spec fn state_of(p: PartsView) -> StatusView {
    status_of(p.status)->0
}

/// The actions of a proposal.
pub open spec fn actions_in(p: PartsView) -> Seq<ActionView> {
    proposal_actions(p.spec)->0
}

/// What storing a proposal does. It is not stored where another object is indexed under its name.
pub open spec fn stored_as(rows: Seq<Row>, kind: Kind, p: PartsView) -> Result<Seq<Row>, Fault> {
    if !crate::consistency::slot_free(rows, p) {
        Err(Fault::Conflict)
    } else {
        match put_result(rows, kind, p, written(parts_tree(p))) {
            Ok(after) => Ok(after),
            Err(f) => Err(Fault::Store(f)),
        }
    }
}

/// What revoking a proposal does: only an active proposal is revoked, and
/// only by its creator; it is stored as revoked, and nothing else changes.
pub open spec fn revoke_spec(rows: Seq<Row>, kind: Kind, p: PartsView, org: Seq<char>) -> Result<Seq<Row>, Fault> {
    if !(state_of(p).stage is Active) {
        Err(Fault::InActive(p.uid))
    } else if creator_of(p) != org {
        Err(Fault::RevokeForbidden)
    } else {
        stored_as(rows, kind, with_status(p, StatusView { stage: ProposalStage::Revoked, ..state_of(p) }))
    }
}

/// What permitting a proposal, or taking a permit back, does: only an
/// active proposal is permitted, and only by an organization that has a say
/// on every action; the organization is put among those that have
/// permitted, with its remark, or taken from among them.
pub open spec fn permit_spec(
    rows: Seq<Row>,
    kind: Kind,
    p: PartsView,
    allow: bool,
    comment: Seq<char>,
    org: Seq<char>,
) -> Result<Seq<Row>, Fault> {
    if !(state_of(p).stage is Active) {
        Err(Fault::InActive(p.uid))
    } else {
        match proposal_relevant(rows, actions_in(p), org) {
            Ok(()) => stored_as(
                rows,
                kind,
                with_status(
                    p,
                    StatusView {
                        permission: if allow {
                            with_pair(state_of(p).permission, org, comment)
                        } else {
                            without_key(state_of(p).permission, org)
                        },
                        ..state_of(p)
                    },
                ),
            ),
            Err(f) => Err(f),
        }
    }
}

/// The namespace in which the actions of a proposal must lie: that of
/// the proposal, none for a global one.
pub open spec fn scope_of(kind: Kind, p: PartsView) -> Option<Seq<char>> {
    if kind is Proposal {
        Some(or_empty(p.namespace))
    } else {
        None
    }
}

/// What carrying out one action does: the rows and the counter after it,
/// the result, and the result as JSON text; or the fault.
#[verifier::opaque]
pub open spec fn step(rows: Seq<Row>, counter: u64, a: ActionView) -> Result<(Seq<Row>, u64, OutcomeView, Seq<u8>), Fault> {
    match plain_type(rows, a, Fault::Store(StoreFault::InvalidObject), Some(Fault::Store(StoreFault::InvalidObject))) {
        Ok(meta) => match handlers_of(meta) {
            Ok(control) => match control.exec_spec(rows, counter, a) {
                Ok((after, made)) => match json_encoded(outcome_tree(made)) {
                    Some(text) => Ok(
                        (
                            after,
                            if a is Create {
                                (counter + 1) as u64
                            } else {
                                counter
                            },
                            made,
                            text,
                        ),
                    ),
                    None => Err(Fault::Store(StoreFault::Json)),
                },
                Err(f) => Err(Fault::Action(f)),
            },
            Err(f) => Err(f),
        },
        Err(f) => Err(f),
    }
}

/// What carrying out the first `n` actions does, one after the other: the
/// rows and the counter after them, the results, and the results as JSON
/// texts; or the fault of the first action that fails.
pub open spec fn run(rows: Seq<Row>, counter: u64, actions: Seq<ActionView>, n: nat) -> Result<
    (Seq<Row>, u64, Seq<OutcomeView>, Seq<Seq<u8>>),
    Fault,
>
    decreases n,
{
    if n == 0 || n > actions.len() {
        Ok((rows, counter, Seq::empty(), Seq::empty()))
    } else {
        match run(rows, counter, actions, (n - 1) as nat) {
            Ok((before, c, outcomes, texts)) => match step(before, c, actions[n - 1]) {
                Ok((after, c2, made, text)) => Ok((after, c2, outcomes.push(made), texts.push(text))),
                Err(f) => Err(f),
            },
            Err(f) => Err(f),
        }
    }
}

/// What committing a proposal does: only an active proposal is committed,
/// and only by its creator; every action must be possible and permitted by
/// all who have a say; then the actions are carried out in order, and the
/// proposal is stored as submitted, with their results. What is given back
/// is the rows and the counter after it and the JSON array of the results.
pub open spec fn commit_spec(rows: Seq<Row>, counter: u64, kind: Kind, p: PartsView, org: Seq<char>) -> Result<
    (Seq<Row>, u64, Seq<u8>),
    Fault,
> {
    if !(state_of(p).stage is Active) {
        Err(Fault::InActive(p.uid))
    } else if creator_of(p) != org {
        Err(Fault::CommitForbidden)
    } else {
        match proposal_supported(rows, scope_of(kind, p), actions_in(p)) {
            Ok(()) => match proposal_commitable(rows, actions_in(p), state_of(p).permission) {
                Ok(()) => match run(rows, counter, actions_in(p), actions_in(p).len()) {
                    Ok((after, c, outcomes, texts)) => match stored_as(
                        after,
                        kind,
                        with_status(
                            p,
                            StatusView { stage: ProposalStage::Submitted, results: Some(outcomes), ..state_of(p) },
                        ),
                    ) {
                        Ok(last) => Ok((last, c, json_array(texts))),
                        Err(f) => Err(f),
                    },
                    Err(f) => Err(f),
                },
                Err(f) => Err(f),
            },
            Err(f) => Err(f),
        }
    }
}

/// The proposal that making stores, before it is given its uid: that which
/// the text names, in the namespace asked for, made by the caller, active
/// and permitted by nobody.
pub open spec fn drafted(kind: Kind, text: Seq<u8>, namespace: Seq<char>, creator: Seq<char>) -> Result<PartsView, Fault> {
    match json_decoded(text) {
        Some(j) => match kind_parsed(kind, j) {
            Ok(p) => {
                let placed = if kind is Proposal {
                    if or_empty(p.namespace).len() == 0 {
                        Ok(with_namespace(p, namespace))
                    } else if or_empty(p.namespace) != namespace {
                        Err(Fault::ObjectNamespaceMismatch(namespace, or_empty(p.namespace)))
                    } else {
                        Ok(p)
                    }
                } else {
                    Ok(p)
                };
                match placed {
                    Ok(q) => Ok(with_status(with_creator(q, creator), StatusView::initial())),
                    Err(f) => Err(f),
                }
            },
            Err(f) => Err(Fault::Parse(f)),
        },
        None => Err(Fault::Parse(ParseFault::Malformed)),
    }
}

/// What making a proposal does: the proposal must be possible; it is given
/// the next uid; its name must be free; and it is stored. What is given
/// back is the rows after it and the uid.
pub open spec fn create_spec(
    rows: Seq<Row>,
    counter: u64,
    kind: Kind,
    text: Seq<u8>,
    namespace: Seq<char>,
    creator: Seq<char>,
) -> Result<(Seq<Row>, u64), Fault> {
    match drafted(kind, text, namespace, creator) {
        Ok(draft) => match proposal_supported(rows, scope_of(kind, draft), actions_in(draft)) {
            Ok(()) => if counter == u64::MAX {
                Err(Fault::Store(StoreFault::State))
            } else {
                let p = with_uid(draft, counter);
                match named_text(rows, crate::model::slot_key(p), crate::model::slot_field(p)) {
                    Ok(Some(_)) => Err(Fault::Conflict),
                    Ok(None) => match stored_as(rows, kind, p) {
                        Ok(after) => Ok((after, counter)),
                        Err(f) => Err(f),
                    },
                    Err(f) => Err(Fault::Store(f)),
                }
            },
            Err(f) => Err(f),
        },
        Err(f) => Err(f),
    }
}

/// Reads the proposal of a kind under a uid.
pub fn load_by_uid(model: &ChainModel, kind: Kind, uid: u64) -> (r: Result<DynamicObject, ContractError>)
    requires
        model.context.wf(),
        kind is Proposal || kind is GlobalProposal,
    ensures
        match proposal_at(model.rows(), kind, uid) {
            Ok(p) => r matches Ok(o) && o@ == p && o.spec_kind() == kind && o.valid(),
            Err(f) => r matches Err(e) && fault(e) == f,
        },
{
    match read_held(model, kind, uid) {
        Ok(Some(o)) => Ok(o),
        Ok(None) => Err(ContractError::Proposal(ProposalError::ObjectNotFound(uid))),
        Err(ActionFnError::Deserialize(d)) => Err(ContractError::Deserialize(d)),
        Err(e) => Err(ContractError::ActionFn(e)),
    }
}

/// Reads the proposal of a kind that the index names for a name.
pub fn load_by_name(model: &ChainModel, kind: Kind, namespace: Option<&str>, name: &str) -> (r: Result<
    DynamicObject,
    ContractError,
>)
    requires
        model.context.wf(),
        kind is Proposal || kind is GlobalProposal,
    ensures
        match proposal_named(model.rows(), kind, crate::model::opt_str(namespace), name@) {
            Ok(p) => r matches Ok(o) && o@ == p && o.spec_kind() == kind && o.valid(),
            Err(f) => r matches Err(e) && fault(e) == f,
        },
{
    let meta = kind.type_meta();
    let raw = match model.get_raw_object_by_name_version(&meta, name, namespace, None) {
        Ok(Some(v)) => v,
        Ok(None) => {
            return Err(ContractError::Proposal(ProposalError::ObjectNotFoundByName(String::from_str(name))));
        },
        Err(e) => { return Err(ContractError::ChainModel(e)); },
    };
    let value = match Json::parse(raw.as_slice()) {
        Ok(j) => j,
        Err(msg) => { return Err(ContractError::Deserialize(crate::errors::DeserializeError::JsonError(msg))); },
    };
    match DynamicObject::parse_kind(kind, &value) {
        Ok(o) => Ok(o),
        Err(e) => Err(ContractError::Deserialize(e)),
    }
}

/// Stores a proposal.
fn store(model: &mut ChainModel, proposal: &DynamicObject) -> (r: Result<(), ContractError>)
    requires
        old(model).context.wf(),
        proposal.wf(),
    ensures
        final(model).context.wf(),
        final(model).context.same_call(&old(model).context),
        match stored_as(old(model).rows(), proposal.spec_kind(), proposal@) {
            Ok(rows) => r is Ok && final(model).rows() == rows,
            Err(f) => r matches Err(e) && fault(e) == f && final(model).rows() == old(model).rows(),
        },
        old(model).wf() && proposal.valid() && proposal@.uid < old(model).context.counter() ==> final(model).wf(),
        r is Ok && proposal.valid() ==> proposal_at(final(model).rows(), proposal.spec_kind(), proposal@.uid) == Ok::<
            PartsView,
            Fault,
        >(proposal@),
{
    proof {
        if proposal.valid() {
            crate::objects::dynamic::lemma_object_parsed_kind(proposal.spec_kind(), parts_tree(proposal@));
        }
    }
    if !model.slot_is_free(proposal) {
        return Err(ContractError::Proposal(ProposalError::Conlict));
    }
    match model.put_object(proposal) {
        Ok(()) => {
            proof {
                let text = stored(model.rows(), proposal@.uid);
                crate::objects::dynamic::lemma_object_parsed_kind(proposal.spec_kind(), json_decoded(text)->0);
            }
            Ok(())
        },
        Err(e) => Err(ContractError::ChainModel(e)),
    }
}

/// Revokes a proposal for an organization.
pub fn revoke(model: &mut ChainModel, proposal: DynamicObject, org_id: &str) -> (r: Result<(), ContractError>)
    requires
        old(model).context.wf(),
        proposal.is_proposal(),
        proposal.valid(),
    ensures
        final(model).context.wf(),
        final(model).context.same_call(&old(model).context),
        old(model).wf() && proposal@.uid < old(model).context.counter() ==> final(model).wf(),
        r is Ok ==> (proposal_at(final(model).rows(), proposal.spec_kind(), proposal@.uid) matches Ok(p) && state_of(
            p,
        ).stage is Revoked),
        match revoke_spec(old(model).rows(), proposal.spec_kind(), proposal@, org_id@) {
            Ok(rows) => r is Ok && final(model).rows() == rows,
            Err(f) => r matches Err(e) && fault(e) == f && final(model).rows() == old(model).rows(),
        },
{
    let mut proposal = proposal;
    proof {
        proposal.lemma_proposal_view();
    }
    if !proposal.status().stage.is_active() {
        return Err(ContractError::Proposal(ProposalError::InActive(proposal.uid())));
    }
    if !same_text(proposal.creator(), org_id) {
        return Err(ContractError::Proposal(ProposalError::RevokeForbidden));
    }
    let mut status = proposal.status().copy();
    status.stage = ProposalStage::Revoked;
    proposal.set_status(status);
    proof {
        proposal.lemma_proposal_view();
    }
    store(model, &proposal)
}

/// Records that an organization permits a proposal, with a remark, or takes its permit back.
pub fn permit(
    model: &mut ChainModel,
    proposal: DynamicObject,
    status: bool,
    comment: String,
    org_id: String,
) -> (r: Result<(), ContractError>)
    requires
        old(model).context.wf(),
        proposal.is_proposal(),
        proposal.valid(),
    ensures
        final(model).context.wf(),
        final(model).context.same_call(&old(model).context),
        old(model).wf() && proposal@.uid < old(model).context.counter() ==> final(model).wf(),
        match permit_spec(old(model).rows(), proposal.spec_kind(), proposal@, status, comment@, org_id@) {
            Ok(rows) => r is Ok && final(model).rows() == rows,
            Err(f) => r matches Err(e) && fault(e) == f && final(model).rows() == old(model).rows(),
        },
{
    let mut proposal = proposal;
    proof {
        proposal.lemma_proposal_view();
    }
    if !proposal.status().stage.is_active() {
        return Err(ContractError::Proposal(ProposalError::InActive(proposal.uid())));
    }
    match check_relavent(model, proposal.actions(), org_id.as_str()) {
        Ok(()) => {},
        Err(e) => { return Err(e); },
    }
    let mut state = proposal.status().copy();
    if status {
        state.permission.insert(org_id, comment);
    } else {
        let _ = state.permission.remove(org_id.as_str());
    }
    proposal.set_status(state);
    store(model, &proposal)
}

/// The namespace in which the actions of a proposal must lie.
fn scope(proposal: &DynamicObject) -> (r: Option<&str>)
    requires
        proposal.is_proposal(),
    ensures
        crate::model::opt_str(r) == scope_of(proposal.spec_kind(), proposal@),
{
    match proposal {
        DynamicObject::Proposal(o) => Some(o.metadata.namespace.as_str()),
        _ => None,
    }
}

/// Carries out one action and writes its result as JSON text.
fn run_action(model: &mut ChainModel, action: &ProposalAction) -> (r: Result<(ObjectByAction, Vec<u8>), ContractError>)
    requires
        old(model).context.wf(),
        action@.well_formed(),
    ensures
        final(model).context.wf(),
        final(model).context.sender() == old(model).context.sender(),
        final(model).context.counter() >= old(model).context.counter(),
        old(model).wf() ==> final(model).wf(),
        match step(old(model).rows(), old(model).context.counter(), action@) {
            Ok((rows, counter, made, text)) => r matches Ok(done) && done.0@ == made && made.well_formed() && done.1@
                == text && final(model).rows() == rows && final(model).context.counter() == counter,
            Err(f) => r matches Err(e) && fault(e) == f,
        },
{
    reveal(step);
    let type_meta = match action.get_type_meta(model) {
        Ok(m) => m,
        Err(e) => { return Err(ContractError::ChainModel(e)); },
    };
    let control = match handlers(&type_meta) {
        Ok(c) => c,
        Err(e) => { return Err(e); },
    };
    let obj = match control.exec(model, action) {
        Ok(o) => o,
        Err(e) => { return Err(ContractError::ActionFn(e)); },
    };
    proof {
        lemma_outcome(obj@);
    }
    match obj.to_value().to_vec() {
        Ok(text) => Ok((obj, text)),
        Err(msg) => Err(ContractError::Json(msg)),
    }
}

/// Carries out the actions of a proposal, one after the other. Where an
/// action fails, the rows are left as the actions before it made them.
fn run_actions(model: &mut ChainModel, actions: &Vec<ProposalAction>) -> (r: Result<
    (Vec<ObjectByAction>, Vec<u8>),
    ContractError,
>)
    requires
        old(model).context.wf(),
        actions_well_formed(actions_of(actions@)),
    ensures
        final(model).context.wf(),
        final(model).context.sender() == old(model).context.sender(),
        final(model).context.counter() >= old(model).context.counter(),
        old(model).wf() ==> final(model).wf(),
        match run(old(model).rows(), old(model).context.counter(), actions_of(actions@), actions@.len() as nat) {
            Ok((rows, counter, outcomes, texts)) => r matches Ok(done) && outcomes_of(Some(done.0)) == Some(outcomes)
                && done.1@ == json_array(texts) && final(model).rows() == rows && final(model).context.counter()
                == counter && forall|i: int| 0 <= i < outcomes.len() ==> (#[trigger] outcomes[i]).well_formed(),
            Err(f) => r matches Err(e) && fault(e) == f,
        },
{
    let ghost rows0 = model.rows();
    let ghost counter0 = model.context.counter();
    let ghost views = actions_of(actions@);
    let mut results: Vec<ObjectByAction> = Vec::new();
    let mut ret: Vec<u8> = Vec::new();
    ret.push(91u8);
    let ghost mut texts: Seq<Seq<u8>> = Seq::empty();
    let ghost mut outcomes: Seq<OutcomeView> = Seq::empty();
    let mut i: usize = 0;
    assert(ret@ =~= seq![91u8] + crate::model::joined(texts));
    while i < actions.len()
        invariant
            i <= actions.len(),
            model.context.wf(),
            model.context.sender() == old(model).context.sender(),
            model.context.counter() >= old(model).context.counter(),
            old(model).wf() ==> model.wf(),
            rows0 == old(model).rows(),
            counter0 == old(model).context.counter(),
            views == actions_of(actions@),
            actions_well_formed(views),
            run(rows0, counter0, views, i as nat) == Ok::<(Seq<Row>, u64, Seq<OutcomeView>, Seq<Seq<u8>>), Fault>(
                (model.rows(), model.context.counter(), outcomes, texts),
            ),
            results@.len() == i,
            outcomes.len() == i,
            texts.len() == i,
            forall|n: int| 0 <= n < i ==> (#[trigger] results@[n])@ == outcomes[n],
            forall|n: int| 0 <= n < i ==> (#[trigger] outcomes[n]).well_formed(),
            ret@ == seq![91u8] + crate::model::joined(texts),
        decreases actions.len() - i,
    {
        assert(views[i as int] == actions[i as int]@);
        assert(views[i as int].well_formed());
        let (obj, mut text) = match run_action(model, &actions[i]) {
            Ok(done) => done,
            Err(e) => {
                proof {
                    assert(run(rows0, counter0, views, (i + 1) as nat) is Err);
                    lemma_run_fault(rows0, counter0, views, (i + 1) as nat, views.len());
                }
                return Err(e);
            },
        };
        proof {
            lemma_joined_push(texts, text@);
        }
        if i > 0 {
            ret.push(44u8);
        }
        proof {
            assert(ret@ + text@ =~= seq![91u8] + crate::model::joined(texts.push(text@)));
            texts = texts.push(text@);
            outcomes = outcomes.push(obj@);
        }
        ret.append(&mut text);
        results.push(obj);
        i = i + 1;
    }
    ret.push(93u8);
    proof {
        assert(ret@ =~= json_array(texts));
        assert(outcomes_of(Some(results))->0 =~= outcomes);
    }
    Ok((results, ret))
}

/// Where carrying out the first actions fails, carrying out more fails with the same fault.
pub proof fn lemma_run_fault(rows: Seq<Row>, counter: u64, actions: Seq<ActionView>, n: nat, m: nat)
    requires
        n <= m <= actions.len(),
        run(rows, counter, actions, n) is Err,
    ensures
        run(rows, counter, actions, m) == run(rows, counter, actions, n),
    decreases m,
{
    if n < m {
        lemma_run_fault(rows, counter, actions, n, (m - 1) as nat);
    }
}

/// Commits a proposal for an organization. Either every action is carried
/// out and the proposal is stored as submitted, or nothing is changed.
pub fn commit(model: &mut ChainModel, proposal: DynamicObject, org_id: &str) -> (r: Result<Vec<u8>, ContractError>)
    requires
        old(model).context.wf(),
        proposal.is_proposal(),
        proposal.valid(),
    ensures
        final(model).context.wf(),
        final(model).context.sender() == old(model).context.sender(),
        old(model).wf() && proposal@.uid < old(model).context.counter() ==> final(model).wf(),
        r is Ok ==> (proposal_at(final(model).rows(), proposal.spec_kind(), proposal@.uid) matches Ok(p) && state_of(
            p,
        ).stage is Submitted),
        match commit_spec(
            old(model).rows(),
            old(model).context.counter(),
            proposal.spec_kind(),
            proposal@,
            org_id@,
        ) {
            Ok((rows, counter, text)) => r matches Ok(t) && t@ == text && final(model).rows() == rows && final(model).context.counter() == counter,
            Err(f) => r matches Err(e) && fault(e) == f && final(model).rows() == old(model).rows()
                && final(model).context.counter() == old(model).context.counter(),
        },
{
    let mut proposal = proposal;
    proof {
        proposal.lemma_proposal_view();
    }
    if !proposal.status().stage.is_active() {
        return Err(ContractError::Proposal(ProposalError::InActive(proposal.uid())));
    }
    if !same_text(proposal.creator(), org_id) {
        return Err(ContractError::Proposal(ProposalError::CommitForbidden));
    }
    match check_support(model, scope(&proposal), proposal.actions()) {
        Ok(()) => {},
        Err(e) => { return Err(e); },
    }
    match check_commitable(model, proposal.actions(), &proposal.status().permission) {
        Ok(()) => {},
        Err(e) => { return Err(e); },
    }
    let snapshot = model.context.snapshot();
    let (results, ret) = match run_actions(model, proposal.actions()) {
        Ok(done) => done,
        Err(e) => {
            model.context = snapshot;
            return Err(e);
        },
    };
    let mut state = proposal.status().copy();
    state.results = Some(results);
    state.stage = ProposalStage::Submitted;
    proposal.set_status(state);
    proof {
        proposal.lemma_proposal_view();
    }
    match store(model, &proposal) {
        Ok(()) => {},
        Err(e) => {
            model.context = snapshot;
            return Err(e);
        },
    }
    Ok(ret)
}

/// The uid counter after a proposal is made, or refused: the uid is taken
/// once the proposal is found possible, whether or not it is stored then.
pub open spec fn counter_after_create(
    rows: Seq<Row>,
    counter: u64,
    kind: Kind,
    text: Seq<u8>,
    namespace: Seq<char>,
    creator: Seq<char>,
) -> int {
    match drafted(kind, text, namespace, creator) {
        Ok(draft) => if proposal_supported(rows, scope_of(kind, draft), actions_in(draft)) is Ok && counter < u64::MAX {
            counter + 1
        } else {
            counter as int
        },
        Err(_) => counter as int,
    }
}

/// Reads the proposal that a text names and makes it ready to be stored:
/// in the namespace asked for, made by the caller, active and permitted by nobody.
fn draft(kind: Kind, object: &Vec<u8>, namespace: String, creator: String) -> (r: Result<DynamicObject, ContractError>)
    requires
        kind is Proposal || kind is GlobalProposal,
    ensures
        match drafted(kind, object@, namespace@, creator@) {
            Ok(p) => r matches Ok(o) && o@ == p && o.spec_kind() == kind && o.valid() && state_of(p)
                == StatusView::initial() && actions_in(p) == actions_of(o.held_actions()),
            Err(f) => r matches Err(e) && fault(e) == f,
        },
{
    let value = match Json::parse(object.as_slice()) {
        Ok(j) => j,
        Err(msg) => { return Err(ContractError::Deserialize(crate::errors::DeserializeError::JsonError(msg))); },
    };
    let mut proposal = match DynamicObject::parse_kind(kind, &value) {
        Ok(o) => o,
        Err(e) => { return Err(ContractError::Deserialize(e)); },
    };
    match &proposal {
        DynamicObject::Proposal(o) => {
            if o.metadata.namespace.as_str().unicode_len() == 0 {
                proposal.set_namespace(namespace);
            } else if !same_text(o.metadata.namespace.as_str(), namespace.as_str()) {
                return Err(namespace_mismatch(namespace.as_str(), o.metadata.namespace.as_str()));
            }
        },
        _ => {},
    }
    proposal.set_creator(creator);
    let status = ProposalStatus::init(proposal.actions());
    proposal.set_status(status);
    proof {
        proposal.lemma_proposal_view();
    }
    Ok(proposal)
}

/// Makes a proposal of a kind from its JSON text, for the organization
/// that calls. The uid counter must not stand at the last `u64`, else the
/// request is refused.
pub fn create(model: &mut ChainModel, kind: Kind, object: Vec<u8>, namespace: String, creator: String) -> (r: Result<
    u64,
    ContractError,
>)
    requires
        old(model).context.wf(),
        kind is Proposal || kind is GlobalProposal,
    ensures
        final(model).context.wf(),
        final(model).context.sender() == old(model).context.sender(),
        final(model).context.counter() == counter_after_create(
            old(model).rows(),
            old(model).context.counter(),
            kind,
            object@,
            namespace@,
            creator@,
        ),
        match create_spec(old(model).rows(), old(model).context.counter(), kind, object@, namespace@, creator@) {
            Ok((rows, uid)) => r == Ok::<u64, ContractError>(uid) && final(model).rows() == rows && final(model).context.counter() == uid + 1,
            Err(f) => r matches Err(e) && fault(e) == f && final(model).rows() == old(model).rows(),
        },
        old(model).wf() ==> final(model).wf(),
{
    let mut proposal = match draft(kind, &object, namespace, creator) {
        Ok(p) => p,
        Err(e) => { return Err(e); },
    };
    match check_support(model, scope(&proposal), proposal.actions()) {
        Ok(()) => {},
        Err(e) => { return Err(e); },
    }
    if model.ctx().next_uid() == u64::MAX {
        return Err(ContractError::ChainModel(ChainModelError::StateError(String::from_str("no uid is left"))));
    }
    let new_uid = model.new_uid();
    proposal.set_uid(new_uid);
    let meta = proposal.type_meta().copy();
    match model.get_raw_object_by_name_version(&meta, proposal.name(), proposal.namespace(), proposal.version()) {
        Ok(Some(_)) => { return Err(ContractError::Proposal(ProposalError::Conlict)); },
        Ok(None) => {},
        Err(e) => { return Err(ContractError::ChainModel(e)); },
    }
    match store(model, &proposal) {
        Ok(()) => {},
        Err(e) => { return Err(e); },
    }
    Ok(new_uid)
}


/// A proposal that is no longer active stays as it is: it is neither
/// permitted nor committed nor revoked, whoever asks.
pub proof fn lemma_inactive_is_final(
    rows: Seq<Row>,
    counter: u64,
    kind: Kind,
    p: PartsView,
    org: Seq<char>,
    allow: bool,
    comment: Seq<char>,
)
    requires
        !(state_of(p).stage is Active),
    ensures
        permit_spec(rows, kind, p, allow, comment, org) == Err::<Seq<Row>, Fault>(Fault::InActive(p.uid)),
        commit_spec(rows, counter, kind, p, org) == Err::<(Seq<Row>, u64, Seq<u8>), Fault>(Fault::InActive(p.uid)),
        revoke_spec(rows, kind, p, org) == Err::<Seq<Row>, Fault>(Fault::InActive(p.uid)),
{
}

} // verus!
