use vstd::prelude::*;
use vstd::string::*;
use crate::codec::index_key_of;
use crate::consistency::slot_free;
use crate::context::Row;
use crate::errors::{ActionFnError, ChainModelError, DeserializeError};
use crate::json::{json_decoded, texts_of, written, Json, JsonView};
use crate::model::{
    delete_result, named_text, or_empty, put_result, slot_field, stored, uids_of_kinds, ChainModel,
};
use crate::objects::approval::{all_approved, is_approver};
use crate::objects::dynamic::{kind_parsed, store_fault, DynamicObject, StoreFault};
use crate::objects::edit::{with_implementations, with_uid};
use crate::objects::kinds::Kind;
use crate::objects::meta::TypeMeta;
use crate::objects::parts::{fault_of, parts_tree, ParseFault, PartsView};
use crate::objects::v1::declare::implementations;
use crate::objects::v1::proposal::{
    ActionView, CreateObjectAction, DeleteObjectAction, ObjectByAction, OutcomeView, ProposalAction,
    UpdateObjectAction,
};
use crate::objects::v1::record::{lemma_record_spec, record_authors};
use crate::utils::textmap::TextMap;

verus! {

/// Why an action is refused.
pub enum ActionFault {
    /// The store refused a request.
    Store(StoreFault),
    /// The kind has no handler for the action of this name.
    ActionNotSupported(Seq<char>),
    /// The action, by its name, cannot be carried out on the objects as they are.
    NotSupport(Seq<char>),
    /// The organization has no say on the action of this name.
    NotRelevant(Seq<char>),
    /// An organization that has a say on the action of this name has not permitted.
    NotCommitable(Seq<char>),
    /// Carrying out the action of this name failed.
    ExecFailed(Seq<char>),
    /// An object does not read as one of its type.
    Parse(ParseFault),
}

/// The fault that an error of a handler reports.
pub open spec fn action_fault(e: ActionFnError) -> ActionFault {
    match e {
        ActionFnError::ChainModel(c) => ActionFault::Store(store_fault(c)),
        ActionFnError::ActionNotSupported(action) => ActionFault::ActionNotSupported(action@),
        ActionFnError::NotSupport(action, _) => ActionFault::NotSupport(action@),
        ActionFnError::NotRelevant(action, _) => ActionFault::NotRelevant(action@),
        ActionFnError::NotCommitable(action, _) => ActionFault::NotCommitable(action@),
        ActionFnError::ExecFailed(action, _) => ActionFault::ExecFailed(action@),
        ActionFnError::Deserialize(d) => ActionFault::Parse(fault_of(d)),
        ActionFnError::JsonError(_) => ActionFault::Store(StoreFault::Json),
    }
}

/// What a check says: nothing, or the fault.
pub open spec fn verdict(r: Result<(), ActionFnError>) -> Result<(), ActionFault> {
    match r {
        Ok(()) => Ok(()),
        Err(e) => Err(action_fault(e)),
    }
}

/// What a uid holds, read as an object of a kind: `None` where it holds nothing.
pub open spec fn held(rows: Seq<Row>, kind: Kind, uid: u64) -> Option<Result<PartsView, ParseFault>> {
    if stored(rows, uid).len() == 0 {
        None
    } else {
        Some(
            match json_decoded(stored(rows, uid)) {
                Some(j) => kind_parsed(kind, j),
                None => Err(ParseFault::Malformed),
            },
        )
    }
}

/// Whether the index names an object of the kind under the namespace, the
/// name and the version of these parts.
pub open spec fn name_taken(rows: Seq<Row>, kind: Kind, p: PartsView) -> Result<bool, StoreFault> {
    match named_text(
        rows,
        index_key_of(kind.meta().api_version, kind.meta().kind, or_empty(p.namespace), p.name),
        slot_field(p),
    ) {
        Ok(Some(_)) => Ok(true),
        Ok(None) => Ok(false),
        Err(fault) => Err(fault),
    }
}

/// A record must have an author, and none twice; other kinds ask nothing.
pub open spec fn authors_in_order(kind: Kind, p: PartsView) -> bool {
    kind is Record ==> record_authors(p.spec).len() > 0 && record_authors(p.spec).no_duplicates()
}

/// Kinds whose making asks nobody's leave.
pub open spec fn is_declaration(kind: Kind) -> bool {
    kind is DataDeclare || kind is FunctionDeclare
}

/// Whether making an object is possible: it must read as one of its kind,
/// and its name must be free.
pub open spec fn create_support_spec(rows: Seq<Row>, kind: Kind, object: JsonView) -> Result<(), ActionFault> {
    match kind_parsed(kind, object) {
        Ok(p) => match name_taken(rows, kind, p) {
            Ok(taken) => if taken || !authors_in_order(kind, p) {
                Err(ActionFault::NotSupport("create"@))
            } else {
                Ok(())
            },
            Err(fault) => Err(ActionFault::Store(fault)),
        },
        Err(fault) => Err(ActionFault::Parse(fault)),
    }
}

/// Whether an organization has a say on making an object. Everybody has on a declaration.
pub open spec fn create_relevant_spec(kind: Kind, object: JsonView, org: Seq<char>) -> Result<(), ActionFault> {
    if is_declaration(kind) {
        Ok(())
    } else {
        match kind_parsed(kind, object) {
            Ok(p) => if is_approver(kind, p, org) {
                Ok(())
            } else {
                Err(ActionFault::NotRelevant("create"@))
            },
            Err(fault) => Err(ActionFault::Parse(fault)),
        }
    }
}

/// Whether all who have a say on making an object have permitted.
pub open spec fn create_commitable_spec(kind: Kind, object: JsonView, permitted: Seq<(Seq<char>, Seq<char>)>) -> Result<
    (),
    ActionFault,
> {
    if is_declaration(kind) {
        Ok(())
    } else {
        match kind_parsed(kind, object) {
            Ok(p) => if all_approved(kind, p, permitted) {
                Ok(())
            } else {
                Err(ActionFault::NotCommitable("create"@))
            },
            Err(fault) => Err(ActionFault::Parse(fault)),
        }
    }
}

/// The object that making stores: the one read, with the uid it is given;
/// a declaration starts without implementations.
pub open spec fn created(kind: Kind, p: PartsView, uid: u64) -> PartsView {
    if is_declaration(kind) {
        with_implementations(with_uid(p, uid), Seq::empty())
    } else {
        with_uid(p, uid)
    }
}

/// What making an object does: the rows after it and the result, or the
/// fault. The object is not made where another object is indexed under its name.
pub open spec fn create_exec_spec(rows: Seq<Row>, counter: u64, kind: Kind, object: JsonView) -> Result<
    (Seq<Row>, OutcomeView),
    ActionFault,
> {
    match kind_parsed(kind, object) {
        Ok(p) => if counter == u64::MAX {
            Err(ActionFault::ExecFailed("create"@))
        } else {
            let made = created(kind, p, counter);
            if !slot_free(rows, made) {
                Err(ActionFault::ExecFailed("create"@))
            } else {
                match put_result(rows, kind, made, written(parts_tree(made))) {
                    Ok(after) => Ok((after, OutcomeView::Create(parts_tree(made)))),
                    Err(fault) => Err(ActionFault::Store(fault)),
                }
            }
        },
        Err(fault) => Err(ActionFault::Parse(fault)),
    }
}

/// Whether deleting an object is possible: the uid must hold an object of the kind.
pub open spec fn delete_support_spec(rows: Seq<Row>, kind: Kind, uid: u64) -> Result<(), ActionFault> {
    match held(rows, kind, uid) {
        Some(Ok(_)) => Ok(()),
        Some(Err(fault)) => Err(ActionFault::Parse(fault)),
        None => Err(ActionFault::NotSupport("delete"@)),
    }
}

/// Whether an organization has a say on deleting an object.
pub open spec fn delete_relevant_spec(rows: Seq<Row>, kind: Kind, uid: u64, org: Seq<char>) -> Result<(), ActionFault> {
    match held(rows, kind, uid) {
        Some(Ok(p)) => if is_approver(kind, p, org) {
            Ok(())
        } else {
            Err(ActionFault::NotRelevant("delete"@))
        },
        Some(Err(fault)) => Err(ActionFault::Parse(fault)),
        None => Err(ActionFault::NotRelevant("delete"@)),
    }
}

/// Whether all who have a say on deleting an object have permitted.
pub open spec fn delete_commitable_spec(
    rows: Seq<Row>,
    kind: Kind,
    uid: u64,
    permitted: Seq<(Seq<char>, Seq<char>)>,
) -> Result<(), ActionFault> {
    match held(rows, kind, uid) {
        Some(Ok(p)) => if all_approved(kind, p, permitted) {
            Ok(())
        } else {
            Err(ActionFault::NotCommitable("delete"@))
        },
        Some(Err(fault)) => Err(ActionFault::Parse(fault)),
        None => Err(ActionFault::NotCommitable("delete"@)),
    }
}

/// The rows after the objects under the first `n` of some uids are deleted, one after the other.
pub open spec fn deleted_all(rows: Seq<Row>, uids: Seq<u64>, n: nat) -> Result<Seq<Row>, StoreFault>
    decreases n,
{
    if n == 0 || n > uids.len() {
        Ok(rows)
    } else {
        match deleted_all(rows, uids, (n - 1) as nat) {
            Ok(before) => match delete_result(before, uids[n - 1]) {
                Ok((after, _)) => Ok(after),
                Err(fault) => Err(fault),
            },
            Err(fault) => Err(fault),
        }
    }
}

/// The rows after what lies in a namespace is deleted: every object that the
/// index holds for any kind under the name of the namespace.
pub open spec fn emptied(rows: Seq<Row>, namespace: Seq<char>) -> Result<Seq<Row>, StoreFault> {
    match uids_of_kinds(rows, namespace, 7) {
        Some(uids) => deleted_all(rows, uids, uids.len()),
        None => Err(StoreFault::State),
    }
}

/// The uid under which an object is deleted: that which the stored object
/// carries; for a record that which the action names.
pub open spec fn delete_target(kind: Kind, p: PartsView, uid: u64) -> u64 {
    if kind is Record {
        uid
    } else {
        p.uid
    }
}

/// What deleting an object does: a namespace is emptied first, then the
/// object goes, with its index entry.
pub open spec fn delete_exec_spec(rows: Seq<Row>, kind: Kind, uid: u64) -> Result<(Seq<Row>, OutcomeView), ActionFault> {
    match held(rows, kind, uid) {
        Some(Ok(p)) => {
            let cleared = if kind is Namespace {
                emptied(rows, p.name)
            } else {
                Ok(rows)
            };
            match cleared {
                Ok(before) => match delete_result(before, delete_target(kind, p, uid)) {
                    Ok((after, _)) => Ok((after, OutcomeView::Delete(parts_tree(p)))),
                    Err(fault) => Err(ActionFault::Store(fault)),
                },
                Err(fault) => Err(ActionFault::Store(fault)),
            }
        },
        Some(Err(fault)) => Err(ActionFault::Parse(fault)),
        None => Err(ActionFault::ExecFailed("delete"@)),
    }
}

/// Whether putting a new object in the place of the one under a uid is
/// possible: both must read as objects of the kind; where the name changes,
/// the new name must be free; and the new object must carry no uid, or that
/// of the old one.
pub open spec fn update_support_spec(rows: Seq<Row>, kind: Kind, uid: u64, object: JsonView) -> Result<(), ActionFault> {
    match kind_parsed(kind, object) {
        Ok(new) => match held(rows, kind, uid) {
            Some(Ok(old)) => {
                let taken = if old.name != new.name {
                    name_taken(rows, kind, new)
                } else {
                    Ok(false)
                };
                match taken {
                    Ok(t) => if t || (new.uid != 0 && old.uid != new.uid) {
                        Err(ActionFault::NotSupport("update"@))
                    } else {
                        Ok(())
                    },
                    Err(fault) => Err(ActionFault::Store(fault)),
                }
            },
            Some(Err(fault)) => Err(ActionFault::Parse(fault)),
            None => Err(ActionFault::NotSupport("update"@)),
        },
        Err(fault) => Err(ActionFault::Parse(fault)),
    }
}

/// Whether an organization has a say on an update: on that of a declaration
/// those that have implemented it, on that of a record the authors of the
/// old one and of the new one.
pub open spec fn update_relevant_spec(rows: Seq<Row>, kind: Kind, uid: u64, object: JsonView, org: Seq<char>) -> Result<
    (),
    ActionFault,
> {
    match held(rows, kind, uid) {
        Some(old) => if kind is Record {
            match (kind_parsed(kind, object), old) {
                (Ok(new), Ok(old)) => if is_approver(kind, old, org) || is_approver(kind, new, org) {
                    Ok(())
                } else {
                    Err(ActionFault::NotRelevant("update"@))
                },
                (Err(fault), _) => Err(ActionFault::Parse(fault)),
                (_, Err(fault)) => Err(ActionFault::Parse(fault)),
            }
        } else {
            match old {
                Ok(old) => if is_approver(kind, old, org) {
                    Ok(())
                } else {
                    Err(ActionFault::NotRelevant("update"@))
                },
                Err(fault) => Err(ActionFault::Parse(fault)),
            }
        },
        None => Err(ActionFault::NotSupport("update"@)),
    }
}

/// Whether all who have a say on an update have permitted.
pub open spec fn update_commitable_spec(
    rows: Seq<Row>,
    kind: Kind,
    uid: u64,
    object: JsonView,
    permitted: Seq<(Seq<char>, Seq<char>)>,
) -> Result<(), ActionFault> {
    match held(rows, kind, uid) {
        Some(old) => if kind is Record {
            match (kind_parsed(kind, object), old) {
                (Ok(new), Ok(old)) => if all_approved(kind, old, permitted) && all_approved(kind, new, permitted) {
                    Ok(())
                } else {
                    Err(ActionFault::NotCommitable("update"@))
                },
                (Err(fault), _) => Err(ActionFault::Parse(fault)),
                (_, Err(fault)) => Err(ActionFault::Parse(fault)),
            }
        } else {
            match old {
                Ok(old) => if all_approved(kind, old, permitted) {
                    Ok(())
                } else {
                    Err(ActionFault::NotCommitable("update"@))
                },
                Err(fault) => Err(ActionFault::Parse(fault)),
            }
        },
        None => Err(ActionFault::NotSupport("update"@)),
    }
}

/// The object that an update stores: the new one, under the uid of the
/// action; a declaration keeps the implementations of the old one.
pub open spec fn updated(kind: Kind, old: PartsView, new: PartsView, uid: u64) -> PartsView {
    if is_declaration(kind) {
        with_implementations(with_uid(new, uid), implementations(old.status)->0)
    } else {
        with_uid(new, uid)
    }
}

/// What an update does: the rows after it and the result, or the fault.
/// Nothing is stored where another object is indexed under the new name.
pub open spec fn update_exec_spec(rows: Seq<Row>, kind: Kind, uid: u64, object: JsonView) -> Result<
    (Seq<Row>, OutcomeView),
    ActionFault,
> {
    match kind_parsed(kind, object) {
        Ok(new) => match held(rows, kind, uid) {
            Some(Ok(old)) => {
                let put = updated(kind, old, new, uid);
                if !slot_free(rows, put) {
                    Err(ActionFault::ExecFailed("update"@))
                } else {
                    match put_result(rows, kind, put, written(parts_tree(put))) {
                        Ok(after) => Ok(
                            (after, OutcomeView::Update { old: parts_tree(old), updated: parts_tree(put) }),
                        ),
                        Err(fault) => Err(ActionFault::Store(fault)),
                    }
                }
            },
            Some(Err(fault)) => Err(ActionFault::Parse(fault)),
            None => Err(ActionFault::NotSupport("update"@)),
        },
        Err(fault) => Err(ActionFault::Parse(fault)),
    }
}

/// Reads what a uid holds as an object of a kind.
pub fn read_held(model: &ChainModel, kind: Kind, uid: u64) -> (r: Result<Option<DynamicObject>, ActionFnError>)
    requires
        model.context.wf(),
    ensures
        match held(model.rows(), kind, uid) {
            Some(Ok(p)) => r matches Ok(Some(o)) && o@ == p && o.spec_kind() == kind && o.valid(),
            Some(Err(fault)) => r matches Err(e) && action_fault(e) == ActionFault::Parse(fault),
            None => r matches Ok(None),
        },
{
    let raw = match model.get_raw_object_by_uid(uid) {
        Ok(Some(v)) => v,
        Ok(None) => { return Ok(None); },
        Err(e) => { return Err(ActionFnError::ChainModel(e)); },
    };
    let value = match Json::parse(raw.as_slice()) {
        Ok(j) => j,
        Err(msg) => { return Err(ActionFnError::Deserialize(DeserializeError::JsonError(msg))); },
    };
    match DynamicObject::parse_kind(kind, &value) {
        Ok(o) => Ok(Some(o)),
        Err(e) => Err(ActionFnError::Deserialize(e)),
    }
}

/// Reads the object of an action as one of a kind.
pub fn read_new(kind: Kind, object: &Json) -> (r: Result<DynamicObject, ActionFnError>)
    requires
        object@.well_formed(),
    ensures
        match kind_parsed(kind, object@) {
            Ok(p) => r matches Ok(o) && o@ == p && o.spec_kind() == kind && o.valid(),
            Err(fault) => r matches Err(e) && action_fault(e) == ActionFault::Parse(fault),
        },
{
    match DynamicObject::parse_kind(kind, object) {
        Ok(o) => Ok(o),
        Err(e) => Err(ActionFnError::Deserialize(e)),
    }
}

/// Whether the index names an object of the kind under the name and namespace of an object.
pub fn is_name_taken(model: &ChainModel, kind: Kind, obj: &DynamicObject) -> (r: Result<bool, ActionFnError>)
    requires
        model.context.wf(),
    ensures
        match name_taken(model.rows(), kind, obj@) {
            Ok(taken) => r == Ok::<bool, ActionFnError>(taken),
            Err(fault) => r matches Err(e) && action_fault(e) == ActionFault::Store(fault),
        },
{
    let meta = kind.type_meta();
    match model.get_raw_object_by_name_version(&meta, obj.name(), obj.namespace(), obj.version()) {
        Ok(Some(_)) => Ok(true),
        Ok(None) => Ok(false),
        Err(e) => Err(ActionFnError::ChainModel(e)),
    }
}

/// An error that says an action cannot be carried out.
pub fn not_support(action: &str, reason: &str) -> (e: ActionFnError)
    ensures
        action_fault(e) == ActionFault::NotSupport(action@),
        e matches ActionFnError::NotSupport(a, b) && a@ == action@ && b@ == reason@,
{
    ActionFnError::NotSupport(String::from_str(action), String::from_str(reason))
}

/// An error that says an organization has no say.
pub fn not_relevant(action: &str, reason: &str) -> (e: ActionFnError)
    ensures
        action_fault(e) == ActionFault::NotRelevant(action@),
        e matches ActionFnError::NotRelevant(a, b) && a@ == action@ && b@ == reason@,
{
    ActionFnError::NotRelevant(String::from_str(action), String::from_str(reason))
}

/// An error that says a permit is missing.
pub fn not_commitable(action: &str, reason: &str) -> (e: ActionFnError)
    ensures
        action_fault(e) == ActionFault::NotCommitable(action@),
        e matches ActionFnError::NotCommitable(a, b) && a@ == action@ && b@ == reason@,
{
    ActionFnError::NotCommitable(String::from_str(action), String::from_str(reason))
}

/// An error that says carrying out failed.
pub fn exec_failed(action: &str, reason: &str) -> (e: ActionFnError)
    ensures
        action_fault(e) == ActionFault::ExecFailed(action@),
        e matches ActionFnError::ExecFailed(a, b) && a@ == action@ && b@ == reason@,
{
    ActionFnError::ExecFailed(String::from_str(action), String::from_str(reason))
}

/// Whether no string occurs twice in a list.
pub fn distinct_texts(list: &Vec<String>) -> (r: bool)
    ensures
        r == texts_of(list@).no_duplicates(),
{
    let mut i: usize = 0;
    while i < list.len()
        invariant
            i <= list.len(),
            forall|a: int, b: int| 0 <= a < b < i ==> texts_of(list@)[a] != texts_of(list@)[b],
        decreases list.len() - i,
    {
        let mut k: usize = 0;
        while k < i
            invariant
                k <= i,
                i < list.len(),
                forall|a: int| 0 <= a < k ==> texts_of(list@)[a] != texts_of(list@)[i as int],
            decreases i - k,
        {
            if list[k] == list[i] {
                assert(texts_of(list@)[k as int] == texts_of(list@)[i as int]);
                return false;
            }
            k = k + 1;
        }
        i = i + 1;
    }
    true
}

/// Whether a record has an author, and none twice; true of any other object.
fn check_authors(obj: &DynamicObject) -> (r: bool)
    ensures
        r == authors_in_order(obj.spec_kind(), obj@),
{
    match obj {
        DynamicObject::Record(o) => {
            proof {
                lemma_record_spec(o.spec.content@, texts_of(o.spec.authors@));
            }
            o.spec.authors.len() > 0 && distinct_texts(&o.spec.authors)
        },
        _ => true,
    }
}

/// Whether making the object of an action is possible.
pub fn create_support(model: &ChainModel, kind: Kind, action: &CreateObjectAction) -> (r: Result<(), ActionFnError>)
    requires
        model.context.wf(),
        action.object@.well_formed(),
    ensures
        verdict(r) == create_support_spec(model.rows(), kind, action.object@),
{
    let obj = match read_new(kind, &action.object) {
        Ok(o) => o,
        Err(e) => { return Err(e); },
    };
    let taken = match is_name_taken(model, kind, &obj) {
        Ok(t) => t,
        Err(e) => { return Err(e); },
    };
    if taken {
        return Err(not_support("create", "duplicate in name or version"));
    }
    if !check_authors(&obj) {
        return Err(not_support("create", "record author can't be empty or duplicate"));
    }
    Ok(())
}

/// Whether an organization has a say on making the object of an action.
pub fn create_relevent(model: &ChainModel, kind: Kind, action: &CreateObjectAction, org_id: &str) -> (r: Result<
    (),
    ActionFnError,
>)
    requires
        action.object@.well_formed(),
    ensures
        verdict(r) == create_relevant_spec(kind, action.object@, org_id@),
{
    match kind {
        Kind::DataDeclare => { return Ok(()); },
        Kind::FunctionDeclare => { return Ok(()); },
        _ => {},
    }
    let obj = match read_new(kind, &action.object) {
        Ok(o) => o,
        Err(e) => { return Err(e); },
    };
    if obj.has_approver(org_id) {
        Ok(())
    } else {
        Err(not_relevant("create", "you have no say on this object"))
    }
}

/// Whether all who have a say on making the object of an action have permitted.
pub fn create_commitable(model: &ChainModel, kind: Kind, action: &CreateObjectAction, permitted: &TextMap) -> (r: Result<
    (),
    ActionFnError,
>)
    requires
        action.object@.well_formed(),
    ensures
        verdict(r) == create_commitable_spec(kind, action.object@, permitted@),
{
    match kind {
        Kind::DataDeclare => { return Ok(()); },
        Kind::FunctionDeclare => { return Ok(()); },
        _ => {},
    }
    let obj = match read_new(kind, &action.object) {
        Ok(o) => o,
        Err(e) => { return Err(e); },
    };
    if obj.approved_by_all(permitted) {
        Ok(())
    } else {
        Err(not_commitable("create", "not permitted by all who have a say"))
    }
}

/// Makes the object of an action: it is given the next uid and stored.
pub fn create_exec(model: &mut ChainModel, kind: Kind, action: &CreateObjectAction) -> (r: Result<
    ObjectByAction,
    ActionFnError,
>)
    requires
        old(model).context.wf(),
        action.object@.well_formed(),
    ensures
        final(model).context.wf(),
        final(model).context.sender() == old(model).context.sender(),
        old(model).wf() ==> final(model).wf(),
        match create_exec_spec(old(model).rows(), old(model).context.counter(), kind, action.object@) {
            Ok((rows, outcome)) => r matches Ok(o) && o@ == outcome && outcome.well_formed() && final(model).rows() == rows
                && final(model).context.counter() == old(model).context.counter() + 1,
            Err(fault) => r matches Err(e) && action_fault(e) == fault && final(model).rows() == old(model).rows()
                && final(model).context.counter() == if kind_parsed(kind, action.object@) is Ok && old(model).context.counter() < u64::MAX {
                old(model).context.counter() + 1
            } else {
                old(model).context.counter() as int
            },
        },
{
    let mut obj = match read_new(kind, &action.object) {
        Ok(o) => o,
        Err(e) => { return Err(e); },
    };
    if model.ctx().next_uid() == u64::MAX {
        return Err(exec_failed("create", "no uid is left"));
    }
    let new_uid = model.new_uid();
    obj.set_uid(new_uid);
    obj.set_implementations(TextMap::new());
    if !model.slot_is_free(&obj) {
        return Err(exec_failed("create", "another object has this name"));
    }
    match model.put_object(&obj) {
        Ok(()) => {},
        Err(e) => { return Err(ActionFnError::ChainModel(e)); },
    }
    Ok(ObjectByAction::Create(obj.to_value()))
}

/// Whether deleting the object of an action is possible.
pub fn delete_support(model: &ChainModel, kind: Kind, action: &DeleteObjectAction) -> (r: Result<(), ActionFnError>)
    requires
        model.context.wf(),
    ensures
        verdict(r) == delete_support_spec(model.rows(), kind, action.uid),
{
    match read_held(model, kind, action.uid) {
        Ok(Some(_)) => Ok(()),
        Ok(None) => Err(not_support("delete", "object to delete not exist")),
        Err(e) => Err(e),
    }
}

/// Whether an organization has a say on deleting the object of an action.
pub fn delete_relevent(model: &ChainModel, kind: Kind, action: &DeleteObjectAction, org_id: &str) -> (r: Result<
    (),
    ActionFnError,
>)
    requires
        model.context.wf(),
    ensures
        verdict(r) == delete_relevant_spec(model.rows(), kind, action.uid, org_id@),
{
    match read_held(model, kind, action.uid) {
        Ok(Some(obj)) => if obj.has_approver(org_id) {
            Ok(())
        } else {
            Err(not_relevant("delete", "you have no say on this object"))
        },
        Ok(None) => Err(not_relevant("delete", "object not found")),
        Err(e) => Err(e),
    }
}

/// Whether all who have a say on deleting the object of an action have permitted.
pub fn delete_commitable(model: &ChainModel, kind: Kind, action: &DeleteObjectAction, permitted: &TextMap) -> (r: Result<
    (),
    ActionFnError,
>)
    requires
        model.context.wf(),
    ensures
        verdict(r) == delete_commitable_spec(model.rows(), kind, action.uid, permitted@),
{
    match read_held(model, kind, action.uid) {
        Ok(Some(obj)) => if obj.approved_by_all(permitted) {
            Ok(())
        } else {
            Err(not_commitable("delete", "not permitted by all who have a say"))
        },
        Ok(None) => Err(not_commitable("delete", "object not found")),
        Err(e) => Err(e),
    }
}

/// Deletes the objects under some uids, one after the other. Where a
/// delete is refused, the rows are left as the deletes before it made them.
fn delete_all(model: &mut ChainModel, uids: &Vec<u64>) -> (r: Result<(), ChainModelError>)
    requires
        old(model).context.wf(),
    ensures
        final(model).context.wf(),
        final(model).context.same_call(&old(model).context),
        old(model).wf() ==> final(model).wf(),
        match deleted_all(old(model).rows(), uids@, uids@.len()) {
            Ok(rows) => r is Ok && final(model).rows() == rows,
            Err(fault) => r matches Err(e) && store_fault(e) == fault,
        },
{
    let mut i: usize = 0;
    while i < uids.len()
        invariant
            i <= uids.len(),
            model.context.wf(),
            model.context.same_call(&old(model).context),
            old(model).wf() ==> model.wf(),
            deleted_all(old(model).rows(), uids@, i as nat) == Ok::<Seq<Row>, StoreFault>(model.rows()),
        decreases uids.len() - i,
    {
        match model.delete_object_by_uid(uids[i]) {
            Ok(_) => {},
            Err(e) => {
                proof {
                    lemma_deleted_all_fault(old(model).rows(), uids@, (i + 1) as nat, uids@.len());
                }
                return Err(e);
            },
        }
        i = i + 1;
    }
    Ok(())
}

/// Where the first deletes are refused, more deletes are refused with the same fault.
pub proof fn lemma_deleted_all_fault(rows: Seq<Row>, uids: Seq<u64>, n: nat, m: nat)
    requires
        n <= m <= uids.len(),
        deleted_all(rows, uids, n) is Err,
    ensures
        deleted_all(rows, uids, m) == deleted_all(rows, uids, n),
    decreases m,
{
    if n < m {
        lemma_deleted_all_fault(rows, uids, n, (m - 1) as nat);
    }
}

/// Deletes the object of an action; a namespace is emptied first. Where
/// the store refuses a delete while a namespace is emptied, the rows are
/// left as the deletes before it made them; any other failure changes nothing.
pub fn delete_exec(model: &mut ChainModel, kind: Kind, action: &DeleteObjectAction) -> (r: Result<
    ObjectByAction,
    ActionFnError,
>)
    requires
        old(model).context.wf(),
    ensures
        final(model).context.wf(),
        final(model).context.same_call(&old(model).context),
        old(model).wf() ==> final(model).wf(),
        match delete_exec_spec(old(model).rows(), kind, action.uid) {
            Ok((rows, outcome)) => r matches Ok(o) && o@ == outcome && outcome.well_formed() && final(model).rows() == rows,
            Err(fault) => r matches Err(e) && action_fault(e) == fault && (!(kind is Namespace) ==> final(model).rows()
                == old(model).rows()),
        },
{
    let uid = action.uid;
    let obj = match read_held(model, kind, uid) {
        Ok(Some(o)) => o,
        Ok(None) => { return Err(exec_failed("delete", "object to delete not exist")); },
        Err(e) => { return Err(e); },
    };
    match kind {
        Kind::Namespace => {
            let uids = match model.get_uid_by_ns(obj.name()) {
                Ok(u) => u,
                Err(e) => { return Err(ActionFnError::ChainModel(e)); },
            };
            match delete_all(model, &uids) {
                Ok(()) => {},
                Err(e) => { return Err(ActionFnError::ChainModel(e)); },
            }
        },
        _ => {},
    }
    let target = match kind {
        Kind::Record => uid,
        _ => obj.uid(),
    };
    match model.delete_object_by_uid(target) {
        Ok(_) => {},
        Err(e) => { return Err(ActionFnError::ChainModel(e)); },
    }
    Ok(ObjectByAction::Delete(obj.to_value()))
}

/// Whether the update of an action is possible.
pub fn update_support(model: &ChainModel, kind: Kind, action: &UpdateObjectAction) -> (r: Result<(), ActionFnError>)
    requires
        model.context.wf(),
        action.object@.well_formed(),
    ensures
        verdict(r) == update_support_spec(model.rows(), kind, action.uid, action.object@),
{
    let obj = match read_new(kind, &action.object) {
        Ok(o) => o,
        Err(e) => { return Err(e); },
    };
    let old_obj = match read_held(model, kind, action.uid) {
        Ok(Some(o)) => o,
        Ok(None) => { return Err(not_support("update", "object not exist")); },
        Err(e) => { return Err(e); },
    };
    if !crate::text::same_text(old_obj.name(), obj.name()) {
        let taken = match is_name_taken(model, kind, &obj) {
            Ok(t) => t,
            Err(e) => { return Err(e); },
        };
        if taken {
            return Err(not_support("update", "duplicate in name or version"));
        }
    }
    if obj.uid() != 0 && old_obj.uid() != obj.uid() {
        return Err(not_support("update", "uid mismatch"));
    }
    Ok(())
}

/// Whether an organization has a say on the update of an action.
pub fn update_relevent(model: &ChainModel, kind: Kind, action: &UpdateObjectAction, org_id: &str) -> (r: Result<
    (),
    ActionFnError,
>)
    requires
        model.context.wf(),
        action.object@.well_formed(),
    ensures
        verdict(r) == update_relevant_spec(model.rows(), kind, action.uid, action.object@, org_id@),
{
    let raw = match model.get_raw_object_by_uid(action.uid) {
        Ok(v) => v,
        Err(e) => { return Err(ActionFnError::ChainModel(e)); },
    };
    if raw.is_none() {
        return Err(not_support("update", "object not exist"));
    }
    match kind {
        Kind::Record => {
            let new = match read_new(kind, &action.object) {
                Ok(o) => o,
                Err(e) => { return Err(e); },
            };
            let old = match read_held(model, kind, action.uid) {
                Ok(Some(o)) => o,
                Ok(None) => { return Err(not_support("update", "object not exist")); },
                Err(e) => { return Err(e); },
            };
            if old.has_approver(org_id) || new.has_approver(org_id) {
                Ok(())
            } else {
                Err(not_relevant("update", "you have no say on this object"))
            }
        },
        _ => {
            let old = match read_held(model, kind, action.uid) {
                Ok(Some(o)) => o,
                Ok(None) => { return Err(not_support("update", "object not exist")); },
                Err(e) => { return Err(e); },
            };
            if old.has_approver(org_id) {
                Ok(())
            } else {
                Err(not_relevant("update", "you have no say on this object"))
            }
        },
    }
}

/// Whether all who have a say on the update of an action have permitted.
pub fn update_commitable(model: &ChainModel, kind: Kind, action: &UpdateObjectAction, permitted: &TextMap) -> (r: Result<
    (),
    ActionFnError,
>)
    requires
        model.context.wf(),
        action.object@.well_formed(),
    ensures
        verdict(r) == update_commitable_spec(model.rows(), kind, action.uid, action.object@, permitted@),
{
    let raw = match model.get_raw_object_by_uid(action.uid) {
        Ok(v) => v,
        Err(e) => { return Err(ActionFnError::ChainModel(e)); },
    };
    if raw.is_none() {
        return Err(not_support("update", "object not exist"));
    }
    match kind {
        Kind::Record => {
            let new = match read_new(kind, &action.object) {
                Ok(o) => o,
                Err(e) => { return Err(e); },
            };
            let old = match read_held(model, kind, action.uid) {
                Ok(Some(o)) => o,
                Ok(None) => { return Err(not_support("update", "object not exist")); },
                Err(e) => { return Err(e); },
            };
            if old.approved_by_all(permitted) && new.approved_by_all(permitted) {
                Ok(())
            } else {
                Err(not_commitable("update", "not permitted by all who have a say"))
            }
        },
        _ => {
            let old = match read_held(model, kind, action.uid) {
                Ok(Some(o)) => o,
                Ok(None) => { return Err(not_support("update", "object not exist")); },
                Err(e) => { return Err(e); },
            };
            if old.approved_by_all(permitted) {
                Ok(())
            } else {
                Err(not_commitable("update", "not permitted by all who have a say"))
            }
        },
    }
}

/// Carries out the update of an action: the new object is stored under the uid of the action.
pub fn update_exec(model: &mut ChainModel, kind: Kind, action: &UpdateObjectAction) -> (r: Result<
    ObjectByAction,
    ActionFnError,
>)
    requires
        old(model).context.wf(),
        action.object@.well_formed(),
    ensures
        final(model).context.wf(),
        final(model).context.same_call(&old(model).context),
        old(model).wf() ==> final(model).wf(),
        match update_exec_spec(old(model).rows(), kind, action.uid, action.object@) {
            Ok((rows, outcome)) => r matches Ok(o) && o@ == outcome && outcome.well_formed() && final(model).rows() == rows,
            Err(fault) => r matches Err(e) && action_fault(e) == fault && final(model).rows() == old(model).rows(),
        },
{
    let mut obj = match read_new(kind, &action.object) {
        Ok(o) => o,
        Err(e) => { return Err(e); },
    };
    let old_obj = match read_held(model, kind, action.uid) {
        Ok(Some(o)) => o,
        Ok(None) => { return Err(not_support("update", "object not exist")); },
        Err(e) => { return Err(e); },
    };
    obj.set_uid(action.uid);
    obj.set_implementations(old_obj.implementations());
    if !model.slot_is_free(&obj) {
        return Err(exec_failed("update", "another object has this name"));
    }
    match model.put_object(&obj) {
        Ok(()) => {},
        Err(e) => { return Err(ActionFnError::ChainModel(e)); },
    }
    Ok(ObjectByAction::Update { old: old_obj.to_value(), updated: obj.to_value() })
}

/// The handlers of a kind: which actions objects of the kind take.
#[derive(Debug)]
pub struct Controller {
    pub kind: Kind,
    /// Whether objects of the kind can be made by an action.
    pub create: bool,
    /// Whether objects of the kind can be updated by an action.
    pub update: bool,
    /// Whether objects of the kind can be deleted by an action.
    pub delete: bool,
}

impl Kind {
    /// Whether objects of the kind can be made by an action. Proposals cannot: they go through the workflow.
    pub open spec fn creates(self) -> bool {
        !(self is Proposal || self is GlobalProposal)
    }

    /// Whether objects of the kind can be updated by an action.
    pub open spec fn updates(self) -> bool {
        self is DataDeclare || self is FunctionDeclare || self is Record
    }

    /// Whether objects of the kind can be deleted by an action.
    pub open spec fn deletes(self) -> bool {
        !(self is Proposal || self is GlobalProposal)
    }

    /// The handlers of the kind.
    pub open spec fn handlers(self) -> Controller {
        Controller { kind: self, create: self.creates(), update: self.updates(), delete: self.deletes() }
    }

    /// The handlers of the kind.
    pub fn controller(self) -> (c: Controller)
        ensures
            c == self.handlers(),
    {
        match self {
            Kind::Namespace => Controller { kind: self, create: true, update: false, delete: true },
            Kind::Proposal => Controller { kind: self, create: false, update: false, delete: false },
            Kind::GlobalProposal => Controller { kind: self, create: false, update: false, delete: false },
            Kind::DataDeclare => Controller { kind: self, create: true, update: true, delete: true },
            Kind::FunctionDeclare => Controller { kind: self, create: true, update: true, delete: true },
            Kind::Contract => Controller { kind: self, create: true, update: false, delete: true },
            Kind::Record => Controller { kind: self, create: true, update: true, delete: true },
        }
    }
}

/// The handlers registered for a type; `None` for a type that the contract does not know.
pub fn controller(ty: &TypeMeta) -> (r: Option<Controller>)
    ensures
        match Kind::of(ty@) {
            Some(kind) => r == Some(kind.handlers()),
            None => r is None,
        },
{
    match Kind::lookup(ty) {
        Some(kind) => Some(kind.controller()),
        None => None,
    }
}

/// Every registered type with its handlers, in the order of registration.
pub fn controllers() -> (r: Vec<(TypeMeta, Controller)>)
    ensures
        r@.len() == 7,
        forall|i: int| 0 <= i < 7 ==> (#[trigger] r@[i]).0@ == Kind::at(i).meta() && r@[i].1 == Kind::at(i).handlers(),
{
    let kinds = Kind::all();
    let mut r: Vec<(TypeMeta, Controller)> = Vec::new();
    let mut i: usize = 0;
    while i < 7
        invariant
            i <= 7,
            kinds@.len() == 7,
            r@.len() == i,
            forall|n: int| 0 <= n < 7 ==> kinds@[n] == Kind::at(n),
            forall|n: int| 0 <= n < i ==> (#[trigger] r@[n]).0@ == Kind::at(n).meta() && r@[n].1 == Kind::at(n).handlers(),
        decreases 7 - i,
    {
        r.push((kinds[i].type_meta(), kinds[i].controller()));
        i = i + 1;
    }
    r
}

impl Controller {
    /// What the check of whether an action is possible says.
    pub open spec fn support_spec(self, rows: Seq<Row>, a: ActionView) -> Result<(), ActionFault> {
        match a {
            ActionView::Create { object } => if self.create {
                create_support_spec(rows, self.kind, object)
            } else {
                Err(ActionFault::ActionNotSupported("create"@))
            },
            ActionView::Update { uid, object } => if self.update {
                update_support_spec(rows, self.kind, uid, object)
            } else {
                Err(ActionFault::ActionNotSupported("update"@))
            },
            ActionView::Delete { uid } => if self.delete {
                delete_support_spec(rows, self.kind, uid)
            } else {
                Err(ActionFault::ActionNotSupported("delete"@))
            },
        }
    }

    /// What the check of whether an organization has a say on an action says.
    pub open spec fn relevant_spec(self, rows: Seq<Row>, a: ActionView, org: Seq<char>) -> Result<(), ActionFault> {
        match a {
            ActionView::Create { object } => if self.create {
                create_relevant_spec(self.kind, object, org)
            } else {
                Err(ActionFault::ActionNotSupported("create"@))
            },
            ActionView::Update { uid, object } => if self.update {
                update_relevant_spec(rows, self.kind, uid, object, org)
            } else {
                Err(ActionFault::ActionNotSupported("update"@))
            },
            ActionView::Delete { uid } => if self.delete {
                delete_relevant_spec(rows, self.kind, uid, org)
            } else {
                Err(ActionFault::ActionNotSupported("delete"@))
            },
        }
    }

    /// What the check of whether all who have a say on an action have permitted says.
    pub open spec fn commitable_spec(self, rows: Seq<Row>, a: ActionView, permitted: Seq<(Seq<char>, Seq<char>)>) -> Result<
        (),
        ActionFault,
    > {
        match a {
            ActionView::Create { object } => if self.create {
                create_commitable_spec(self.kind, object, permitted)
            } else {
                Err(ActionFault::ActionNotSupported("create"@))
            },
            ActionView::Update { uid, object } => if self.update {
                update_commitable_spec(rows, self.kind, uid, object, permitted)
            } else {
                Err(ActionFault::ActionNotSupported("update"@))
            },
            ActionView::Delete { uid } => if self.delete {
                delete_commitable_spec(rows, self.kind, uid, permitted)
            } else {
                Err(ActionFault::ActionNotSupported("delete"@))
            },
        }
    }

    /// What carrying out an action does: the rows after it and the result, or the fault.
    pub open spec fn exec_spec(self, rows: Seq<Row>, counter: u64, a: ActionView) -> Result<
        (Seq<Row>, OutcomeView),
        ActionFault,
    > {
        match a {
            ActionView::Create { object } => if self.create {
                create_exec_spec(rows, counter, self.kind, object)
            } else {
                Err(ActionFault::ActionNotSupported("create"@))
            },
            ActionView::Update { uid, object } => if self.update {
                update_exec_spec(rows, self.kind, uid, object)
            } else {
                Err(ActionFault::ActionNotSupported("update"@))
            },
            ActionView::Delete { uid } => if self.delete {
                delete_exec_spec(rows, self.kind, uid)
            } else {
                Err(ActionFault::ActionNotSupported("delete"@))
            },
        }
    }

    /// Whether an action is possible on the objects as they are, whoever has permitted.
    pub fn check_support(&self, model: &ChainModel, action: &ProposalAction) -> (r: Result<(), ActionFnError>)
        requires
            model.context.wf(),
            action@.well_formed(),
        ensures
            verdict(r) == self.support_spec(model.rows(), action@),
    {
        match action {
            ProposalAction::Create(it) => if self.create {
                create_support(model, self.kind, it)
            } else {
                Err(ActionFnError::ActionNotSupported(String::from_str("create")))
            },
            ProposalAction::Update(it) => if self.update {
                update_support(model, self.kind, it)
            } else {
                Err(ActionFnError::ActionNotSupported(String::from_str("update")))
            },
            ProposalAction::Delete(it) => if self.delete {
                delete_support(model, self.kind, it)
            } else {
                Err(ActionFnError::ActionNotSupported(String::from_str("delete")))
            },
        }
    }

    /// Whether an organization has a say on an action.
    pub fn check_relevent(&self, model: &ChainModel, action: &ProposalAction, org_id: &str) -> (r: Result<
        (),
        ActionFnError,
    >)
        requires
            model.context.wf(),
            action@.well_formed(),
        ensures
            verdict(r) == self.relevant_spec(model.rows(), action@, org_id@),
    {
        match action {
            ProposalAction::Create(it) => if self.create {
                create_relevent(model, self.kind, it, org_id)
            } else {
                Err(ActionFnError::ActionNotSupported(String::from_str("create")))
            },
            ProposalAction::Update(it) => if self.update {
                update_relevent(model, self.kind, it, org_id)
            } else {
                Err(ActionFnError::ActionNotSupported(String::from_str("update")))
            },
            ProposalAction::Delete(it) => if self.delete {
                delete_relevent(model, self.kind, it, org_id)
            } else {
                Err(ActionFnError::ActionNotSupported(String::from_str("delete")))
            },
        }
    }

    /// Whether all who have a say on an action are among those that have permitted.
    pub fn check_commitable(&self, model: &ChainModel, action: &ProposalAction, permitted: &TextMap) -> (r: Result<
        (),
        ActionFnError,
    >)
        requires
            model.context.wf(),
            action@.well_formed(),
        ensures
            verdict(r) == self.commitable_spec(model.rows(), action@, permitted@),
    {
        match action {
            ProposalAction::Create(it) => if self.create {
                create_commitable(model, self.kind, it, permitted)
            } else {
                Err(ActionFnError::ActionNotSupported(String::from_str("create")))
            },
            ProposalAction::Update(it) => if self.update {
                update_commitable(model, self.kind, it, permitted)
            } else {
                Err(ActionFnError::ActionNotSupported(String::from_str("update")))
            },
            ProposalAction::Delete(it) => if self.delete {
                delete_commitable(model, self.kind, it, permitted)
            } else {
                Err(ActionFnError::ActionNotSupported(String::from_str("delete")))
            },
        }
    }

    /// Carries out an action. Where it fails, the rows are unchanged,
    /// unless the action deletes a namespace and the store refuses a delete on the way.
    pub fn exec(&self, model: &mut ChainModel, action: &ProposalAction) -> (r: Result<ObjectByAction, ActionFnError>)
        requires
            old(model).context.wf(),
            action@.well_formed(),
        ensures
            final(model).context.wf(),
            final(model).context.sender() == old(model).context.sender(),
            final(model).context.counter() >= old(model).context.counter(),
            old(model).wf() ==> final(model).wf(),
            match self.exec_spec(old(model).rows(), old(model).context.counter(), action@) {
                Ok((rows, outcome)) => r matches Ok(o) && o@ == outcome && outcome.well_formed() && final(model).rows()
                    == rows && final(model).context.counter() == if action@ is Create {
                    old(model).context.counter() + 1
                } else {
                    old(model).context.counter() as int
                },
                Err(fault) => r matches Err(e) && action_fault(e) == fault && (!(action@ is Delete && self.kind is Namespace)
                    ==> final(model).rows() == old(model).rows()),
            },
    {
        match action {
            ProposalAction::Create(it) => if self.create {
                create_exec(model, self.kind, it)
            } else {
                Err(ActionFnError::ActionNotSupported(String::from_str("create")))
            },
            ProposalAction::Update(it) => if self.update {
                update_exec(model, self.kind, it)
            } else {
                Err(ActionFnError::ActionNotSupported(String::from_str("update")))
            },
            ProposalAction::Delete(it) => if self.delete {
                delete_exec(model, self.kind, it)
            } else {
                Err(ActionFnError::ActionNotSupported(String::from_str("delete")))
            },
        }
    }
}

} // verus!
