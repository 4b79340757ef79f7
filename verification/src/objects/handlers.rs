use vstd::prelude::*;
use crate::errors::ActionFnError;
use crate::model::ChainModel;
use crate::objects::controller::{
    action_fault, create_commitable, create_commitable_spec, create_exec, create_exec_spec, create_relevant_spec,
    create_relevent, create_support, create_support_spec, delete_commitable, delete_commitable_spec, delete_exec,
    delete_exec_spec, delete_relevant_spec, delete_relevent, delete_support, delete_support_spec, update_commitable,
    update_commitable_spec, update_exec, update_exec_spec, update_relevant_spec, update_relevent, update_support,
    update_support_spec, verdict,
};
use crate::objects::kinds::Kind;
use crate::objects::v1::contracts::Contract;
use crate::objects::v1::declare::{DataDeclare, FunctionDeclare};
use crate::objects::v1::namespace::Namespace;
use crate::objects::v1::proposal::{CreateObjectAction, DeleteObjectAction, ObjectByAction, UpdateObjectAction};
use crate::objects::v1::record::Record;
use crate::utils::textmap::TextMap;

verus! {

impl Namespace {
    /// Whether making a namespace by an action is possible.
    pub fn create_support(model: &ChainModel, action: &CreateObjectAction) -> (r: Result<(), ActionFnError>)
        requires
            model.context.wf(),
            action.object@.well_formed(),
        ensures
            verdict(r) == create_support_spec(model.rows(), Kind::Namespace, action.object@),
    {
        create_support(model, Kind::Namespace, action)
    }

    /// Whether an organization has a say on making a namespace.
    pub fn create_relevent(model: &ChainModel, action: &CreateObjectAction, org_id: &str) -> (r: Result<(), ActionFnError>)
        requires
            model.context.wf(),
            action.object@.well_formed(),
        ensures
            verdict(r) == create_relevant_spec(Kind::Namespace, action.object@, org_id@),
    {
        create_relevent(model, Kind::Namespace, action, org_id)
    }

    /// Whether all who have a say on making a namespace have permitted.
    pub fn create_commitable(model: &ChainModel, action: &CreateObjectAction, permitted: &TextMap) -> (r: Result<(), ActionFnError>)
        requires
            model.context.wf(),
            action.object@.well_formed(),
        ensures
            verdict(r) == create_commitable_spec(Kind::Namespace, action.object@, permitted@),
    {
        create_commitable(model, Kind::Namespace, action, permitted)
    }

    /// Makes a namespace: it is given the next uid and stored.
    pub fn create_exec(model: &mut ChainModel, action: &CreateObjectAction) -> (r: Result<ObjectByAction, ActionFnError>)
        requires
            old(model).context.wf(),
            action.object@.well_formed(),
        ensures
            final(model).context.wf(),
            old(model).wf() ==> final(model).wf(),
            match create_exec_spec(old(model).rows(), old(model).context.counter(), Kind::Namespace, action.object@) {
                Ok((rows, outcome)) => r matches Ok(o) && o@ == outcome && final(model).rows() == rows,
                Err(fault) => r matches Err(e) && action_fault(e) == fault && final(model).rows() == old(model).rows(),
            },
    {
        create_exec(model, Kind::Namespace, action)
    }

    /// Whether deleting a namespace by an action is possible.
    pub fn delete_support(model: &ChainModel, action: &DeleteObjectAction) -> (r: Result<(), ActionFnError>)
        requires
            model.context.wf(),
        ensures
            verdict(r) == delete_support_spec(model.rows(), Kind::Namespace, action.uid),
    {
        delete_support(model, Kind::Namespace, action)
    }

    /// Whether an organization has a say on deleting a namespace.
    pub fn delete_relevent(model: &ChainModel, action: &DeleteObjectAction, org_id: &str) -> (r: Result<(), ActionFnError>)
        requires
            model.context.wf(),
        ensures
            verdict(r) == delete_relevant_spec(model.rows(), Kind::Namespace, action.uid, org_id@),
    {
        delete_relevent(model, Kind::Namespace, action, org_id)
    }

    /// Whether all who have a say on deleting a namespace have permitted.
    pub fn delete_commitable(model: &ChainModel, action: &DeleteObjectAction, permitted: &TextMap) -> (r: Result<(), ActionFnError>)
        requires
            model.context.wf(),
        ensures
            verdict(r) == delete_commitable_spec(model.rows(), Kind::Namespace, action.uid, permitted@),
    {
        delete_commitable(model, Kind::Namespace, action, permitted)
    }

    /// Deletes a namespace: every object that lies in it is deleted first.
    pub fn delete_exec(model: &mut ChainModel, action: &DeleteObjectAction) -> (r: Result<ObjectByAction, ActionFnError>)
        requires
            old(model).context.wf(),
        ensures
            final(model).context.wf(),
            old(model).wf() ==> final(model).wf(),
            match delete_exec_spec(old(model).rows(), Kind::Namespace, action.uid) {
                Ok((rows, outcome)) => r matches Ok(o) && o@ == outcome && final(model).rows() == rows,
                Err(fault) => r matches Err(e) && action_fault(e) == fault,
            },
    {
        delete_exec(model, Kind::Namespace, action)
    }
}

impl DataDeclare {
    /// Whether making a data declaration by an action is possible.
    pub fn create_support(model: &ChainModel, action: &CreateObjectAction) -> (r: Result<(), ActionFnError>)
        requires
            model.context.wf(),
            action.object@.well_formed(),
        ensures
            verdict(r) == create_support_spec(model.rows(), Kind::DataDeclare, action.object@),
    {
        create_support(model, Kind::DataDeclare, action)
    }

    /// Whether an organization has a say on making a data declaration.
    pub fn create_relevent(model: &ChainModel, action: &CreateObjectAction, org_id: &str) -> (r: Result<(), ActionFnError>)
        requires
            model.context.wf(),
            action.object@.well_formed(),
        ensures
            verdict(r) == create_relevant_spec(Kind::DataDeclare, action.object@, org_id@),
    {
        create_relevent(model, Kind::DataDeclare, action, org_id)
    }

    /// Whether all who have a say on making a data declaration have permitted.
    pub fn create_commitable(model: &ChainModel, action: &CreateObjectAction, permitted: &TextMap) -> (r: Result<(), ActionFnError>)
        requires
            model.context.wf(),
            action.object@.well_formed(),
        ensures
            verdict(r) == create_commitable_spec(Kind::DataDeclare, action.object@, permitted@),
    {
        create_commitable(model, Kind::DataDeclare, action, permitted)
    }

    /// Makes a data declaration: it is given the next uid and stored.
    pub fn create_exec(model: &mut ChainModel, action: &CreateObjectAction) -> (r: Result<ObjectByAction, ActionFnError>)
        requires
            old(model).context.wf(),
            action.object@.well_formed(),
        ensures
            final(model).context.wf(),
            old(model).wf() ==> final(model).wf(),
            match create_exec_spec(old(model).rows(), old(model).context.counter(), Kind::DataDeclare, action.object@) {
                Ok((rows, outcome)) => r matches Ok(o) && o@ == outcome && final(model).rows() == rows,
                Err(fault) => r matches Err(e) && action_fault(e) == fault && final(model).rows() == old(model).rows(),
            },
    {
        create_exec(model, Kind::DataDeclare, action)
    }

    /// Whether updating a data declaration by an action is possible.
    pub fn update_support(model: &ChainModel, action: &UpdateObjectAction) -> (r: Result<(), ActionFnError>)
        requires
            model.context.wf(),
            action.object@.well_formed(),
        ensures
            verdict(r) == update_support_spec(model.rows(), Kind::DataDeclare, action.uid, action.object@),
    {
        update_support(model, Kind::DataDeclare, action)
    }

    /// Whether an organization has a say on updating a data declaration.
    pub fn update_relevent(model: &ChainModel, action: &UpdateObjectAction, org_id: &str) -> (r: Result<(), ActionFnError>)
        requires
            model.context.wf(),
            action.object@.well_formed(),
        ensures
            verdict(r) == update_relevant_spec(model.rows(), Kind::DataDeclare, action.uid, action.object@, org_id@),
    {
        update_relevent(model, Kind::DataDeclare, action, org_id)
    }

    /// Whether all who have a say on updating a data declaration have permitted.
    pub fn update_commitable(model: &ChainModel, action: &UpdateObjectAction, permitted: &TextMap) -> (r: Result<(), ActionFnError>)
        requires
            model.context.wf(),
            action.object@.well_formed(),
        ensures
            verdict(r) == update_commitable_spec(model.rows(), Kind::DataDeclare, action.uid, action.object@, permitted@),
    {
        update_commitable(model, Kind::DataDeclare, action, permitted)
    }

    /// Puts a new data declaration in the place of the one under the uid of the action.
    pub fn update_exec(model: &mut ChainModel, action: &UpdateObjectAction) -> (r: Result<ObjectByAction, ActionFnError>)
        requires
            old(model).context.wf(),
            action.object@.well_formed(),
        ensures
            final(model).context.wf(),
            old(model).wf() ==> final(model).wf(),
            match update_exec_spec(old(model).rows(), Kind::DataDeclare, action.uid, action.object@) {
                Ok((rows, outcome)) => r matches Ok(o) && o@ == outcome && final(model).rows() == rows,
                Err(fault) => r matches Err(e) && action_fault(e) == fault && final(model).rows() == old(model).rows(),
            },
    {
        update_exec(model, Kind::DataDeclare, action)
    }

    /// Whether deleting a data declaration by an action is possible.
    pub fn delete_support(model: &ChainModel, action: &DeleteObjectAction) -> (r: Result<(), ActionFnError>)
        requires
            model.context.wf(),
        ensures
            verdict(r) == delete_support_spec(model.rows(), Kind::DataDeclare, action.uid),
    {
        delete_support(model, Kind::DataDeclare, action)
    }

    /// Whether an organization has a say on deleting a data declaration.
    pub fn delete_relevent(model: &ChainModel, action: &DeleteObjectAction, org_id: &str) -> (r: Result<(), ActionFnError>)
        requires
            model.context.wf(),
        ensures
            verdict(r) == delete_relevant_spec(model.rows(), Kind::DataDeclare, action.uid, org_id@),
    {
        delete_relevent(model, Kind::DataDeclare, action, org_id)
    }

    /// Whether all who have a say on deleting a data declaration have permitted.
    pub fn delete_commitable(model: &ChainModel, action: &DeleteObjectAction, permitted: &TextMap) -> (r: Result<(), ActionFnError>)
        requires
            model.context.wf(),
        ensures
            verdict(r) == delete_commitable_spec(model.rows(), Kind::DataDeclare, action.uid, permitted@),
    {
        delete_commitable(model, Kind::DataDeclare, action, permitted)
    }

    /// Deletes a data declaration.
    pub fn delete_exec(model: &mut ChainModel, action: &DeleteObjectAction) -> (r: Result<ObjectByAction, ActionFnError>)
        requires
            old(model).context.wf(),
        ensures
            final(model).context.wf(),
            old(model).wf() ==> final(model).wf(),
            match delete_exec_spec(old(model).rows(), Kind::DataDeclare, action.uid) {
                Ok((rows, outcome)) => r matches Ok(o) && o@ == outcome && final(model).rows() == rows,
                Err(fault) => r matches Err(e) && action_fault(e) == fault && final(model).rows() == old(model).rows(),
            },
    {
        delete_exec(model, Kind::DataDeclare, action)
    }
}

impl FunctionDeclare {
    /// Whether making a function declaration by an action is possible.
    pub fn create_support(model: &ChainModel, action: &CreateObjectAction) -> (r: Result<(), ActionFnError>)
        requires
            model.context.wf(),
            action.object@.well_formed(),
        ensures
            verdict(r) == create_support_spec(model.rows(), Kind::FunctionDeclare, action.object@),
    {
        create_support(model, Kind::FunctionDeclare, action)
    }

    /// Whether an organization has a say on making a function declaration.
    pub fn create_relevent(model: &ChainModel, action: &CreateObjectAction, org_id: &str) -> (r: Result<(), ActionFnError>)
        requires
            model.context.wf(),
            action.object@.well_formed(),
        ensures
            verdict(r) == create_relevant_spec(Kind::FunctionDeclare, action.object@, org_id@),
    {
        create_relevent(model, Kind::FunctionDeclare, action, org_id)
    }

    /// Whether all who have a say on making a function declaration have permitted.
    pub fn create_commitable(model: &ChainModel, action: &CreateObjectAction, permitted: &TextMap) -> (r: Result<(), ActionFnError>)
        requires
            model.context.wf(),
            action.object@.well_formed(),
        ensures
            verdict(r) == create_commitable_spec(Kind::FunctionDeclare, action.object@, permitted@),
    {
        create_commitable(model, Kind::FunctionDeclare, action, permitted)
    }

    /// Makes a function declaration: it is given the next uid and stored.
    pub fn create_exec(model: &mut ChainModel, action: &CreateObjectAction) -> (r: Result<ObjectByAction, ActionFnError>)
        requires
            old(model).context.wf(),
            action.object@.well_formed(),
        ensures
            final(model).context.wf(),
            old(model).wf() ==> final(model).wf(),
            match create_exec_spec(old(model).rows(), old(model).context.counter(), Kind::FunctionDeclare, action.object@) {
                Ok((rows, outcome)) => r matches Ok(o) && o@ == outcome && final(model).rows() == rows,
                Err(fault) => r matches Err(e) && action_fault(e) == fault && final(model).rows() == old(model).rows(),
            },
    {
        create_exec(model, Kind::FunctionDeclare, action)
    }

    /// Whether updating a function declaration by an action is possible.
    pub fn update_support(model: &ChainModel, action: &UpdateObjectAction) -> (r: Result<(), ActionFnError>)
        requires
            model.context.wf(),
            action.object@.well_formed(),
        ensures
            verdict(r) == update_support_spec(model.rows(), Kind::FunctionDeclare, action.uid, action.object@),
    {
        update_support(model, Kind::FunctionDeclare, action)
    }

    /// Whether an organization has a say on updating a function declaration.
    pub fn update_relevent(model: &ChainModel, action: &UpdateObjectAction, org_id: &str) -> (r: Result<(), ActionFnError>)
        requires
            model.context.wf(),
            action.object@.well_formed(),
        ensures
            verdict(r) == update_relevant_spec(model.rows(), Kind::FunctionDeclare, action.uid, action.object@, org_id@),
    {
        update_relevent(model, Kind::FunctionDeclare, action, org_id)
    }

    /// Whether all who have a say on updating a function declaration have permitted.
    pub fn update_commitable(model: &ChainModel, action: &UpdateObjectAction, permitted: &TextMap) -> (r: Result<(), ActionFnError>)
        requires
            model.context.wf(),
            action.object@.well_formed(),
        ensures
            verdict(r) == update_commitable_spec(model.rows(), Kind::FunctionDeclare, action.uid, action.object@, permitted@),
    {
        update_commitable(model, Kind::FunctionDeclare, action, permitted)
    }

    /// Puts a new function declaration in the place of the one under the uid of the action.
    pub fn update_exec(model: &mut ChainModel, action: &UpdateObjectAction) -> (r: Result<ObjectByAction, ActionFnError>)
        requires
            old(model).context.wf(),
            action.object@.well_formed(),
        ensures
            final(model).context.wf(),
            old(model).wf() ==> final(model).wf(),
            match update_exec_spec(old(model).rows(), Kind::FunctionDeclare, action.uid, action.object@) {
                Ok((rows, outcome)) => r matches Ok(o) && o@ == outcome && final(model).rows() == rows,
                Err(fault) => r matches Err(e) && action_fault(e) == fault && final(model).rows() == old(model).rows(),
            },
    {
        update_exec(model, Kind::FunctionDeclare, action)
    }

    /// Whether deleting a function declaration by an action is possible.
    pub fn delete_support(model: &ChainModel, action: &DeleteObjectAction) -> (r: Result<(), ActionFnError>)
        requires
            model.context.wf(),
        ensures
            verdict(r) == delete_support_spec(model.rows(), Kind::FunctionDeclare, action.uid),
    {
        delete_support(model, Kind::FunctionDeclare, action)
    }

    /// Whether an organization has a say on deleting a function declaration.
    pub fn delete_relevent(model: &ChainModel, action: &DeleteObjectAction, org_id: &str) -> (r: Result<(), ActionFnError>)
        requires
            model.context.wf(),
        ensures
            verdict(r) == delete_relevant_spec(model.rows(), Kind::FunctionDeclare, action.uid, org_id@),
    {
        delete_relevent(model, Kind::FunctionDeclare, action, org_id)
    }

    /// Whether all who have a say on deleting a function declaration have permitted.
    pub fn delete_commitable(model: &ChainModel, action: &DeleteObjectAction, permitted: &TextMap) -> (r: Result<(), ActionFnError>)
        requires
            model.context.wf(),
        ensures
            verdict(r) == delete_commitable_spec(model.rows(), Kind::FunctionDeclare, action.uid, permitted@),
    {
        delete_commitable(model, Kind::FunctionDeclare, action, permitted)
    }

    /// Deletes a function declaration.
    pub fn delete_exec(model: &mut ChainModel, action: &DeleteObjectAction) -> (r: Result<ObjectByAction, ActionFnError>)
        requires
            old(model).context.wf(),
        ensures
            final(model).context.wf(),
            old(model).wf() ==> final(model).wf(),
            match delete_exec_spec(old(model).rows(), Kind::FunctionDeclare, action.uid) {
                Ok((rows, outcome)) => r matches Ok(o) && o@ == outcome && final(model).rows() == rows,
                Err(fault) => r matches Err(e) && action_fault(e) == fault && final(model).rows() == old(model).rows(),
            },
    {
        delete_exec(model, Kind::FunctionDeclare, action)
    }
}

impl Contract {
    /// Whether making a contract by an action is possible.
    pub fn create_support(model: &ChainModel, action: &CreateObjectAction) -> (r: Result<(), ActionFnError>)
        requires
            model.context.wf(),
            action.object@.well_formed(),
        ensures
            verdict(r) == create_support_spec(model.rows(), Kind::Contract, action.object@),
    {
        create_support(model, Kind::Contract, action)
    }

    /// Whether an organization has a say on making a contract.
    pub fn create_relevent(model: &ChainModel, action: &CreateObjectAction, org_id: &str) -> (r: Result<(), ActionFnError>)
        requires
            model.context.wf(),
            action.object@.well_formed(),
        ensures
            verdict(r) == create_relevant_spec(Kind::Contract, action.object@, org_id@),
    {
        create_relevent(model, Kind::Contract, action, org_id)
    }

    /// Whether all who have a say on making a contract have permitted.
    pub fn create_commitable(model: &ChainModel, action: &CreateObjectAction, permitted: &TextMap) -> (r: Result<(), ActionFnError>)
        requires
            model.context.wf(),
            action.object@.well_formed(),
        ensures
            verdict(r) == create_commitable_spec(Kind::Contract, action.object@, permitted@),
    {
        create_commitable(model, Kind::Contract, action, permitted)
    }

    /// Makes a contract: it is given the next uid and stored.
    pub fn create_exec(model: &mut ChainModel, action: &CreateObjectAction) -> (r: Result<ObjectByAction, ActionFnError>)
        requires
            old(model).context.wf(),
            action.object@.well_formed(),
        ensures
            final(model).context.wf(),
            old(model).wf() ==> final(model).wf(),
            match create_exec_spec(old(model).rows(), old(model).context.counter(), Kind::Contract, action.object@) {
                Ok((rows, outcome)) => r matches Ok(o) && o@ == outcome && final(model).rows() == rows,
                Err(fault) => r matches Err(e) && action_fault(e) == fault && final(model).rows() == old(model).rows(),
            },
    {
        create_exec(model, Kind::Contract, action)
    }

    /// Whether deleting a contract by an action is possible.
    pub fn delete_support(model: &ChainModel, action: &DeleteObjectAction) -> (r: Result<(), ActionFnError>)
        requires
            model.context.wf(),
        ensures
            verdict(r) == delete_support_spec(model.rows(), Kind::Contract, action.uid),
    {
        delete_support(model, Kind::Contract, action)
    }

    /// Whether an organization has a say on deleting a contract.
    pub fn delete_relevent(model: &ChainModel, action: &DeleteObjectAction, org_id: &str) -> (r: Result<(), ActionFnError>)
        requires
            model.context.wf(),
        ensures
            verdict(r) == delete_relevant_spec(model.rows(), Kind::Contract, action.uid, org_id@),
    {
        delete_relevent(model, Kind::Contract, action, org_id)
    }

    /// Whether all who have a say on deleting a contract have permitted.
    pub fn delete_commitable(model: &ChainModel, action: &DeleteObjectAction, permitted: &TextMap) -> (r: Result<(), ActionFnError>)
        requires
            model.context.wf(),
        ensures
            verdict(r) == delete_commitable_spec(model.rows(), Kind::Contract, action.uid, permitted@),
    {
        delete_commitable(model, Kind::Contract, action, permitted)
    }

    /// Deletes a contract.
    pub fn delete_exec(model: &mut ChainModel, action: &DeleteObjectAction) -> (r: Result<ObjectByAction, ActionFnError>)
        requires
            old(model).context.wf(),
        ensures
            final(model).context.wf(),
            old(model).wf() ==> final(model).wf(),
            match delete_exec_spec(old(model).rows(), Kind::Contract, action.uid) {
                Ok((rows, outcome)) => r matches Ok(o) && o@ == outcome && final(model).rows() == rows,
                Err(fault) => r matches Err(e) && action_fault(e) == fault && final(model).rows() == old(model).rows(),
            },
    {
        delete_exec(model, Kind::Contract, action)
    }
}

impl Record {
    /// Whether making a record by an action is possible.
    pub fn create_support(model: &ChainModel, action: &CreateObjectAction) -> (r: Result<(), ActionFnError>)
        requires
            model.context.wf(),
            action.object@.well_formed(),
        ensures
            verdict(r) == create_support_spec(model.rows(), Kind::Record, action.object@),
    {
        create_support(model, Kind::Record, action)
    }

    /// Whether an organization has a say on making a record.
    pub fn create_relevent(model: &ChainModel, action: &CreateObjectAction, org_id: &str) -> (r: Result<(), ActionFnError>)
        requires
            model.context.wf(),
            action.object@.well_formed(),
        ensures
            verdict(r) == create_relevant_spec(Kind::Record, action.object@, org_id@),
    {
        create_relevent(model, Kind::Record, action, org_id)
    }

    /// Whether all who have a say on making a record have permitted.
    pub fn create_commitable(model: &ChainModel, action: &CreateObjectAction, permitted: &TextMap) -> (r: Result<(), ActionFnError>)
        requires
            model.context.wf(),
            action.object@.well_formed(),
        ensures
            verdict(r) == create_commitable_spec(Kind::Record, action.object@, permitted@),
    {
        create_commitable(model, Kind::Record, action, permitted)
    }

    /// Makes a record: it is given the next uid and stored.
    pub fn create_exec(model: &mut ChainModel, action: &CreateObjectAction) -> (r: Result<ObjectByAction, ActionFnError>)
        requires
            old(model).context.wf(),
            action.object@.well_formed(),
        ensures
            final(model).context.wf(),
            old(model).wf() ==> final(model).wf(),
            match create_exec_spec(old(model).rows(), old(model).context.counter(), Kind::Record, action.object@) {
                Ok((rows, outcome)) => r matches Ok(o) && o@ == outcome && final(model).rows() == rows,
                Err(fault) => r matches Err(e) && action_fault(e) == fault && final(model).rows() == old(model).rows(),
            },
    {
        create_exec(model, Kind::Record, action)
    }

    /// Whether updating a record by an action is possible.
    pub fn update_support(model: &ChainModel, action: &UpdateObjectAction) -> (r: Result<(), ActionFnError>)
        requires
            model.context.wf(),
            action.object@.well_formed(),
        ensures
            verdict(r) == update_support_spec(model.rows(), Kind::Record, action.uid, action.object@),
    {
        update_support(model, Kind::Record, action)
    }

    /// Whether an organization has a say on updating a record.
    pub fn update_relevent(model: &ChainModel, action: &UpdateObjectAction, org_id: &str) -> (r: Result<(), ActionFnError>)
        requires
            model.context.wf(),
            action.object@.well_formed(),
        ensures
            verdict(r) == update_relevant_spec(model.rows(), Kind::Record, action.uid, action.object@, org_id@),
    {
        update_relevent(model, Kind::Record, action, org_id)
    }

    /// Whether all who have a say on updating a record have permitted.
    pub fn update_commitable(model: &ChainModel, action: &UpdateObjectAction, permitted: &TextMap) -> (r: Result<(), ActionFnError>)
        requires
            model.context.wf(),
            action.object@.well_formed(),
        ensures
            verdict(r) == update_commitable_spec(model.rows(), Kind::Record, action.uid, action.object@, permitted@),
    {
        update_commitable(model, Kind::Record, action, permitted)
    }

    /// Puts a new record in the place of the one under the uid of the action.
    pub fn update_exec(model: &mut ChainModel, action: &UpdateObjectAction) -> (r: Result<ObjectByAction, ActionFnError>)
        requires
            old(model).context.wf(),
            action.object@.well_formed(),
        ensures
            final(model).context.wf(),
            old(model).wf() ==> final(model).wf(),
            match update_exec_spec(old(model).rows(), Kind::Record, action.uid, action.object@) {
                Ok((rows, outcome)) => r matches Ok(o) && o@ == outcome && final(model).rows() == rows,
                Err(fault) => r matches Err(e) && action_fault(e) == fault && final(model).rows() == old(model).rows(),
            },
    {
        update_exec(model, Kind::Record, action)
    }

    /// Whether deleting a record by an action is possible.
    pub fn delete_support(model: &ChainModel, action: &DeleteObjectAction) -> (r: Result<(), ActionFnError>)
        requires
            model.context.wf(),
        ensures
            verdict(r) == delete_support_spec(model.rows(), Kind::Record, action.uid),
    {
        delete_support(model, Kind::Record, action)
    }

    /// Whether an organization has a say on deleting a record.
    pub fn delete_relevent(model: &ChainModel, action: &DeleteObjectAction, org_id: &str) -> (r: Result<(), ActionFnError>)
        requires
            model.context.wf(),
        ensures
            verdict(r) == delete_relevant_spec(model.rows(), Kind::Record, action.uid, org_id@),
    {
        delete_relevent(model, Kind::Record, action, org_id)
    }

    /// Whether all who have a say on deleting a record have permitted.
    pub fn delete_commitable(model: &ChainModel, action: &DeleteObjectAction, permitted: &TextMap) -> (r: Result<(), ActionFnError>)
        requires
            model.context.wf(),
        ensures
            verdict(r) == delete_commitable_spec(model.rows(), Kind::Record, action.uid, permitted@),
    {
        delete_commitable(model, Kind::Record, action, permitted)
    }

    /// Deletes a record.
    pub fn delete_exec(model: &mut ChainModel, action: &DeleteObjectAction) -> (r: Result<ObjectByAction, ActionFnError>)
        requires
            old(model).context.wf(),
        ensures
            final(model).context.wf(),
            old(model).wf() ==> final(model).wf(),
            match delete_exec_spec(old(model).rows(), Kind::Record, action.uid) {
                Ok((rows, outcome)) => r matches Ok(o) && o@ == outcome && final(model).rows() == rows,
                Err(fault) => r matches Err(e) && action_fault(e) == fault && final(model).rows() == old(model).rows(),
            },
    {
        delete_exec(model, Kind::Record, action)
    }
}

} // verus!
