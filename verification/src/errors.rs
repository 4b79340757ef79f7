use vstd::prelude::*;
use vstd::string::*;
use crate::text::{decimal, decimal_digits, signed_decimal, signed_digits};

verus! {

/// What the ledger and the call's arguments can report.
#[derive(Debug)]
pub enum ContextError {
    KvIteratorCreateFailed(i32),
    GetStateFailed(i32),
    GetStateFromKeyFailed(i32),
    PutStateFailed(i32),
    PutStateFromKeyFailed(i32),
    DeleteStateFailed(i32),
    DeleteStateFromKeyFailed(i32),
    OkError(i32),
    ErrError(i32),
    GetArgError { key: String, msg: String },
}

/// What a cursor over the ledger can report.
#[derive(Debug)]
pub enum ResultSetCursorError {
    NextRowError(i32),
    GetKeyError(String),
    GetFieldError(String),
    GetValueError(String),
}

/// Why an object could not be read from its JSON form.
#[derive(Debug)]
pub enum DeserializeError {
    /// The JSON is malformed, or a member is missing or of the wrong type.
    JsonError(String),
    /// The object names another api version or kind than its type.
    MismatchTypeMeta(String),
    /// The object's name does not follow the naming grammar.
    InvalidName(String),
}

/// An object that cannot be worked with, and why.
#[derive(Debug)]
pub struct InvalidObjectError(pub String);

impl InvalidObjectError {
    pub fn new(reason: String) -> (e: Self)
        ensures
            e.0 == reason,
    {
        InvalidObjectError(reason)
    }
}

/// What the object store can report.
#[derive(Debug)]
pub enum ChainModelError {
    JsonError(String),
    DeserializeError(DeserializeError),
    ContextError(ContextError),
    ResultSetError(ResultSetCursorError),
    InvalidObject(InvalidObjectError),
    /// No type is registered for this api version and kind.
    UnsupportedObject(String, String),
    /// A uid holds an object of one kind and was to take one of another.
    MismatchedKind { uid: u64, old_kind: String, new_kind: String },
    /// Table and index disagree.
    StateError(String),
}

/// What a handler of an action can report.
#[derive(Debug)]
pub enum ActionFnError {
    ChainModel(ChainModelError),
    /// The kind has no handler for this action.
    ActionNotSupported(String),
    NotSupport(String, String),
    NotRelevant(String, String),
    NotCommitable(String, String),
    ExecFailed(String, String),
    Deserialize(DeserializeError),
    JsonError(String),
}

/// What the proposal workflow can report.
#[derive(Debug)]
pub enum ProposalError {
    NotProposal(String),
    Conlict,
    NoAction,
    ObjectNotGlobal,
    ObjectNotNamespaced(String),
    ObjectNamespaceMismatch(String, String),
    ObjectNotFound(u64),
    ObjectNotFoundByName(String),
    UpdateType,
    ControllerNotFound(String),
    InActive(u64),
    CommitForbidden,
    RevokeForbidden,
    ActionFn(ActionFnError),
}

/// Any error of a request to the contract.
#[derive(Debug)]
pub enum ContractError {
    Context(ContextError),
    Deserialize(DeserializeError),
    InvalidObject(InvalidObjectError),
    ChainModel(ChainModelError),
    ActionFn(ActionFnError),
    Proposal(ProposalError),
    Json(String),
}

impl ContextError {
    /// What the error says, as mathematical text.
    pub open spec fn text(self) -> Seq<char> {
        match self {
            ContextError::KvIteratorCreateFailed(code) => "create kv iterator failed, code: "@ + signed_digits(code as int),
            ContextError::GetStateFailed(code) => "get_state failed, code: "@ + signed_digits(code as int),
            ContextError::GetStateFromKeyFailed(code) => "get_state_from_key failed, code: "@ + signed_digits(code as int),
            ContextError::PutStateFailed(code) => "put_state failed, code: "@ + signed_digits(code as int),
            ContextError::PutStateFromKeyFailed(code) => "put_state_from_key failed, code: "@ + signed_digits(code as int),
            ContextError::DeleteStateFailed(code) => "delete_state failed, code: "@ + signed_digits(code as int),
            ContextError::DeleteStateFromKeyFailed(code) => "delete_state_from_key failed, code: "@ + signed_digits(code as int),
            ContextError::OkError(code) => "send ok failed, code: "@ + signed_digits(code as int),
            ContextError::ErrError(code) => "send error failed, code: "@ + signed_digits(code as int),
            ContextError::GetArgError { key, msg } => "get arg failed, key: "@ + key@ + ", msg: "@ + msg@,
        }
    }

    /// What the error says.
    pub fn message(&self) -> (r: String)
        ensures
            r@ == self.text(),
    {
        match self {
            ContextError::KvIteratorCreateFailed(code) => {
                let mut r = String::from_str("create kv iterator failed, code: ");
                let digits = signed_decimal(*code);
                r.append(digits.as_str());
                r
            },
            ContextError::GetStateFailed(code) => {
                let mut r = String::from_str("get_state failed, code: ");
                let digits = signed_decimal(*code);
                r.append(digits.as_str());
                r
            },
            ContextError::GetStateFromKeyFailed(code) => {
                let mut r = String::from_str("get_state_from_key failed, code: ");
                let digits = signed_decimal(*code);
                r.append(digits.as_str());
                r
            },
            ContextError::PutStateFailed(code) => {
                let mut r = String::from_str("put_state failed, code: ");
                let digits = signed_decimal(*code);
                r.append(digits.as_str());
                r
            },
            ContextError::PutStateFromKeyFailed(code) => {
                let mut r = String::from_str("put_state_from_key failed, code: ");
                let digits = signed_decimal(*code);
                r.append(digits.as_str());
                r
            },
            ContextError::DeleteStateFailed(code) => {
                let mut r = String::from_str("delete_state failed, code: ");
                let digits = signed_decimal(*code);
                r.append(digits.as_str());
                r
            },
            ContextError::DeleteStateFromKeyFailed(code) => {
                let mut r = String::from_str("delete_state_from_key failed, code: ");
                let digits = signed_decimal(*code);
                r.append(digits.as_str());
                r
            },
            ContextError::OkError(code) => {
                let mut r = String::from_str("send ok failed, code: ");
                let digits = signed_decimal(*code);
                r.append(digits.as_str());
                r
            },
            ContextError::ErrError(code) => {
                let mut r = String::from_str("send error failed, code: ");
                let digits = signed_decimal(*code);
                r.append(digits.as_str());
                r
            },
            ContextError::GetArgError { key, msg } => {
                let mut r = String::from_str("get arg failed, key: ");
                r.append(key.as_str());
                r.append(", msg: ");
                r.append(msg.as_str());
                r
            },
        }
    }
}

impl ResultSetCursorError {
    /// What the error says, as mathematical text.
    pub open spec fn text(self) -> Seq<char> {
        match self {
            ResultSetCursorError::NextRowError(code) => "NextRowError, code: "@ + signed_digits(code as int),
            ResultSetCursorError::GetKeyError(msg) => "GetKeyError, msg: "@ + msg@,
            ResultSetCursorError::GetFieldError(msg) => "GetFieldError, msg: "@ + msg@,
            ResultSetCursorError::GetValueError(msg) => "GetValueError, msg: "@ + msg@,
        }
    }

    /// What the error says.
    pub fn message(&self) -> (r: String)
        ensures
            r@ == self.text(),
    {
        match self {
            ResultSetCursorError::NextRowError(code) => {
                let mut r = String::from_str("NextRowError, code: ");
                let digits = signed_decimal(*code);
                r.append(digits.as_str());
                r
            },
            ResultSetCursorError::GetKeyError(msg) => {
                let mut r = String::from_str("GetKeyError, msg: ");
                r.append(msg.as_str());
                r
            },
            ResultSetCursorError::GetFieldError(msg) => {
                let mut r = String::from_str("GetFieldError, msg: ");
                r.append(msg.as_str());
                r
            },
            ResultSetCursorError::GetValueError(msg) => {
                let mut r = String::from_str("GetValueError, msg: ");
                r.append(msg.as_str());
                r
            },
        }
    }
}

impl DeserializeError {
    /// What the error says, as mathematical text.
    pub open spec fn text(self) -> Seq<char> {
        match self {
            DeserializeError::JsonError(msg) => "json error: "@ + msg@,
            DeserializeError::MismatchTypeMeta(msg) => "type meta error: "@ + msg@,
            DeserializeError::InvalidName(msg) => "invalid name: "@ + msg@,
        }
    }

    /// What the error says.
    pub fn message(&self) -> (r: String)
        ensures
            r@ == self.text(),
    {
        match self {
            DeserializeError::JsonError(msg) => {
                let mut r = String::from_str("json error: ");
                r.append(msg.as_str());
                r
            },
            DeserializeError::MismatchTypeMeta(msg) => {
                let mut r = String::from_str("type meta error: ");
                r.append(msg.as_str());
                r
            },
            DeserializeError::InvalidName(msg) => {
                let mut r = String::from_str("invalid name: ");
                r.append(msg.as_str());
                r
            },
        }
    }
}

impl InvalidObjectError {
    /// What the error says, as mathematical text.
    pub open spec fn text(self) -> Seq<char> {
        self.0@
    }

    /// What the error says.
    pub fn message(&self) -> (r: String)
        ensures
            r@ == self.text(),
    {
        self.0.clone()
    }
}

impl ChainModelError {
    /// What the error says, as mathematical text.
    pub open spec fn text(self) -> Seq<char> {
        match self {
            ChainModelError::JsonError(msg) => "json error: "@ + msg@,
            ChainModelError::DeserializeError(e) => "deserialize error: "@ + e.text(),
            ChainModelError::ContextError(e) => "context error: "@ + e.text(),
            ChainModelError::ResultSetError(e) => "result set error: "@ + e.text(),
            ChainModelError::InvalidObject(e) => "invalid object: "@ + e.text(),
            ChainModelError::UnsupportedObject(api_version, kind) => "unsupported object, apiVersion: "@ + api_version@ + ", kind: "@ + kind@,
            ChainModelError::MismatchedKind { uid, old_kind, new_kind } => "mismatched object, uid: "@
                + decimal_digits(uid as nat) + ", old_kind: "@ + old_kind@ + ", new_kind: "@ + new_kind@,
            ChainModelError::StateError(msg) => "state error, state consistency broken!: "@ + msg@,
        }
    }

    /// What the error says.
    pub fn message(&self) -> (r: String)
        ensures
            r@ == self.text(),
    {
        match self {
            ChainModelError::JsonError(msg) => {
                let mut r = String::from_str("json error: ");
                r.append(msg.as_str());
                r
            },
            ChainModelError::DeserializeError(e) => {
                let mut r = String::from_str("deserialize error: ");
                let inner = e.message();
                r.append(inner.as_str());
                r
            },
            ChainModelError::ContextError(e) => {
                let mut r = String::from_str("context error: ");
                let inner = e.message();
                r.append(inner.as_str());
                r
            },
            ChainModelError::ResultSetError(e) => {
                let mut r = String::from_str("result set error: ");
                let inner = e.message();
                r.append(inner.as_str());
                r
            },
            ChainModelError::InvalidObject(e) => {
                let mut r = String::from_str("invalid object: ");
                let inner = e.message();
                r.append(inner.as_str());
                r
            },
            ChainModelError::UnsupportedObject(api_version, kind) => {
                let mut r = String::from_str("unsupported object, apiVersion: ");
                r.append(api_version.as_str());
                r.append(", kind: ");
                r.append(kind.as_str());
                r
            },
            ChainModelError::MismatchedKind { uid, old_kind, new_kind } => {
                let mut r = String::from_str("mismatched object, uid: ");
                let digits = decimal(*uid);
                r.append(digits.as_str());
                r.append(", old_kind: ");
                r.append(old_kind.as_str());
                r.append(", new_kind: ");
                r.append(new_kind.as_str());
                r
            },
            ChainModelError::StateError(msg) => {
                let mut r = String::from_str("state error, state consistency broken!: ");
                r.append(msg.as_str());
                r
            },
        }
    }
}

impl ActionFnError {
    /// What the error says, as mathematical text.
    pub open spec fn text(self) -> Seq<char> {
        match self {
            ActionFnError::ChainModel(e) => "chain model error: "@ + e.text(),
            ActionFnError::ActionNotSupported(a) => "not support action "@ + a@,
            ActionFnError::NotSupport(a, b) => a@ + " not support, "@ + b@,
            ActionFnError::NotRelevant(a, b) => a@ + " not relevent, "@ + b@,
            ActionFnError::NotCommitable(a, b) => a@ + " not commitable, "@ + b@,
            ActionFnError::ExecFailed(a, b) => a@ + " exec failed, "@ + b@,
            ActionFnError::Deserialize(e) => "deserialize error: "@ + e.text(),
            ActionFnError::JsonError(msg) => "json error: "@ + msg@,
        }
    }

    /// What the error says.
    pub fn message(&self) -> (r: String)
        ensures
            r@ == self.text(),
    {
        match self {
            ActionFnError::ChainModel(e) => {
                let mut r = String::from_str("chain model error: ");
                let inner = e.message();
                r.append(inner.as_str());
                r
            },
            ActionFnError::ActionNotSupported(a) => {
                let mut r = String::from_str("not support action ");
                r.append(a.as_str());
                r
            },
            ActionFnError::NotSupport(a, b) => {
                let mut r = String::new();
                r.append(a.as_str());
                r.append(" not support, ");
                r.append(b.as_str());
                r
            },
            ActionFnError::NotRelevant(a, b) => {
                let mut r = String::new();
                r.append(a.as_str());
                r.append(" not relevent, ");
                r.append(b.as_str());
                r
            },
            ActionFnError::NotCommitable(a, b) => {
                let mut r = String::new();
                r.append(a.as_str());
                r.append(" not commitable, ");
                r.append(b.as_str());
                r
            },
            ActionFnError::ExecFailed(a, b) => {
                let mut r = String::new();
                r.append(a.as_str());
                r.append(" exec failed, ");
                r.append(b.as_str());
                r
            },
            ActionFnError::Deserialize(e) => {
                let mut r = String::from_str("deserialize error: ");
                let inner = e.message();
                r.append(inner.as_str());
                r
            },
            ActionFnError::JsonError(msg) => {
                let mut r = String::from_str("json error: ");
                r.append(msg.as_str());
                r
            },
        }
    }
}

impl ProposalError {
    /// What the error says, as mathematical text.
    pub open spec fn text(self) -> Seq<char> {
        match self {
            ProposalError::NotProposal(k) => "target object must be a proposal or globalproposal, not a "@ + k@,
            ProposalError::Conlict => "name conflict"@,
            ProposalError::NoAction => "can't create empty proposal"@,
            ProposalError::ObjectNotGlobal => "object in globalproposal must be global"@,
            ProposalError::ObjectNotNamespaced(k) => k@ + " is not namespaced object"@,
            ProposalError::ObjectNamespaceMismatch(a, b) => "namespace of object "@ + a@ + " is different with namespace of proposal "@ + b@,
            ProposalError::ObjectNotFound(uid) => "can't find object with uid "@ + decimal_digits(uid as nat),
            ProposalError::ObjectNotFoundByName(name) => "can't find object with name "@ + name@,
            ProposalError::UpdateType => "update can't change object type"@,
            ProposalError::ControllerNotFound(k) => "controller of kind "@ + k@ + " not found"@,
            ProposalError::InActive(uid) => "proposal is inactive, uid: "@ + decimal_digits(uid as nat),
            ProposalError::CommitForbidden => "only the creator of proposal can commit proposal"@,
            ProposalError::RevokeForbidden => "can't revoke proposal created by other"@,
            ProposalError::ActionFn(e) => "action function error: "@ + e.text(),
        }
    }

    /// What the error says.
    pub fn message(&self) -> (r: String)
        ensures
            r@ == self.text(),
    {
        match self {
            ProposalError::NotProposal(k) => {
                let mut r = String::from_str("target object must be a proposal or globalproposal, not a ");
                r.append(k.as_str());
                r
            },
            ProposalError::Conlict => {
                let mut r = String::from_str("name conflict");
                r
            },
            ProposalError::NoAction => {
                let mut r = String::from_str("can't create empty proposal");
                r
            },
            ProposalError::ObjectNotGlobal => {
                let mut r = String::from_str("object in globalproposal must be global");
                r
            },
            ProposalError::ObjectNotNamespaced(k) => {
                let mut r = String::new();
                r.append(k.as_str());
                r.append(" is not namespaced object");
                r
            },
            ProposalError::ObjectNamespaceMismatch(a, b) => {
                let mut r = String::from_str("namespace of object ");
                r.append(a.as_str());
                r.append(" is different with namespace of proposal ");
                r.append(b.as_str());
                r
            },
            ProposalError::ObjectNotFound(uid) => {
                let mut r = String::from_str("can't find object with uid ");
                let digits = decimal(*uid);
                r.append(digits.as_str());
                r
            },
            ProposalError::ObjectNotFoundByName(name) => {
                let mut r = String::from_str("can't find object with name ");
                r.append(name.as_str());
                r
            },
            ProposalError::UpdateType => {
                let mut r = String::from_str("update can't change object type");
                r
            },
            ProposalError::ControllerNotFound(k) => {
                let mut r = String::from_str("controller of kind ");
                r.append(k.as_str());
                r.append(" not found");
                r
            },
            ProposalError::InActive(uid) => {
                let mut r = String::from_str("proposal is inactive, uid: ");
                let digits = decimal(*uid);
                r.append(digits.as_str());
                r
            },
            ProposalError::CommitForbidden => {
                let mut r = String::from_str("only the creator of proposal can commit proposal");
                r
            },
            ProposalError::RevokeForbidden => {
                let mut r = String::from_str("can't revoke proposal created by other");
                r
            },
            ProposalError::ActionFn(e) => {
                let mut r = String::from_str("action function error: ");
                let inner = e.message();
                r.append(inner.as_str());
                r
            },
        }
    }
}

impl ContractError {
    /// What the error says, as mathematical text.
    pub open spec fn text(self) -> Seq<char> {
        match self {
            ContractError::Context(e) => e.text(),
            ContractError::Deserialize(e) => e.text(),
            ContractError::InvalidObject(e) => e.text(),
            ContractError::ChainModel(e) => e.text(),
            ContractError::ActionFn(e) => e.text(),
            ContractError::Proposal(e) => e.text(),
            ContractError::Json(msg) => "json error: "@ + msg@,
        }
    }

    /// What the error says.
    pub fn message(&self) -> (r: String)
        ensures
            r@ == self.text(),
    {
        match self {
            ContractError::Context(e) => e.message(),
            ContractError::Deserialize(e) => e.message(),
            ContractError::InvalidObject(e) => e.message(),
            ContractError::ChainModel(e) => e.message(),
            ContractError::ActionFn(e) => e.message(),
            ContractError::Proposal(e) => e.message(),
            ContractError::Json(msg) => {
                let mut r = String::from_str("json error: ");
                r.append(msg.as_str());
                r
            },
        }
    }
}

} // verus!
