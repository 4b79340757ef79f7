//! A typed object store on a ledger of keys and fields, and the workflow
//! of proposals through which organizations change what it holds.
//!
//! - `codec` builds the keys of the ledger: one for each uid in the table
//!   of objects, one for each name in the index.
//! - `context` is the ledger of one call, with the caller, the arguments
//!   and the uid counter.
//! - `changes` tells what a call has changed in the ledger.
//! - `json` reads and writes JSON through `serde_json`.
//! - `objects` holds the kinds of objects, their JSON forms, and the
//!   handlers that say which actions they take and who has a say.
//! - `model` is the store: it keeps table and index in step.
//! - `consistency` and `laws` state and prove what holds of the store.
//! - `contract` holds the calls of the contract.

pub mod changes;
pub mod codec;
pub mod consistency;
pub mod context;
pub mod contract;
pub mod errors;
pub mod json;
pub mod laws;
pub mod model;
pub mod objects;
pub mod text;
pub mod utils;
