use vstd::prelude::*;
use vstd::string::*;
use crate::codec::{uid_bytes, uid_to_be_bytes};
use crate::context::{counter_key, put_row, Context, Row};
use crate::errors::{ContextError, ContractError};
use crate::model::ChainModel;

verus! {

/// The rows of a ledger once the uid counter is written under its key, as a call does when it ends.
pub open spec fn closed(rows: Seq<Row>, counter: u64) -> Seq<Row> {
    put_row(rows, counter_key(), Seq::empty(), uid_bytes(counter))
}

/// The call was answered with success and this payload.
pub open spec fn answered_ok(ctx: &Context, payload: Seq<u8>) -> bool {
    ctx.answer() == Some((true, payload))
}

/// The call was answered with failure and this message.
pub open spec fn answered_error(ctx: &Context, message: Seq<char>) -> bool {
    ctx.answer() == Some((false, vstd::utf8::encode_utf8(message)))
}

/// The call was answered with failure, whatever the message.
pub open spec fn failed(ctx: &Context) -> bool {
    ctx.answer() matches Some(a) && !a.0
}

/// Ends a call with success: answers with a payload and writes the uid counter back.
pub fn finish_ok(model: ChainModel, payload: &Vec<u8>) -> (out: Context)
    requires
        model.context.wf(),
    ensures
        out.wf(),
        model.wf() ==> out.in_order(),
        out.rows() == closed(model.rows(), model.context.counter()),
        out.counter() == model.context.counter(),
        out.sender() == model.context.sender(),
        answered_ok(&out, payload@),
{
    let mut ctx = model.into_context();
    let _ = ctx.ok(payload.as_slice());
    proof {
        if ctx.in_order() {
            crate::consistency::lemma_counter_written(ctx.rows(), ctx.counter());
        }
    }
    ctx.save_uid();
    ctx
}

/// Ends a call with failure: answers with what the error says and writes the uid counter back.
pub fn finish_error(model: ChainModel, error: &ContractError) -> (out: Context)
    requires
        model.context.wf(),
    ensures
        out.wf(),
        model.wf() ==> out.in_order(),
        out.rows() == closed(model.rows(), model.context.counter()),
        out.counter() == model.context.counter(),
        out.sender() == model.context.sender(),
        answered_error(&out, error.text()),
        failed(&out),
{
    let mut ctx = model.into_context();
    let message = error.message();
    let _ = ctx.error(message.as_str());
    proof {
        if ctx.in_order() {
            crate::consistency::lemma_counter_written(ctx.rows(), ctx.counter());
        }
    }
    ctx.save_uid();
    ctx
}

/// Ends a call by what a request gave: `ok` for success, what the error says for failure.
pub fn finish(model: ChainModel, r: Result<(), ContractError>) -> (out: Context)
    requires
        model.context.wf(),
    ensures
        out.wf(),
        model.wf() ==> out.in_order(),
        out.rows() == closed(model.rows(), model.context.counter()),
        out.counter() == model.context.counter(),
        out.sender() == model.context.sender(),
        match r {
            Ok(()) => answered_ok(&out, "ok".spec_bytes()),
            Err(e) => answered_error(&out, e.text()) && failed(&out),
        },
{
    match r {
        Ok(()) => {
            let payload = "ok".as_bytes_vec();
            finish_ok(model, &payload)
        },
        Err(e) => finish_error(model, &e),
    }
}

/// Ends a call by what a request gave: the text for success, what the error says for failure.
pub fn finish_with(model: ChainModel, r: Result<Vec<u8>, ContractError>) -> (out: Context)
    requires
        model.context.wf(),
    ensures
        out.wf(),
        model.wf() ==> out.in_order(),
        out.rows() == closed(model.rows(), model.context.counter()),
        out.counter() == model.context.counter(),
        out.sender() == model.context.sender(),
        match r {
            Ok(text) => answered_ok(&out, text@),
            Err(e) => answered_error(&out, e.text()) && failed(&out),
        },
{
    match r {
        Ok(text) => finish_ok(model, &text),
        Err(e) => finish_error(model, &e),
    }
}

/// Ends a call by what a request gave: the uid in eight bytes for success, what the error says for failure.
pub fn finish_with_uid(model: ChainModel, r: Result<u64, ContractError>) -> (out: Context)
    requires
        model.context.wf(),
    ensures
        out.wf(),
        model.wf() ==> out.in_order(),
        out.rows() == closed(model.rows(), model.context.counter()),
        out.counter() == model.context.counter(),
        out.sender() == model.context.sender(),
        match r {
            Ok(uid) => answered_ok(&out, uid_bytes(uid)),
            Err(e) => answered_error(&out, e.text()) && failed(&out),
        },
{
    match r {
        Ok(uid) => {
            let payload = uid_to_be_bytes(uid);
            finish_ok(model, &payload)
        },
        Err(e) => finish_error(model, &e),
    }
}

/// Ends a call that could not read an argument.
pub fn refuse_argument(ctx: Context, error: ContextError) -> (out: Context)
    requires
        ctx.wf(),
    ensures
        out.wf(),
        ctx.in_order() ==> out.in_order(),
        out.rows() == closed(ctx.rows(), ctx.counter()),
        out.counter() == ctx.counter(),
        out.sender() == ctx.sender(),
        answered_error(&out, error.text()),
        failed(&out),
{
    finish_error(ChainModel::new(ctx), &ContractError::Context(error))
}


/// Ends a call that is refused for what it asks.
pub fn refuse(ctx: Context, reason: &str) -> (out: Context)
    requires
        ctx.wf(),
    ensures
        out.wf(),
        ctx.in_order() ==> out.in_order(),
        out.rows() == closed(ctx.rows(), ctx.counter()),
        out.counter() == ctx.counter(),
        out.sender() == ctx.sender(),
        answered_error(&out, reason@),
        failed(&out),
{
    let mut ctx = ctx;
    let _ = ctx.error(reason);
    proof {
        if ctx.in_order() {
            crate::consistency::lemma_counter_written(ctx.rows(), ctx.counter());
        }
    }
    ctx.save_uid();
    ctx
}

} // verus!
