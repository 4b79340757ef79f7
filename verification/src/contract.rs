pub mod compute;
pub mod declare;
pub mod entry;
pub mod globalproposal;
pub mod object;
pub mod proposal;
pub mod utils;
pub mod workflow;

use vstd::prelude::*;
use vstd::string::*;
use crate::context::{put_row, Context};
use crate::contract::entry::{answered_ok, closed, failed, refuse_argument};

verus! {

/// The call that initializes the contract: the uid counter is set to 1 and written under its key.
pub fn init_contract(ctx: Context) -> (out: Context)
    requires
        ctx.wf(),
    ensures
        out.wf(),
        out.counter() == 1,
        out.sender() == ctx.sender(),
        out.rows() == closed(ctx.rows(), 1),
        out.answer() == ctx.answer(),
{
    let mut ctx = ctx;
    ctx.reinit_uid();
    ctx.save_uid();
    ctx
}

/// The call that follows an upgrade of the contract: it changes nothing but the answer.
pub fn upgrade(ctx: Context) -> (out: Context)
    requires
        ctx.wf(),
    ensures
        out.wf(),
        ctx.in_order() ==> out.in_order(),
        out.counter() == ctx.counter(),
        out.sender() == ctx.sender(),
        out.rows() == closed(ctx.rows(), ctx.counter()),
        answered_ok(&out, "upgrade success".spec_bytes()),
{
    let mut ctx = ctx;
    let payload = "upgrade success".as_bytes_vec();
    let _ = ctx.ok(payload.as_slice());
    proof {
        if ctx.in_order() {
            crate::consistency::lemma_counter_written(ctx.rows(), ctx.counter());
        }
    }
    ctx.save_uid();
    ctx
}

/// The call that puts the argument `value` under the key named by the
/// argument `key`. Without a value the call fails and puts nothing.
pub fn save(ctx: Context) -> (out: Context)
    requires
        ctx.wf(),
    ensures
        out.wf(),
        out.counter() == ctx.counter(),
        out.sender() == ctx.sender(),
        match ctx.argument("value"@) {
            Some(value) => out.rows() == closed(
                put_row(ctx.rows(), ctx.argument_text("key"@), Seq::empty(), value),
                ctx.counter(),
            ) && out.answer() == ctx.answer(),
            None => out.rows() == closed(ctx.rows(), ctx.counter()) && failed(&out),
        },
{
    let key = ctx.arg_as_utf8_str("key");
    let value = match ctx.arg("value") {
        Ok(v) => v,
        Err(e) => { return refuse_argument(ctx, e); },
    };
    let mut ctx = ctx;
    let _ = ctx.put_state_from_key(key.as_str(), value.as_slice());
    ctx.save_uid();
    ctx
}

/// The call that reads what lies under the key named by the argument `key`.
pub fn load(ctx: Context) -> (out: Context)
    requires
        ctx.wf(),
    ensures
        out.wf(),
        ctx.in_order() ==> out.in_order(),
        out.counter() == ctx.counter(),
        out.sender() == ctx.sender(),
        out.rows() == closed(ctx.rows(), ctx.counter()),
        answered_ok(&out, ctx.value(ctx.argument_text("key"@), Seq::empty())),
{
    let key = ctx.arg_as_utf8_str("key");
    let value = match ctx.get_state_from_key(key.as_str()) {
        Ok(v) => v,
        Err(e) => { return refuse_argument(ctx, e); },
    };
    let mut ctx = ctx;
    let _ = ctx.ok(value.as_slice());
    proof {
        if ctx.in_order() {
            crate::consistency::lemma_counter_written(ctx.rows(), ctx.counter());
        }
    }
    ctx.save_uid();
    ctx
}

/// The call that tells the caller which organization it is.
pub fn whoami(ctx: Context) -> (out: Context)
    requires
        ctx.wf(),
    ensures
        out.wf(),
        ctx.in_order() ==> out.in_order(),
        out.counter() == ctx.counter(),
        out.sender() == ctx.sender(),
        out.rows() == closed(ctx.rows(), ctx.counter()),
        answered_ok(&out, vstd::utf8::encode_utf8(ctx.sender())),
{
    let who = ctx.get_sender_org_id();
    let mut ctx = ctx;
    let payload = who.as_str().as_bytes_vec();
    let _ = ctx.ok(payload.as_slice());
    proof {
        if ctx.in_order() {
            crate::consistency::lemma_counter_written(ctx.rows(), ctx.counter());
        }
    }
    ctx.save_uid();
    ctx
}


/// The rows of a ledger without the object table, the index and the register of nodes.
pub open spec fn emptied_rows(rows: Seq<crate::context::Row>) -> Seq<crate::context::Row> {
    rows.filter(crate::context::key_lacks_prefix("t1c"@)).filter(crate::context::key_lacks_prefix("i1c"@)).filter(
        crate::context::key_lacks_prefix("t1d_"@),
    )
}

/// The call that sets the contract back to its beginning: every object,
/// every index entry and every registered node is taken away, and the uid
/// counter is set to 1.
pub fn reinit_state(ctx: Context) -> (out: Context)
    requires
        ctx.wf(),
    ensures
        out.wf(),
        out.counter() == 1,
        out.sender() == ctx.sender(),
        out.rows() == closed(emptied_rows(ctx.rows()), 1),
        answered_ok(&out, "ok".spec_bytes()),
{
    let mut ctx = ctx;
    ctx.delete_prefix("t1c");
    ctx.delete_prefix("i1c");
    ctx.delete_prefix("t1d_");
    ctx.reinit_uid();
    let payload = "ok".as_bytes_vec();
    let _ = ctx.ok(payload.as_slice());
    proof {
        if ctx.in_order() {
            crate::consistency::lemma_counter_written(ctx.rows(), ctx.counter());
        }
    }
    ctx.save_uid();
    ctx
}

/// The call that tells the uid that is given out next, in decimal.
pub fn next_uid(ctx: Context) -> (out: Context)
    requires
        ctx.wf(),
    ensures
        out.wf(),
        ctx.in_order() ==> out.in_order(),
        out.counter() == ctx.counter(),
        out.sender() == ctx.sender(),
        out.rows() == closed(ctx.rows(), ctx.counter()),
        answered_ok(&out, vstd::utf8::encode_utf8(crate::text::decimal_digits(ctx.counter() as nat))),
{
    let mut ctx = ctx;
    let text = crate::text::decimal(ctx.next_uid());
    let payload = text.as_str().as_bytes_vec();
    let _ = ctx.ok(payload.as_slice());
    proof {
        if ctx.in_order() {
            crate::consistency::lemma_counter_written(ctx.rows(), ctx.counter());
        }
    }
    ctx.save_uid();
    ctx
}

} // verus!
