use vstd::prelude::*;
use vstd::string::*;
use crate::codec::uid_bytes;
use crate::context::Context;
use crate::contract::declare::{requested_status, requested_uid, status_given, uid_given};
use crate::contract::entry::{
    answered_ok, closed, failed, finish, finish_with, finish_with_uid, refuse, refuse_argument,
};
use crate::contract::proposal::{lemma_found_by_name, lemma_found_by_uid};
use crate::contract::workflow::{state_of, 
    check_commitable, check_support, commit, commit_spec, counter_after_create, create, create_spec, fault,
    load_by_name, load_by_uid, outcome, permit, permit_spec, proposal_at, proposal_commitable, proposal_named,
    proposal_supported, revoke, revoke_spec,
};
use crate::errors::ContractError;
use crate::model::ChainModel;
use crate::objects::kinds::Kind;
use crate::objects::v1::global_proposal::GlobalProposal;
use crate::objects::v1::proposal::actions_of;

verus! {

/// Whether a global proposal is possible: it must have an action,
/// and every action must be possible on the global objects as they are.
pub fn check_global_proposal_action_support(model: &ChainModel, proposal: &GlobalProposal) -> (r: Result<(), ContractError>)
    requires
        model.context.wf(),
        proposal.wf(),
    ensures
        outcome(r) == proposal_supported(
            model.rows(),
            None,
            actions_of(proposal.spec.actions@),
        ),
{
    check_support(model, None, &proposal.spec.actions)
}

/// Whether a global proposal can be committed: for every action
/// all who have a say must be among those that have permitted the proposal.
pub fn check_global_proposal_action_commitable(model: &ChainModel, proposal: &GlobalProposal) -> (r: Result<(), ContractError>)
    requires
        model.context.wf(),
        proposal.wf(),
    ensures
        outcome(r) == proposal_commitable(
            model.rows(),
            actions_of(proposal.spec.actions@),
            proposal.status.permission@,
        ),
{
    check_commitable(model, &proposal.spec.actions, &proposal.status.permission)
}

/// Makes a global proposal from its JSON text, for the organization that calls.
pub fn create_global_proposal_impl(model: &mut ChainModel, object: Vec<u8>, creator: String) -> (r: Result<
    u64,
    ContractError,
>)
    requires
        old(model).context.wf(),
    ensures
        final(model).context.wf(),
        final(model).context.sender() == old(model).context.sender(),
        final(model).context.counter() == counter_after_create(
            old(model).rows(),
            old(model).context.counter(),
            Kind::GlobalProposal,
            object@,
            Seq::empty(),
            creator@,
        ),
        old(model).wf() ==> final(model).wf(),
        match create_spec(
            old(model).rows(),
            old(model).context.counter(),
            Kind::GlobalProposal,
            object@,
            Seq::empty(),
            creator@,
        ) {
            Ok((rows, uid)) => r == Ok::<u64, ContractError>(uid) && final(model).rows() == rows && final(model).context.counter()
                == uid + 1,
            Err(f) => r matches Err(e) && fault(e) == f && final(model).rows() == old(model).rows(),
        },
{
    create(model, Kind::GlobalProposal, object, String::new(), creator)
}

/// Records that an organization permits the global proposal under a uid, or takes its permit back.
pub fn permit_global_proposal_impl(model: &mut ChainModel, uid: u64, status: bool, comment: String, org_id: String) -> (r: Result<
    (),
    ContractError,
>)
    requires
        old(model).context.wf(),
    ensures
        final(model).context.wf(),
        final(model).context.same_call(&old(model).context),
        old(model).wf() ==> final(model).wf(),
        match proposal_at(old(model).rows(), Kind::GlobalProposal, uid) {
            Ok(p) => match permit_spec(old(model).rows(), Kind::GlobalProposal, p, status, comment@, org_id@) {
                Ok(rows) => r is Ok && final(model).rows() == rows,
                Err(f) => r matches Err(e) && fault(e) == f && final(model).rows() == old(model).rows(),
            },
            Err(f) => r matches Err(e) && fault(e) == f && final(model).rows() == old(model).rows(),
        },
{
    proof {
        if model.wf() {
            lemma_found_by_uid(model, Kind::GlobalProposal, uid);
        }
    }
    match load_by_uid(model, Kind::GlobalProposal, uid) {
        Ok(proposal) => permit(model, proposal, status, comment, org_id),
        Err(e) => Err(e),
    }
}

/// Records that an organization permits the global proposal of a name, or takes its permit back.
pub fn permit_global_proposal_by_name_impl(
    model: &mut ChainModel,
    name: String,
    status: bool,
    comment: String,
    org_id: String,
) -> (r: Result<(), ContractError>)
    requires
        old(model).context.wf(),
    ensures
        final(model).context.wf(),
        final(model).context.same_call(&old(model).context),
        old(model).wf() ==> final(model).wf(),
        match proposal_named(old(model).rows(), Kind::GlobalProposal, None, name@) {
            Ok(p) => match permit_spec(old(model).rows(), Kind::GlobalProposal, p, status, comment@, org_id@) {
                Ok(rows) => r is Ok && final(model).rows() == rows,
                Err(f) => r matches Err(e) && fault(e) == f && final(model).rows() == old(model).rows(),
            },
            Err(f) => r matches Err(e) && fault(e) == f && final(model).rows() == old(model).rows(),
        },
{
    proof {
        if model.wf() {
            lemma_found_by_name(model, Kind::GlobalProposal, None, name@);
        }
    }
    match load_by_name(model, Kind::GlobalProposal, None, name.as_str()) {
        Ok(proposal) => permit(model, proposal, status, comment, org_id),
        Err(e) => Err(e),
    }
}

/// Commits the global proposal under a uid for an organization, and gives back
/// the results of its actions as a JSON array. Either every action is
/// carried out and the proposal is stored as submitted, or nothing is changed.
pub fn commit_global_proposal_impl(model: &mut ChainModel, uid: u64, org_id: String) -> (r: Result<Vec<u8>, ContractError>)
    requires
        old(model).context.wf(),
    ensures
        final(model).context.wf(),
        final(model).context.sender() == old(model).context.sender(),
        old(model).wf() ==> final(model).wf(),
        old(model).wf() && r is Ok ==> (proposal_at(final(model).rows(), Kind::GlobalProposal, uid) matches Ok(p) && state_of(
            p,
        ).stage is Submitted),
        match proposal_at(old(model).rows(), Kind::GlobalProposal, uid) {
            Ok(p) => match commit_spec(old(model).rows(), old(model).context.counter(), Kind::GlobalProposal, p, org_id@) {
                Ok((rows, counter, text)) => r matches Ok(t) && t@ == text && final(model).rows() == rows && final(model).context.counter()
                    == counter,
                Err(f) => r matches Err(e) && fault(e) == f && final(model).rows() == old(model).rows() && final(model).context.counter()
                    == old(model).context.counter(),
            },
            Err(f) => r matches Err(e) && fault(e) == f && final(model).rows() == old(model).rows() && final(model).context.counter()
                == old(model).context.counter(),
        },
{
    proof {
        if model.wf() {
            lemma_found_by_uid(model, Kind::GlobalProposal, uid);
        }
    }
    match load_by_uid(model, Kind::GlobalProposal, uid) {
        Ok(proposal) => commit(model, proposal, org_id.as_str()),
        Err(e) => Err(e),
    }
}

/// Commits the global proposal of a name for an organization.
pub fn commit_global_proposal_by_name_impl(model: &mut ChainModel, name: String, org_id: String) -> (r: Result<
    Vec<u8>,
    ContractError,
>)
    requires
        old(model).context.wf(),
    ensures
        final(model).context.wf(),
        final(model).context.sender() == old(model).context.sender(),
        old(model).wf() ==> final(model).wf(),
        match proposal_named(old(model).rows(), Kind::GlobalProposal, None, name@) {
            Ok(p) => match commit_spec(old(model).rows(), old(model).context.counter(), Kind::GlobalProposal, p, org_id@) {
                Ok((rows, counter, text)) => r matches Ok(t) && t@ == text && final(model).rows() == rows && final(model).context.counter()
                    == counter,
                Err(f) => r matches Err(e) && fault(e) == f && final(model).rows() == old(model).rows() && final(model).context.counter()
                    == old(model).context.counter(),
            },
            Err(f) => r matches Err(e) && fault(e) == f && final(model).rows() == old(model).rows() && final(model).context.counter()
                == old(model).context.counter(),
        },
{
    proof {
        if model.wf() {
            lemma_found_by_name(model, Kind::GlobalProposal, None, name@);
        }
    }
    match load_by_name(model, Kind::GlobalProposal, None, name.as_str()) {
        Ok(proposal) => commit(model, proposal, org_id.as_str()),
        Err(e) => Err(e),
    }
}

/// Revokes the global proposal under a uid for an organization.
pub fn revoke_global_proposal_impl(model: &mut ChainModel, uid: u64, org_id: String) -> (r: Result<(), ContractError>)
    requires
        old(model).context.wf(),
    ensures
        final(model).context.wf(),
        final(model).context.same_call(&old(model).context),
        old(model).wf() ==> final(model).wf(),
        old(model).wf() && r is Ok ==> (proposal_at(final(model).rows(), Kind::GlobalProposal, uid) matches Ok(p) && state_of(
            p,
        ).stage is Revoked),
        match proposal_at(old(model).rows(), Kind::GlobalProposal, uid) {
            Ok(p) => match revoke_spec(old(model).rows(), Kind::GlobalProposal, p, org_id@) {
                Ok(rows) => r is Ok && final(model).rows() == rows,
                Err(f) => r matches Err(e) && fault(e) == f && final(model).rows() == old(model).rows(),
            },
            Err(f) => r matches Err(e) && fault(e) == f && final(model).rows() == old(model).rows(),
        },
{
    proof {
        if model.wf() {
            lemma_found_by_uid(model, Kind::GlobalProposal, uid);
        }
    }
    match load_by_uid(model, Kind::GlobalProposal, uid) {
        Ok(proposal) => revoke(model, proposal, org_id.as_str()),
        Err(e) => Err(e),
    }
}

/// Revokes the global proposal of a name for an organization.
pub fn revoke_global_proposal_by_name_impl(model: &mut ChainModel, name: String, org_id: String) -> (r: Result<
    (),
    ContractError,
>)
    requires
        old(model).context.wf(),
    ensures
        final(model).context.wf(),
        final(model).context.same_call(&old(model).context),
        old(model).wf() ==> final(model).wf(),
        match proposal_named(old(model).rows(), Kind::GlobalProposal, None, name@) {
            Ok(p) => match revoke_spec(old(model).rows(), Kind::GlobalProposal, p, org_id@) {
                Ok(rows) => r is Ok && final(model).rows() == rows,
                Err(f) => r matches Err(e) && fault(e) == f && final(model).rows() == old(model).rows(),
            },
            Err(f) => r matches Err(e) && fault(e) == f && final(model).rows() == old(model).rows(),
        },
{
    proof {
        if model.wf() {
            lemma_found_by_name(model, Kind::GlobalProposal, None, name@);
        }
    }
    match load_by_name(model, Kind::GlobalProposal, None, name.as_str()) {
        Ok(proposal) => revoke(model, proposal, org_id.as_str()),
        Err(e) => Err(e),
    }
}

/// The call that makes a global proposal: the argument `object` holds its JSON text.
/// The call is answered with the uid of the global proposal in eight bytes.
pub fn create_global_proposal(ctx: Context) -> (out: Context)
    requires
        ctx.wf(),
    ensures
        out.wf(),
        ctx.in_order() ==> out.in_order(),
        out.sender() == ctx.sender(),
        ctx.argument("object"@) matches Some(object) ==> out.counter() == counter_after_create(
            ctx.rows(),
            ctx.counter(),
            Kind::GlobalProposal,
            object,
            Seq::empty(),
            ctx.sender(),
        ),
        match ctx.argument("object"@) {
            Some(object) => match create_spec(
                ctx.rows(),
                ctx.counter(),
                Kind::GlobalProposal,
                object,
                Seq::empty(),
                ctx.sender(),
            ) {
                Ok((rows, uid)) => out.rows() == closed(rows, out.counter()) && out.counter() == uid + 1 && answered_ok(
                    &out,
                    uid_bytes(uid),
                ),
                Err(f) => out.rows() == closed(ctx.rows(), out.counter()) && failed(&out),
            },
            None => out.rows() == closed(ctx.rows(), ctx.counter()) && out.counter() == ctx.counter() && failed(&out),
        },
{
    let object = match ctx.arg("object") {
        Ok(v) => v,
        Err(e) => { return refuse_argument(ctx, e); },
    };
    let creator = ctx.get_sender_org_id();
    let mut model = ChainModel::new(ctx);
    let r = create_global_proposal_impl(&mut model, object, creator);
    finish_with_uid(model, r)
}

/// The call that records that the caller permits a global proposal, or takes its permit back, named by the argument `uid`.
pub fn permit_global_proposal(ctx: Context) -> (out: Context)
    requires
        ctx.wf(),
    ensures
        out.wf(),
        ctx.in_order() ==> out.in_order(),
        out.sender() == ctx.sender(),
        if !(uid_given(&ctx) && status_given(&ctx)) {
            out.rows() == closed(ctx.rows(), ctx.counter()) && failed(&out)
        } else {
            match proposal_at(ctx.rows(), Kind::GlobalProposal, requested_uid(&ctx)) {
                Ok(p) => match permit_spec(
                    ctx.rows(),
                    Kind::GlobalProposal,
                    p,
                    requested_status(&ctx),
                    ctx.argument_text("comment"@),
                    ctx.sender(),
                ) {
                    Ok(rows) => out.rows() == closed(rows, ctx.counter()) && answered_ok(&out, "ok".spec_bytes()),
                    Err(f) => out.rows() == closed(ctx.rows(), ctx.counter()) && failed(&out),
                },
                Err(f) => out.rows() == closed(ctx.rows(), ctx.counter()) && failed(&out),
            }
        },
{
    let uid = match ctx.arg_u64("uid") {
        Ok(v) => v,
        Err(e) => { return refuse_argument(ctx, e); },
    };
    let status = match ctx.arg_bool("status") {
        Ok(v) => v,
        Err(e) => { return refuse_argument(ctx, e); },
    };
    let comment = ctx.arg_as_utf8_str("comment");
    let org_id = ctx.get_sender_org_id();
    let mut model = ChainModel::new(ctx);
    let r = permit_global_proposal_impl(&mut model, uid, status, comment, org_id);
    finish(model, r)
}

/// The call that records that the caller permits a global proposal, or takes its permit back, named by the argument `name`.
pub fn permit_global_proposal_by_name(ctx: Context) -> (out: Context)
    requires
        ctx.wf(),
    ensures
        out.wf(),
        ctx.in_order() ==> out.in_order(),
        out.sender() == ctx.sender(),
        if !(ctx.argument_text("name"@).len() > 0 && status_given(&ctx)) {
            out.rows() == closed(ctx.rows(), ctx.counter()) && failed(&out)
        } else {
            match proposal_named(ctx.rows(), Kind::GlobalProposal, None, ctx.argument_text("name"@)) {
                Ok(p) => match permit_spec(
                    ctx.rows(),
                    Kind::GlobalProposal,
                    p,
                    requested_status(&ctx),
                    ctx.argument_text("comment"@),
                    ctx.sender(),
                ) {
                    Ok(rows) => out.rows() == closed(rows, ctx.counter()) && answered_ok(&out, "ok".spec_bytes()),
                    Err(f) => out.rows() == closed(ctx.rows(), ctx.counter()) && failed(&out),
                },
                Err(f) => out.rows() == closed(ctx.rows(), ctx.counter()) && failed(&out),
            }
        },
{
    let name = ctx.arg_as_utf8_str("name");
    if name.as_str().unicode_len() == 0 {
        return refuse(ctx, "name can't be empty");
    }
    let status = match ctx.arg_bool("status") {
        Ok(v) => v,
        Err(e) => { return refuse_argument(ctx, e); },
    };
    let comment = ctx.arg_as_utf8_str("comment");
    let org_id = ctx.get_sender_org_id();
    let mut model = ChainModel::new(ctx);
    let r = permit_global_proposal_by_name_impl(&mut model, name, status, comment, org_id);
    finish(model, r)
}

/// The call that commits a global proposal for the caller, named by the argument `uid`.
pub fn commit_global_proposal(ctx: Context) -> (out: Context)
    requires
        ctx.wf(),
    ensures
        out.wf(),
        ctx.in_order() ==> out.in_order(),
        out.sender() == ctx.sender(),
        if !(uid_given(&ctx)) {
            out.rows() == closed(ctx.rows(), ctx.counter()) && failed(&out)
        } else {
            match proposal_at(ctx.rows(), Kind::GlobalProposal, requested_uid(&ctx)) {
                Ok(p) => match commit_spec(ctx.rows(), ctx.counter(), Kind::GlobalProposal, p, ctx.sender()) {
                    Ok((rows, counter, text)) => out.rows() == closed(rows, counter) && out.counter() == counter
                        && answered_ok(&out, text),
                    Err(f) => out.rows() == closed(ctx.rows(), ctx.counter()) && failed(&out),
                },
                Err(f) => out.rows() == closed(ctx.rows(), ctx.counter()) && failed(&out),
            }
        },
{
    let uid = match ctx.arg_u64("uid") {
        Ok(v) => v,
        Err(e) => { return refuse_argument(ctx, e); },
    };
    let org_id = ctx.get_sender_org_id();
    let mut model = ChainModel::new(ctx);
    let r = commit_global_proposal_impl(&mut model, uid, org_id);
    finish_with(model, r)
}

/// The call that commits a global proposal for the caller, named by the argument `name`.
pub fn commit_global_proposal_by_name(ctx: Context) -> (out: Context)
    requires
        ctx.wf(),
    ensures
        out.wf(),
        ctx.in_order() ==> out.in_order(),
        out.sender() == ctx.sender(),
        if !(ctx.argument_text("name"@).len() > 0) {
            out.rows() == closed(ctx.rows(), ctx.counter()) && failed(&out)
        } else {
            match proposal_named(ctx.rows(), Kind::GlobalProposal, None, ctx.argument_text("name"@)) {
                Ok(p) => match commit_spec(ctx.rows(), ctx.counter(), Kind::GlobalProposal, p, ctx.sender()) {
                    Ok((rows, counter, text)) => out.rows() == closed(rows, counter) && out.counter() == counter
                        && answered_ok(&out, text),
                    Err(f) => out.rows() == closed(ctx.rows(), ctx.counter()) && failed(&out),
                },
                Err(f) => out.rows() == closed(ctx.rows(), ctx.counter()) && failed(&out),
            }
        },
{
    let name = ctx.arg_as_utf8_str("name");
    if name.as_str().unicode_len() == 0 {
        return refuse(ctx, "name can't be empty");
    }
    let org_id = ctx.get_sender_org_id();
    let mut model = ChainModel::new(ctx);
    let r = commit_global_proposal_by_name_impl(&mut model, name, org_id);
    finish_with(model, r)
}

/// The call that revokes a global proposal for the caller, named by the argument `uid`.
pub fn revoke_global_proposal(ctx: Context) -> (out: Context)
    requires
        ctx.wf(),
    ensures
        out.wf(),
        ctx.in_order() ==> out.in_order(),
        out.sender() == ctx.sender(),
        if !(uid_given(&ctx)) {
            out.rows() == closed(ctx.rows(), ctx.counter()) && failed(&out)
        } else {
            match proposal_at(ctx.rows(), Kind::GlobalProposal, requested_uid(&ctx)) {
                Ok(p) => match revoke_spec(ctx.rows(), Kind::GlobalProposal, p, ctx.sender()) {
                    Ok(rows) => out.rows() == closed(rows, ctx.counter()) && answered_ok(&out, "ok".spec_bytes()),
                    Err(f) => out.rows() == closed(ctx.rows(), ctx.counter()) && failed(&out),
                },
                Err(f) => out.rows() == closed(ctx.rows(), ctx.counter()) && failed(&out),
            }
        },
{
    let uid = match ctx.arg_u64("uid") {
        Ok(v) => v,
        Err(e) => { return refuse_argument(ctx, e); },
    };
    let org_id = ctx.get_sender_org_id();
    let mut model = ChainModel::new(ctx);
    let r = revoke_global_proposal_impl(&mut model, uid, org_id);
    finish(model, r)
}

/// The call that revokes a global proposal for the caller, named by the argument `name`.
pub fn revoke_global_proposal_by_name(ctx: Context) -> (out: Context)
    requires
        ctx.wf(),
    ensures
        out.wf(),
        ctx.in_order() ==> out.in_order(),
        out.sender() == ctx.sender(),
        if !(ctx.argument_text("name"@).len() > 0) {
            out.rows() == closed(ctx.rows(), ctx.counter()) && failed(&out)
        } else {
            match proposal_named(ctx.rows(), Kind::GlobalProposal, None, ctx.argument_text("name"@)) {
                Ok(p) => match revoke_spec(ctx.rows(), Kind::GlobalProposal, p, ctx.sender()) {
                    Ok(rows) => out.rows() == closed(rows, ctx.counter()) && answered_ok(&out, "ok".spec_bytes()),
                    Err(f) => out.rows() == closed(ctx.rows(), ctx.counter()) && failed(&out),
                },
                Err(f) => out.rows() == closed(ctx.rows(), ctx.counter()) && failed(&out),
            }
        },
{
    let name = ctx.arg_as_utf8_str("name");
    if name.as_str().unicode_len() == 0 {
        return refuse(ctx, "name can't be empty");
    }
    let org_id = ctx.get_sender_org_id();
    let mut model = ChainModel::new(ctx);
    let r = revoke_global_proposal_by_name_impl(&mut model, name, org_id);
    finish(model, r)
}

} // verus!
