use vstd::prelude::*;
use vstd::string::*;
use crate::codec::{be_value, index_key_of};
use crate::context::{Context, Row};
use crate::contract::entry::{answered_ok, closed, failed, finish};
use crate::contract::workflow::{fault, Fault};
use crate::errors::{ContractError, DeserializeError, InvalidObjectError};
use crate::json::{json_decoded, written, Json};
use crate::model::{named_text, put_result, stored, ChainModel};
use crate::objects::controller::{held, read_held};
use crate::objects::dynamic::{kind_parsed, lemma_kind_parsed_object, DynamicObject};
use crate::objects::edit::with_implementations;
use crate::objects::kinds::Kind;
use crate::objects::parts::{parts_tree, ParseFault, PartsView};
use crate::objects::v1::declare::implementations;
use crate::utils::textmap::{has_key, with_pair, without_key};

verus! {

/// What recording an implementation does to a declaration that was found:
/// the organization is put among those that implement it, with its remark,
/// or taken from among them; to take back what was never recorded is
/// refused. The declaration is stored as it then is.
pub open spec fn implement_spec(
    rows: Seq<Row>,
    kind: Kind,
    p: PartsView,
    org: Seq<char>,
    status: bool,
    comment: Seq<char>,
) -> Result<Seq<Row>, Fault> {
    let impls = implementations(p.status)->0;
    if !status && !has_key(impls, org) {
        Err(Fault::InvalidObject)
    } else {
        let changed = with_implementations(
            p,
            if status {
                with_pair(impls, org, comment)
            } else {
                without_key(impls, org)
            },
        );
        match put_result(rows, kind, changed, written(parts_tree(changed))) {
            Ok(after) => Ok(after),
            Err(f) => Err(Fault::Store(f)),
        }
    }
}

/// The declaration of a kind under a uid.
pub open spec fn declare_at(rows: Seq<Row>, kind: Kind, uid: u64) -> Result<PartsView, Fault> {
    match held(rows, kind, uid) {
        Some(Ok(p)) => Ok(p),
        Some(Err(f)) => Err(Fault::Parse(f)),
        None => Err(Fault::InvalidObject),
    }
}

/// The declaration of a kind that the index names for a namespace and a name.
pub open spec fn declare_named(rows: Seq<Row>, kind: Kind, namespace: Seq<char>, name: Seq<char>) -> Result<
    PartsView,
    Fault,
> {
    match named_text(rows, index_key_of(kind.meta().api_version, kind.meta().kind, namespace, name), Seq::empty()) {
        Ok(Some(text)) => match json_decoded(text) {
            Some(j) => match kind_parsed(kind, j) {
                Ok(p) => Ok(p),
                Err(f) => Err(Fault::Parse(f)),
            },
            None => Err(Fault::Parse(ParseFault::Malformed)),
        },
        Ok(None) => Err(Fault::InvalidObject),
        Err(f) => Err(Fault::Store(f)),
    }
}

/// Records on a declaration that an organization implements it, or no longer does, and stores it.
pub fn set_implement(model: &mut ChainModel, declare: DynamicObject, org_id: String, status: bool, comment: String) -> (r: Result<
    (),
    ContractError,
>)
    requires
        old(model).context.wf(),
        declare.spec_kind() is DataDeclare || declare.spec_kind() is FunctionDeclare,
        declare.valid(),
    ensures
        final(model).context.wf(),
        final(model).context.same_call(&old(model).context),
        old(model).wf() && crate::consistency::slot_free(old(model).rows(), declare@) && declare@.uid < old(model).context.counter()
            ==> final(model).wf(),
        match implement_spec(old(model).rows(), declare.spec_kind(), declare@, org_id@, status, comment@) {
            Ok(rows) => r is Ok && final(model).rows() == rows,
            Err(f) => r matches Err(e) && fault(e) == f && final(model).rows() == old(model).rows(),
        },
{
    let mut declare = declare;
    let mut impls = declare.implementations();
    if status {
        impls.insert(org_id, comment);
    } else {
        if !impls.remove(org_id.as_str()) {
            let mut reason = org_id;
            reason.append(" does not implement the declaration");
            return Err(ContractError::InvalidObject(InvalidObjectError::new(reason)));
        }
    }
    declare.set_implementations(impls);
    match model.put_object(&declare) {
        Ok(()) => Ok(()),
        Err(e) => Err(ContractError::ChainModel(e)),
    }
}

/// Reads the declaration of a kind under a uid.
fn load_declare(model: &ChainModel, kind: Kind, uid: u64) -> (r: Result<DynamicObject, ContractError>)
    requires
        model.context.wf(),
    ensures
        match declare_at(model.rows(), kind, uid) {
            Ok(p) => r matches Ok(o) && o@ == p && o.spec_kind() == kind && o.valid(),
            Err(f) => r matches Err(e) && fault(e) == f,
        },
{
    match read_held(model, kind, uid) {
        Ok(Some(o)) => Ok(o),
        Ok(None) => Err(ContractError::InvalidObject(InvalidObjectError::new(String::from_str("object not found by uid")))),
        Err(crate::errors::ActionFnError::Deserialize(d)) => Err(ContractError::Deserialize(d)),
        Err(e) => Err(ContractError::ActionFn(e)),
    }
}

/// Reads the declaration of a kind that the index names for a namespace and a name.
fn load_declare_by_name(model: &ChainModel, kind: Kind, namespace: &str, name: &str) -> (r: Result<
    DynamicObject,
    ContractError,
>)
    requires
        model.context.wf(),
    ensures
        match declare_named(model.rows(), kind, namespace@, name@) {
            Ok(p) => r matches Ok(o) && o@ == p && o.spec_kind() == kind && o.valid(),
            Err(f) => r matches Err(e) && fault(e) == f,
        },
{
    let meta = kind.type_meta();
    let raw = match model.get_raw_object_by_name_version(&meta, name, Some(namespace), None) {
        Ok(Some(v)) => v,
        Ok(None) => {
            return Err(
                ContractError::InvalidObject(InvalidObjectError::new(String::from_str("object not found by name"))),
            );
        },
        Err(e) => { return Err(ContractError::ChainModel(e)); },
    };
    let value = match Json::parse(raw.as_slice()) {
        Ok(j) => j,
        Err(msg) => { return Err(ContractError::Deserialize(DeserializeError::JsonError(msg))); },
    };
    match DynamicObject::parse_kind(kind, &value) {
        Ok(o) => Ok(o),
        Err(e) => Err(ContractError::Deserialize(e)),
    }
}

/// The call names a uid in eight bytes.
pub open spec fn uid_given(ctx: &Context) -> bool {
    ctx.argument("uid"@) matches Some(v) && v.len() == 8
}

/// The call names a status in one byte.
pub open spec fn status_given(ctx: &Context) -> bool {
    ctx.argument("status"@) matches Some(v) && v.len() == 1
}

/// The uid that the call names.
pub open spec fn requested_uid(ctx: &Context) -> u64 {
    be_value(ctx.argument("uid"@)->0) as u64
}

/// The status that the call names.
pub open spec fn requested_status(ctx: &Context) -> bool {
    ctx.argument("status"@)->0[0] != 0
}

/// What recording an implementation does where the call names the
/// declaration by uid: the call must give the uid in eight bytes and the
/// status in one; the caller speaks for itself.
pub open spec fn implement_by_uid_spec(ctx: &Context, kind: Kind) -> Result<Seq<Row>, Fault> {
    if !uid_given(ctx) || !status_given(ctx) {
        Err(Fault::Argument)
    } else {
        match declare_at(ctx.rows(), kind, requested_uid(ctx)) {
            Ok(p) => implement_spec(
                ctx.rows(),
                kind,
                p,
                ctx.sender(),
                requested_status(ctx),
                ctx.argument_text("comment"@),
            ),
            Err(f) => Err(f),
        }
    }
}

/// What recording an implementation does where the call names the declaration by namespace and name.
pub open spec fn implement_by_name_spec(ctx: &Context, kind: Kind) -> Result<Seq<Row>, Fault> {
    if !status_given(ctx) {
        Err(Fault::Argument)
    } else {
        match declare_named(ctx.rows(), kind, ctx.argument_text("namespace"@), ctx.argument_text("name"@)) {
            Ok(p) => implement_spec(
                ctx.rows(),
                kind,
                p,
                ctx.sender(),
                requested_status(ctx),
                ctx.argument_text("comment"@),
            ),
            Err(f) => Err(f),
        }
    }
}

/// Records that the caller implements the declaration of a kind that the
/// call names by uid, or no longer does.
fn set_implement_by_uid(model: &mut ChainModel, kind: Kind) -> (r: Result<(), ContractError>)
    requires
        old(model).context.wf(),
        kind is DataDeclare || kind is FunctionDeclare,
    ensures
        final(model).context.wf(),
        final(model).context.same_call(&old(model).context),
        old(model).wf() ==> final(model).wf(),
        match implement_by_uid_spec(&old(model).context, kind) {
            Ok(rows) => r is Ok && final(model).rows() == rows,
            Err(f) => r matches Err(e) && fault(e) == f && final(model).rows() == old(model).rows(),
        },
{
    let org_id = model.ctx().get_sender_org_id();
    let uid = match model.ctx().arg_u64("uid") {
        Ok(v) => v,
        Err(e) => { return Err(ContractError::Context(e)); },
    };
    let status = match model.ctx().arg_bool("status") {
        Ok(v) => v,
        Err(e) => { return Err(ContractError::Context(e)); },
    };
    let comment = model.ctx().arg_as_utf8_str("comment");
    let declare = match load_declare(model, kind, uid) {
        Ok(d) => d,
        Err(e) => { return Err(e); },
    };
    proof {
        if model.wf() {
            lemma_kind_parsed_object(kind, json_decoded(stored(model.rows(), uid))->0);
        }
    }
    set_implement(model, declare, org_id, status, comment)
}

/// Records that the caller implements the declaration of a kind that the
/// call names by namespace and name, or no longer does.
fn set_implement_by_name(model: &mut ChainModel, kind: Kind) -> (r: Result<(), ContractError>)
    requires
        old(model).context.wf(),
        kind is DataDeclare || kind is FunctionDeclare,
    ensures
        final(model).context.wf(),
        final(model).context.same_call(&old(model).context),
        old(model).wf() ==> final(model).wf(),
        match implement_by_name_spec(&old(model).context, kind) {
            Ok(rows) => r is Ok && final(model).rows() == rows,
            Err(f) => r matches Err(e) && fault(e) == f && final(model).rows() == old(model).rows(),
        },
{
    let org_id = model.ctx().get_sender_org_id();
    let namespace = model.ctx().arg_as_utf8_str("namespace");
    let name = model.ctx().arg_as_utf8_str("name");
    let status = match model.ctx().arg_bool("status") {
        Ok(v) => v,
        Err(e) => { return Err(ContractError::Context(e)); },
    };
    let comment = model.ctx().arg_as_utf8_str("comment");
    let declare = match load_declare_by_name(model, kind, namespace.as_str(), name.as_str()) {
        Ok(d) => d,
        Err(e) => { return Err(e); },
    };
    proof {
        if model.wf() {
            let key = index_key_of(kind.meta().api_version, kind.meta().kind, namespace@, name@);
            let entry = crate::context::value_at(model.rows(), key, Seq::empty());
            let uid = crate::model::as_uid(entry)->0;
            lemma_kind_parsed_object(kind, json_decoded(stored(model.rows(), uid))->0);
        }
    }
    set_implement(model, declare, org_id, status, comment)
}

/// Records that the caller implements the data declaration that the call
/// names by uid, or no longer does. An
/// organization speaks for itself only.
pub fn set_data_implement_impl(model: &mut ChainModel) -> (r: Result<(), ContractError>)
    requires
        old(model).context.wf(),
    ensures
        final(model).context.wf(),
        final(model).context.same_call(&old(model).context),
        old(model).wf() ==> final(model).wf(),
        match implement_by_uid_spec(&old(model).context, Kind::DataDeclare) {
            Ok(rows) => r is Ok && final(model).rows() == rows,
            Err(f) => r matches Err(e) && fault(e) == f && final(model).rows() == old(model).rows(),
        },
{
    set_implement_by_uid(model, Kind::DataDeclare)
}

/// Records that the caller implements the data declaration that the call
/// names by namespace and name, or no longer does. An
/// organization speaks for itself only.
pub fn set_data_implement_by_name_impl(model: &mut ChainModel) -> (r: Result<(), ContractError>)
    requires
        old(model).context.wf(),
    ensures
        final(model).context.wf(),
        final(model).context.same_call(&old(model).context),
        old(model).wf() ==> final(model).wf(),
        match implement_by_name_spec(&old(model).context, Kind::DataDeclare) {
            Ok(rows) => r is Ok && final(model).rows() == rows,
            Err(f) => r matches Err(e) && fault(e) == f && final(model).rows() == old(model).rows(),
        },
{
    set_implement_by_name(model, Kind::DataDeclare)
}

/// Records that the caller implements the function declaration that the
/// call names by uid, or no longer does. An
/// organization speaks for itself only.
pub fn set_function_implement_impl(model: &mut ChainModel) -> (r: Result<(), ContractError>)
    requires
        old(model).context.wf(),
    ensures
        final(model).context.wf(),
        final(model).context.same_call(&old(model).context),
        old(model).wf() ==> final(model).wf(),
        match implement_by_uid_spec(&old(model).context, Kind::FunctionDeclare) {
            Ok(rows) => r is Ok && final(model).rows() == rows,
            Err(f) => r matches Err(e) && fault(e) == f && final(model).rows() == old(model).rows(),
        },
{
    set_implement_by_uid(model, Kind::FunctionDeclare)
}

/// Records that the caller implements the function declaration that the
/// call names by namespace and name, or no longer does. An
/// organization speaks for itself only.
pub fn set_function_implement_by_name_impl(model: &mut ChainModel) -> (r: Result<(), ContractError>)
    requires
        old(model).context.wf(),
    ensures
        final(model).context.wf(),
        final(model).context.same_call(&old(model).context),
        old(model).wf() ==> final(model).wf(),
        match implement_by_name_spec(&old(model).context, Kind::FunctionDeclare) {
            Ok(rows) => r is Ok && final(model).rows() == rows,
            Err(f) => r matches Err(e) && fault(e) == f && final(model).rows() == old(model).rows(),
        },
{
    set_implement_by_name(model, Kind::FunctionDeclare)
}

/// The call that records that the caller implements the data declaration named by the argument `uid`, or no longer does.
pub fn set_data_implement(ctx: Context) -> (out: Context)
    requires
        ctx.wf(),
    ensures
        out.wf(),
        ctx.in_order() ==> out.in_order(),
        out.sender() == ctx.sender(),
        out.counter() == ctx.counter(),
        match implement_by_uid_spec(&ctx, Kind::DataDeclare) {
            Ok(rows) => out.rows() == closed(rows, ctx.counter()) && answered_ok(&out, "ok".spec_bytes()),
            Err(f) => out.rows() == closed(ctx.rows(), ctx.counter()) && failed(&out),
        },
{
    let mut model = ChainModel::new(ctx);
    let r = set_data_implement_impl(&mut model);
    finish(model, r)
}

/// The call that records that the caller implements the data declaration named by the arguments `namespace` and `name`, or no longer does.
pub fn set_data_implement_by_name(ctx: Context) -> (out: Context)
    requires
        ctx.wf(),
    ensures
        out.wf(),
        ctx.in_order() ==> out.in_order(),
        out.sender() == ctx.sender(),
        out.counter() == ctx.counter(),
        match implement_by_name_spec(&ctx, Kind::DataDeclare) {
            Ok(rows) => out.rows() == closed(rows, ctx.counter()) && answered_ok(&out, "ok".spec_bytes()),
            Err(f) => out.rows() == closed(ctx.rows(), ctx.counter()) && failed(&out),
        },
{
    let mut model = ChainModel::new(ctx);
    let r = set_data_implement_by_name_impl(&mut model);
    finish(model, r)
}

/// The call that records that the caller implements the function declaration named by the argument `uid`, or no longer does.
pub fn set_function_implement(ctx: Context) -> (out: Context)
    requires
        ctx.wf(),
    ensures
        out.wf(),
        ctx.in_order() ==> out.in_order(),
        out.sender() == ctx.sender(),
        out.counter() == ctx.counter(),
        match implement_by_uid_spec(&ctx, Kind::FunctionDeclare) {
            Ok(rows) => out.rows() == closed(rows, ctx.counter()) && answered_ok(&out, "ok".spec_bytes()),
            Err(f) => out.rows() == closed(ctx.rows(), ctx.counter()) && failed(&out),
        },
{
    let mut model = ChainModel::new(ctx);
    let r = set_function_implement_impl(&mut model);
    finish(model, r)
}

/// The call that records that the caller implements the function declaration named by the arguments `namespace` and `name`, or no longer does.
pub fn set_function_implement_by_name(ctx: Context) -> (out: Context)
    requires
        ctx.wf(),
    ensures
        out.wf(),
        ctx.in_order() ==> out.in_order(),
        out.sender() == ctx.sender(),
        out.counter() == ctx.counter(),
        match implement_by_name_spec(&ctx, Kind::FunctionDeclare) {
            Ok(rows) => out.rows() == closed(rows, ctx.counter()) && answered_ok(&out, "ok".spec_bytes()),
            Err(f) => out.rows() == closed(ctx.rows(), ctx.counter()) && failed(&out),
        },
{
    let mut model = ChainModel::new(ctx);
    let r = set_function_implement_by_name_impl(&mut model);
    finish(model, r)
}

} // verus!
