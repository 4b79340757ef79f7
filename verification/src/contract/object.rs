use vstd::prelude::*;
use vstd::string::*;
use crate::codec::index_key_of;
use crate::context::{key_has_prefix, Context, Row};
use crate::contract::declare::{requested_uid, uid_given};
use crate::contract::entry::{answered_ok, closed, failed, finish_with};
use crate::contract::workflow::{fault, Fault};
use crate::errors::{ContractError, InvalidObjectError};
use crate::model::{json_array, listed_text, named_text, scan_prefix, stored, texts_at, uids_in, ChainModel};
use crate::objects::controller::controller;
use crate::objects::dynamic::StoreFault;
use crate::objects::kinds::{namespaced, versioned, Kind};
use crate::objects::meta::{TypeMeta, TypeMetaView};

verus! {

/// The text, or no bytes where there is none.
pub open spec fn text_or_nothing(found: Result<Option<Seq<u8>>, StoreFault>) -> Result<Seq<u8>, Fault> {
    match found {
        Ok(Some(text)) => Ok(text),
        Ok(None) => Ok(Seq::empty()),
        Err(f) => Err(Fault::Store(f)),
    }
}

/// What a lookup by type, namespace, name and version gives. The type must
/// be registered; a namespace must be given if and only if the type lies in
/// one; a version may be given only where the type carries one. With a
/// version, and for a type without versions, the one object of that name is
/// looked up; for a type with versions and no version given, all versions
/// of that name are listed. What is not found gives no bytes.
pub open spec fn named_object_spec(
    rows: Seq<Row>,
    meta: TypeMetaView,
    namespace: Seq<char>,
    name: Seq<char>,
    version: Seq<char>,
) -> Result<Seq<u8>, Fault> {
    match Kind::of(meta) {
        Some(kind) => {
            let key = index_key_of(meta.api_version, meta.kind, namespace, name);
            if (namespace.len() == 0) == kind.is_namespaced() {
                Err(Fault::InvalidObject)
            } else if version.len() > 0 {
                if !kind.is_versioned() {
                    Err(Fault::InvalidObject)
                } else {
                    text_or_nothing(named_text(rows, key, version))
                }
            } else if kind.is_versioned() {
                text_or_nothing(listed_text(rows, key))
            } else {
                text_or_nothing(named_text(rows, key, Seq::empty()))
            }
        },
        None => Err(Fault::InvalidObject),
    }
}

/// What a lookup by type gives: the JSON array of the objects that the
/// index holds for the type, in the order of the ledger; those of one
/// namespace where the namespace is not empty.
pub open spec fn kind_objects_spec(rows: Seq<Row>, meta: TypeMetaView, namespace: Seq<char>) -> Result<Seq<u8>, Fault> {
    match uids_in(rows.filter(key_has_prefix(scan_prefix(meta, namespace)))) {
        Some(uids) => match texts_at(rows, uids) {
            Some(texts) => Ok(json_array(texts)),
            None => Err(Fault::Store(StoreFault::State)),
        },
        None => Err(Fault::Store(StoreFault::State)),
    }
}

/// The text of the object under the uid that the call names in its argument `uid`.
pub fn get_object_by_uid_impl(model: &ChainModel) -> (r: Result<Option<Vec<u8>>, ContractError>)
    requires
        model.context.wf(),
    ensures
        match r {
            Ok(Some(text)) => uid_given(&model.context) && text@ == stored(model.rows(), requested_uid(&model.context))
                && text@.len() > 0,
            Ok(None) => uid_given(&model.context) && stored(model.rows(), requested_uid(&model.context)).len() == 0,
            Err(e) => !uid_given(&model.context) && fault(e) == Fault::Argument,
        },
{
    let uid = match model.ctx().arg_u64("uid") {
        Ok(v) => v,
        Err(e) => { return Err(ContractError::Context(e)); },
    };
    match model.get_raw_object_by_uid(uid) {
        Ok(out) => Ok(out),
        Err(e) => Err(ContractError::ChainModel(e)),
    }
}

/// The objects of a type, as a JSON array.
pub fn get_object_by_kind_impl(model: &ChainModel, api_version: String, kind: String, namespace: String) -> (r: Result<
    Vec<u8>,
    ContractError,
>)
    requires
        model.context.wf(),
    ensures
        match kind_objects_spec(
            model.rows(),
            TypeMetaView { api_version: api_version@, kind: kind@ },
            namespace@,
        ) {
            Ok(text) => r matches Ok(t) && t@ == text,
            Err(f) => r matches Err(e) && fault(e) == f,
        },
{
    let type_meta = TypeMeta { api_version, kind };
    let uids = match model.get_uid_by_type(&type_meta, namespace.as_str()) {
        Ok(u) => u,
        Err(e) => { return Err(ContractError::ChainModel(e)); },
    };
    match model.get_raw_objects(&uids) {
        Ok(ret) => Ok(ret),
        Err(e) => Err(ContractError::ChainModel(e)),
    }
}

/// An error that says a request does not fit the type it names.
fn invalid_request(reason: &str, type_meta: &TypeMeta) -> (e: ContractError)
    ensures
        fault(e) == Fault::InvalidObject,
{
    let mut text = String::from_str(reason);
    text.append(" ");
    let shown = type_meta.to_text();
    text.append(shown.as_str());
    ContractError::InvalidObject(InvalidObjectError::new(text))
}

/// The text, or no bytes where there is none.
fn unwrap_text(found: Result<Option<Vec<u8>>, crate::errors::ChainModelError>) -> (r: Result<Vec<u8>, ContractError>)
    ensures
        match found {
            Ok(Some(text)) => r matches Ok(t) && t@ == text@,
            Ok(None) => r matches Ok(t) && t@ == Seq::<u8>::empty(),
            Err(c) => r matches Err(e) && fault(e) == Fault::Store(crate::objects::dynamic::store_fault(c)),
        },
{
    match found {
        Ok(Some(text)) => Ok(text),
        Ok(None) => Ok(Vec::new()),
        Err(e) => Err(ContractError::ChainModel(e)),
    }
}

/// The object, or the objects, of a type that the index names for a
/// namespace, a name and a version; the empty text stands for no namespace
/// and for no version.
pub fn get_object_by_name_impl(
    model: &ChainModel,
    api_version: String,
    kind: String,
    namespace: String,
    name: String,
    version: String,
) -> (r: Result<Vec<u8>, ContractError>)
    requires
        model.context.wf(),
    ensures
        match named_object_spec(
            model.rows(),
            TypeMetaView { api_version: api_version@, kind: kind@ },
            namespace@,
            name@,
            version@,
        ) {
            Ok(text) => r matches Ok(t) && t@ == text,
            Err(f) => r matches Err(e) && fault(e) == f,
        },
{
    let type_meta = TypeMeta { api_version, kind };
    if controller(&type_meta).is_none() {
        return Err(invalid_request("unsupported object type", &type_meta));
    }
    let ty_namespaced = namespaced(&type_meta);
    let no_namespace = namespace.as_str().unicode_len() == 0;
    let ns = if no_namespace {
        if ty_namespaced {
            return Err(invalid_request("request has no namespace, but objects lie in one, of type", &type_meta));
        }
        None
    } else {
        if !ty_namespaced {
            return Err(invalid_request("request has a namespace, but objects lie in none, of type", &type_meta));
        }
        Some(namespace.as_str())
    };
    assert(crate::model::or_empty(crate::model::opt_str(ns)) =~= namespace@);
    let no_version = version.as_str().unicode_len() == 0;
    if !no_version {
        if !versioned(&type_meta) {
            return Err(invalid_request("request has a version, but objects carry none, of type", &type_meta));
        }
        unwrap_text(model.get_raw_object_by_name_version(&type_meta, name.as_str(), ns, Some(version.as_str())))
    } else {
        assert(version@ =~= Seq::<char>::empty());
        if versioned(&type_meta) {
            unwrap_text(model.get_raw_object_by_ns_name(&type_meta, name.as_str(), ns))
        } else {
            unwrap_text(model.get_raw_object_by_name_version(&type_meta, name.as_str(), ns, None))
        }
    }
}

/// The call that reads the object under the uid named by the argument
/// `uid`. It is answered with the text of the object, or with no bytes
/// where the uid holds none.
pub fn get_object_by_uid(ctx: Context) -> (out: Context)
    requires
        ctx.wf(),
    ensures
        out.wf(),
        ctx.in_order() ==> out.in_order(),
        out.sender() == ctx.sender(),
        out.counter() == ctx.counter(),
        out.rows() == closed(ctx.rows(), ctx.counter()),
        if uid_given(&ctx) {
            answered_ok(&out, stored(ctx.rows(), requested_uid(&ctx)))
        } else {
            failed(&out)
        },
{
    let model = ChainModel::new(ctx);
    let r = match get_object_by_uid_impl(&model) {
        Ok(Some(v)) => Ok(v),
        Ok(None) => Ok(Vec::new()),
        Err(e) => Err(e),
    };
    proof {
        if r is Ok {
            assert(r->Ok_0@ =~= stored(model.rows(), requested_uid(&model.context)));
        }
    }
    finish_with(model, r)
}

/// The call that lists the objects of the type named by the arguments
/// `apiVersion` and `kind`; those of one namespace where the argument
/// `namespace` is not empty.
pub fn get_object_by_kind(ctx: Context) -> (out: Context)
    requires
        ctx.wf(),
    ensures
        out.wf(),
        ctx.in_order() ==> out.in_order(),
        out.sender() == ctx.sender(),
        out.counter() == ctx.counter(),
        out.rows() == closed(ctx.rows(), ctx.counter()),
        match kind_objects_spec(
            ctx.rows(),
            TypeMetaView { api_version: ctx.argument_text("apiVersion"@), kind: ctx.argument_text("kind"@) },
            ctx.argument_text("namespace"@),
        ) {
            Ok(text) => answered_ok(&out, text),
            Err(f) => failed(&out),
        },
{
    let namespace = ctx.arg_as_utf8_str("namespace");
    let api_version = ctx.arg_as_utf8_str("apiVersion");
    let kind = ctx.arg_as_utf8_str("kind");
    let model = ChainModel::new(ctx);
    let r = get_object_by_kind_impl(&model, api_version, kind, namespace);
    finish_with(model, r)
}

/// The call that looks up the object, or the objects, of the type named
/// by the arguments `apiVersion` and `kind` under the arguments
/// `namespace`, `name` and `version`.
pub fn get_object_by_name(ctx: Context) -> (out: Context)
    requires
        ctx.wf(),
    ensures
        out.wf(),
        ctx.in_order() ==> out.in_order(),
        out.sender() == ctx.sender(),
        out.counter() == ctx.counter(),
        out.rows() == closed(ctx.rows(), ctx.counter()),
        match named_object_spec(
            ctx.rows(),
            TypeMetaView { api_version: ctx.argument_text("apiVersion"@), kind: ctx.argument_text("kind"@) },
            ctx.argument_text("namespace"@),
            ctx.argument_text("name"@),
            ctx.argument_text("version"@),
        ) {
            Ok(text) => answered_ok(&out, text),
            Err(f) => failed(&out),
        },
{
    let api_version = ctx.arg_as_utf8_str("apiVersion");
    let kind = ctx.arg_as_utf8_str("kind");
    let namespace = ctx.arg_as_utf8_str("namespace");
    let name = ctx.arg_as_utf8_str("name");
    let version = ctx.arg_as_utf8_str("version");
    let model = ChainModel::new(ctx);
    let r = get_object_by_name_impl(&model, api_version, kind, namespace, name, version);
    finish_with(model, r)
}

} // verus!
