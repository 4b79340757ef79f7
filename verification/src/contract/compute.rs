use vstd::prelude::*;
use vstd::string::*;
use crate::context::{delete_row, field_has_prefix, put_row, value_at, Context, Row};
use crate::contract::declare::{requested_uid, uid_given};
use crate::contract::entry::{answered_ok, closed, failed, finish_error, finish_ok, refuse};
use crate::contract::utils::{sys_call, SysCallError};
use crate::contract::workflow::{fault, Fault};
use crate::errors::ContractError;
use crate::json::{distinct_keys, json_decoded, json_encoded, Json, JsonView};
use crate::model::ChainModel;
use crate::objects::approval::is_approver;
use crate::objects::controller::{held, read_held};
use crate::objects::dynamic::{DynamicObject, StoreFault};
use crate::objects::kinds::Kind;
use crate::objects::parts::ParseFault;
use crate::objects::v1::contracts::{
    contract_spec_of, contract_spec_tree, lemma_contract_spec, lemma_uid_pairs_roundtrip, uid_pairs_json,
    uid_pairs_of, unique_names, Contract, ContractSpec, ContractSpecView,
    sorted_names,
};
use crate::text::strict_text;
use crate::utils::textmap::{lemma_with_pair, sorted_keys, with_pair, TextMap};

verus! {

/// The key under which the nodes of the organizations are registered, one field for each organization.
pub open spec fn node_table() -> Seq<char> {
    "t1d_"@
}

/// Registers the address named by the argument `addr` as the node of the calling organization.
pub fn register_node_impl(ctx: &mut Context) -> (r: Result<(), i32>)
    requires
        old(ctx).wf(),
    ensures
        r is Ok,
        final(ctx).wf(),
        final(ctx).same_call(old(ctx)),
        final(ctx).rows() == put_row(
            old(ctx).rows(),
            node_table(),
            old(ctx).sender(),
            vstd::utf8::encode_utf8(old(ctx).argument_text("addr"@)),
        ),
{
    let addr = ctx.arg_as_utf8_str("addr");
    let org_id = ctx.get_sender_org_id();
    let bytes = addr.as_str().as_bytes_vec();
    let _ = ctx.put_state("t1d_", org_id.as_str(), bytes.as_slice());
    Ok(())
}

/// Takes the node of the calling organization from the register.
pub fn logout_node_impl(ctx: &mut Context) -> (r: Result<(), SysCallError>)
    requires
        old(ctx).wf(),
    ensures
        r is Ok,
        final(ctx).wf(),
        final(ctx).same_call(old(ctx)),
        final(ctx).rows() == delete_row(old(ctx).rows(), node_table(), old(ctx).sender()),
{
    let org_id = ctx.get_sender_org_id();
    let _ = ctx.delete_state("t1d_", org_id.as_str());
    sys_call("delete_state", 0)
}

/// Why the nodes cannot be told.
#[derive(Debug)]
pub enum NodeError {
    /// A call to the ledger failed.
    SysCallError(SysCallError),
    /// The list of organizations is no JSON list of strings, or the answer cannot be written.
    InvalidJson(String),
    /// What is registered for an organization is no text.
    InvalidUrl(String),
}

/// Why the nodes cannot be told, without the words.
pub enum NodeFault {
    Json,
    Url,
}

/// The fault that an error reports.
pub open spec fn node_fault(e: NodeError) -> NodeFault {
    match e {
        NodeError::InvalidUrl(_) => NodeFault::Url,
        _ => NodeFault::Json,
    }
}

/// The nodes registered for the first `n` of some organizations, each with
/// its address; an organization that has none is passed over. `None`
/// where what is registered is no text.
pub open spec fn nodes_of(rows: Seq<Row>, orgs: Seq<Seq<char>>, n: nat) -> Option<Seq<(Seq<char>, Seq<char>)>>
    decreases n,
{
    if n == 0 || n > orgs.len() {
        Some(Seq::empty())
    } else {
        match nodes_of(rows, orgs, (n - 1) as nat) {
            Some(found) => {
                let address = value_at(rows, node_table(), orgs[n - 1]);
                if address.len() == 0 {
                    Some(found)
                } else if !vstd::utf8::valid_utf8(address) {
                    None
                } else {
                    Some(with_pair(found, orgs[n - 1], vstd::utf8::decode_utf8(address)))
                }
            },
            None => None,
        }
    }
}

/// The nodes that the first `n` rows of the register name, each organization with its address.
pub open spec fn nodes_in(found: Seq<Row>, n: nat) -> Option<Seq<(Seq<char>, Seq<char>)>>
    decreases n,
{
    if n == 0 || n > found.len() {
        Some(Seq::empty())
    } else {
        match nodes_in(found, (n - 1) as nat) {
            Some(before) => if !vstd::utf8::valid_utf8(found[n - 1].value) {
                None
            } else {
                Some(with_pair(before, found[n - 1].field, vstd::utf8::decode_utf8(found[n - 1].value)))
            },
            None => None,
        }
    }
}

/// The JSON object that names each organization with its address.
pub open spec fn nodes_text(nodes: Option<Seq<(Seq<char>, Seq<char>)>>) -> Result<Seq<u8>, NodeFault> {
    match nodes {
        Some(pairs) => match json_encoded(JsonView::of_text_pairs(pairs)) {
            Some(text) => Ok(text),
            None => Err(NodeFault::Json),
        },
        None => Err(NodeFault::Url),
    }
}

/// The bytes of an argument; none where the call has no such argument.
pub open spec fn argument_bytes(ctx: &Context, key: Seq<char>) -> Seq<u8> {
    match ctx.argument(key) {
        Some(v) => v,
        None => Seq::empty(),
    }
}

/// What asking for the nodes of some organizations gives: the argument
/// `orgs` must be a JSON list of strings.
pub open spec fn discover_nodes_spec(ctx: &Context) -> Result<Seq<u8>, NodeFault> {
    match json_decoded(argument_bytes(ctx, "orgs"@)) {
        Some(tree) => match tree.texts() {
            Some(orgs) => nodes_text(nodes_of(ctx.rows(), orgs, orgs.len())),
            None => Err(NodeFault::Json),
        },
        None => Err(NodeFault::Json),
    }
}

/// What asking for all nodes gives.
pub open spec fn discover_all_nodes_spec(ctx: &Context) -> Result<Seq<u8>, NodeFault> {
    let found = ctx.rows().filter(field_has_prefix(node_table(), Seq::empty()));
    nodes_text(nodes_in(found, found.len()))
}

proof fn lemma_nodes_of(rows: Seq<Row>, orgs: Seq<Seq<char>>, n: nat, m: nat)
    requires
        n <= m <= orgs.len(),
    ensures
        nodes_of(rows, orgs, n) is None ==> nodes_of(rows, orgs, m) is None,
        nodes_of(rows, orgs, m) matches Some(found) ==> sorted_keys(found),
    decreases m,
{
    if m > 0 {
        if n < m {
            lemma_nodes_of(rows, orgs, n, (m - 1) as nat);
        } else {
            lemma_nodes_of(rows, orgs, (m - 1) as nat, (m - 1) as nat);
        }
        if let Some(before) = nodes_of(rows, orgs, (m - 1) as nat) {
            let address = value_at(rows, node_table(), orgs[m - 1]);
            if address.len() > 0 && vstd::utf8::valid_utf8(address) {
                lemma_with_pair(before, orgs[m - 1], vstd::utf8::decode_utf8(address));
            }
        }
    }
}

proof fn lemma_nodes_in(found: Seq<Row>, n: nat, m: nat)
    requires
        n <= m <= found.len(),
    ensures
        nodes_in(found, n) is None ==> nodes_in(found, m) is None,
        nodes_in(found, m) matches Some(pairs) ==> sorted_keys(pairs),
    decreases m,
{
    if m > 0 {
        if n < m {
            lemma_nodes_in(found, n, (m - 1) as nat);
        } else {
            lemma_nodes_in(found, (m - 1) as nat, (m - 1) as nat);
        }
        if let Some(before) = nodes_in(found, (m - 1) as nat) {
            if vstd::utf8::valid_utf8(found[m - 1].value) {
                lemma_with_pair(before, found[m - 1].field, vstd::utf8::decode_utf8(found[m - 1].value));
            }
        }
    }
}

/// Writes the nodes as a JSON object.
fn write_nodes(nodes: &TextMap) -> (r: Result<Vec<u8>, NodeError>)
    requires
        nodes.wf(),
    ensures
        match nodes_text(Some(nodes@)) {
            Ok(text) => r matches Ok(t) && t@ == text,
            Err(f) => r matches Err(e) && node_fault(e) == f,
        },
{
    match nodes.to_json().to_vec() {
        Ok(text) => Ok(text),
        Err(msg) => Err(NodeError::InvalidJson(msg)),
    }
}

/// Tells the nodes of the organizations that the argument `orgs` lists, as a JSON object.
pub fn discover_nodes_impl(ctx: &Context) -> (r: Result<Vec<u8>, NodeError>)
    requires
        ctx.wf(),
    ensures
        match discover_nodes_spec(ctx) {
            Ok(text) => r matches Ok(t) && t@ == text,
            Err(f) => r matches Err(e) && node_fault(e) == f,
        },
{
    let orgs_json = match ctx.arg("orgs") {
        Ok(v) => v,
        Err(_) => Vec::new(),
    };
    let tree = match Json::parse(orgs_json.as_slice()) {
        Ok(j) => j,
        Err(msg) => { return Err(NodeError::InvalidJson(msg)); },
    };
    let orgs = match tree.texts() {
        Some(o) => o,
        None => { return Err(NodeError::InvalidJson(String::from_str("orgs must be a list of strings"))); },
    };
    let ghost names = crate::json::texts_of(orgs@);
    let mut ret = TextMap::new();
    let mut i: usize = 0;
    while i < orgs.len()
        invariant
            i <= orgs.len(),
            ctx.wf(),
            names == crate::json::texts_of(orgs@),
            json_decoded(argument_bytes(ctx, "orgs"@)) == Some(tree@),
            tree@.texts() == Some(names),
            ret.wf(),
            nodes_of(ctx.rows(), names, i as nat) == Some(ret@),
        decreases orgs.len() - i,
    {
        let out = match ctx.get_state("t1d_", orgs[i].as_str()) {
            Ok(v) => v,
            Err(_) => Vec::new(),
        };
        assert(names[i as int] == orgs[i as int]@);
        if out.len() > 0 {
            match strict_text(out.as_slice()) {
                Some(url) => {
                    ret.insert(orgs[i].clone(), url);
                },
                None => {
                    proof {
                        lemma_nodes_of(ctx.rows(), names, (i + 1) as nat, names.len());
                    }
                    return Err(NodeError::InvalidUrl(orgs[i].clone()));
                },
            }
        }
        i = i + 1;
    }
    write_nodes(&ret)
}

/// Tells the nodes of all organizations, as a JSON object.
pub fn discover_all_nodes_impl(ctx: &Context) -> (r: Result<Vec<u8>, NodeError>)
    requires
        ctx.wf(),
    ensures
        match discover_all_nodes_spec(ctx) {
            Ok(text) => r matches Ok(t) && t@ == text,
            Err(f) => r matches Err(e) && node_fault(e) == f,
        },
{
    let mut iter = match ctx.iter_prefix_field("t1d_", "") {
        Ok(c) => c,
        Err(_) => { return Err(NodeError::InvalidJson(String::from_str("no cursor"))); },
    };
    proof {
        reveal_strlit("");
        assert(""@ =~= Seq::<char>::empty());
    }
    let ghost found = iter.remaining();
    let ghost mut seen: int = 0;
    let mut ret = TextMap::new();
    loop
        invariant
            found == ctx.rows().filter(field_has_prefix(node_table(), Seq::empty())),
            0 <= seen <= found.len(),
            iter.remaining() == found.subrange(seen, found.len() as int),
            ret.wf(),
            nodes_in(found, seen as nat) == Some(ret@),
        decreases found.len() - seen,
    {
        let item = match iter.next_item() {
            Ok(i) => i,
            Err(_) => { return Err(NodeError::InvalidJson(String::from_str("no row"))); },
        };
        match item {
            Some((_, field, value)) => {
                assert(found.subrange(seen, found.len() as int)[0] == found[seen]);
                match strict_text(value.as_slice()) {
                    Some(url) => {
                        ret.insert(field, url);
                    },
                    None => {
                        proof {
                            lemma_nodes_in(found, (seen + 1) as nat, found.len());
                        }
                        return Err(NodeError::InvalidUrl(field));
                    },
                }
                proof {
                    assert(found.subrange(seen, found.len() as int).drop_first() =~= found.subrange(
                        seen + 1,
                        found.len() as int,
                    ));
                    seen = seen + 1;
                }
            },
            None => {
                assert(seen == found.len());
                return write_nodes(&ret);
            },
        }
    }
}

/// The call that registers the node of the caller.
pub fn register_node(ctx: Context) -> (out: Context)
    requires
        ctx.wf(),
    ensures
        out.wf(),
        out.counter() == ctx.counter(),
        out.sender() == ctx.sender(),
        out.rows() == closed(
            put_row(ctx.rows(), node_table(), ctx.sender(), vstd::utf8::encode_utf8(ctx.argument_text("addr"@))),
            ctx.counter(),
        ),
        answered_ok(&out, "ok".spec_bytes()),
{
    let mut ctx = ctx;
    let _ = register_node_impl(&mut ctx);
    let payload = "ok".as_bytes_vec();
    finish_ok(ChainModel::new(ctx), &payload)
}

/// The call that takes the node of the caller from the register.
pub fn logout_node(ctx: Context) -> (out: Context)
    requires
        ctx.wf(),
    ensures
        out.wf(),
        out.counter() == ctx.counter(),
        out.sender() == ctx.sender(),
        out.rows() == closed(delete_row(ctx.rows(), node_table(), ctx.sender()), ctx.counter()),
        answered_ok(&out, "ok".spec_bytes()),
{
    let mut ctx = ctx;
    let _ = logout_node_impl(&mut ctx);
    let payload = "ok".as_bytes_vec();
    finish_ok(ChainModel::new(ctx), &payload)
}

impl NodeError {
    /// What the error says, as mathematical text.
    pub open spec fn text(self) -> Seq<char> {
        match self {
            NodeError::SysCallError(e) => "SysCallError: "@ + e.text(),
            NodeError::InvalidJson(msg) => "InvalidJson: "@ + msg@,
            NodeError::InvalidUrl(org) => "registered url is not valid utf-8, org: "@ + org@,
        }
    }

    /// What the error says.
    pub fn message(&self) -> (r: String)
        ensures
            r@ == self.text(),
    {
        match self {
            NodeError::SysCallError(e) => {
                let mut r = String::from_str("SysCallError: ");
                let inner = e.to_text();
                r.append(inner.as_str());
                r
            },
            NodeError::InvalidJson(msg) => {
                let mut r = String::from_str("InvalidJson: ");
                r.append(msg.as_str());
                r
            },
            NodeError::InvalidUrl(org) => {
                let mut r = String::from_str("registered url is not valid utf-8, org: ");
                r.append(org.as_str());
                r
            },
        }
    }
}

/// The call that tells the nodes of the organizations that the argument `orgs` lists.
pub fn discover_nodes(ctx: Context) -> (out: Context)
    requires
        ctx.wf(),
    ensures
        out.wf(),
        ctx.in_order() ==> out.in_order(),
        out.counter() == ctx.counter(),
        out.sender() == ctx.sender(),
        out.rows() == closed(ctx.rows(), ctx.counter()),
        match discover_nodes_spec(&ctx) {
            Ok(text) => answered_ok(&out, text),
            Err(f) => failed(&out),
        },
{
    match discover_nodes_impl(&ctx) {
        Ok(v) => finish_ok(ChainModel::new(ctx), &v),
        Err(e) => {
            let message = e.message();
            refuse(ctx, message.as_str())
        },
    }
}

/// The call that tells the nodes of all organizations.
pub fn discover_all_nodes(ctx: Context) -> (out: Context)
    requires
        ctx.wf(),
    ensures
        out.wf(),
        ctx.in_order() ==> out.in_order(),
        out.counter() == ctx.counter(),
        out.sender() == ctx.sender(),
        out.rows() == closed(ctx.rows(), ctx.counter()),
        match discover_all_nodes_spec(&ctx) {
            Ok(text) => answered_ok(&out, text),
            Err(f) => failed(&out),
        },
{
    match discover_all_nodes_impl(&ctx) {
        Ok(v) => finish_ok(ChainModel::new(ctx), &v),
        Err(e) => {
            let message = e.message();
            refuse(ctx, message.as_str())
        },
    }
}

/// Of the first `n` declarations that a contract refers to, those that an
/// organization has implemented, by name and uid. Nothing at all where a
/// uid holds no object; a fault where what it holds is no declaration of the kind.
pub open spec fn available(rows: Seq<Row>, kind: Kind, refs: Seq<(Seq<char>, u64)>, org: Seq<char>, n: nat) -> Result<
    Option<Seq<(Seq<char>, u64)>>,
    ParseFault,
>
    decreases n,
{
    if n == 0 || n > refs.len() {
        Ok(Some(Seq::empty()))
    } else {
        match available(rows, kind, refs, org, (n - 1) as nat) {
            Ok(Some(found)) => match held(rows, kind, refs[n - 1].1) {
                Some(Ok(p)) => if is_approver(kind, p, org) {
                    Ok(Some(found.push(refs[n - 1])))
                } else {
                    Ok(Some(found))
                },
                Some(Err(f)) => Err(f),
                None => Ok(None),
            },
            other => other,
        }
    }
}

/// What the caller is told of a contract: its `spec`, and the data and
/// the functions that the caller has implemented.
pub open spec fn contract_answer(spec: ContractSpecView, data: Seq<(Seq<char>, u64)>, functions: Seq<(Seq<char>, u64)>) -> JsonView {
    JsonView::Object(
        seq![
            ("spec"@, contract_spec_tree(spec)),
            ("data"@, JsonView::of_uid_pairs(data)),
            ("function"@, JsonView::of_uid_pairs(functions)),
        ],
    )
}

/// What asking for a contract gives an organization: nothing where the uid
/// holds no object, or where a declaration that the contract refers to is gone.
pub open spec fn get_contract_spec(rows: Seq<Row>, uid: u64, org: Seq<char>) -> Result<Option<Seq<u8>>, Fault> {
    match held(rows, Kind::Contract, uid) {
        Some(Ok(p)) => {
            let spec = contract_spec_of(p.spec)->0;
            match available(rows, Kind::DataDeclare, spec.data, org, spec.data.len()) {
                Ok(Some(data)) => match available(rows, Kind::FunctionDeclare, spec.functions, org, spec.functions.len()) {
                    Ok(Some(functions)) => match json_encoded(contract_answer(spec, data, functions)) {
                        Some(text) => Ok(Some(text)),
                        None => Err(Fault::Store(StoreFault::Json)),
                    },
                    Ok(None) => Ok(None),
                    Err(f) => Err(Fault::Parse(f)),
                },
                Ok(None) => Ok(None),
                Err(f) => Err(Fault::Parse(f)),
            }
        },
        Some(Err(f)) => Err(Fault::Parse(f)),
        None => Ok(None),
    }
}

/// What is found among some declarations is named there, so no name occurs twice in it where none does there.
pub proof fn lemma_available(rows: Seq<Row>, kind: Kind, refs: Seq<(Seq<char>, u64)>, org: Seq<char>, n: nat, m: nat)
    requires
        n <= m <= refs.len(),
        unique_names(refs),
    ensures
        !(available(rows, kind, refs, org, n) matches Ok(Some(_))) ==> available(rows, kind, refs, org, m) == available(
            rows,
            kind,
            refs,
            org,
            n,
        ),
        available(rows, kind, refs, org, m) matches Ok(Some(found)) ==> unique_names(found) && forall|k: int|
            0 <= k < found.len() ==> exists|i: int| 0 <= i < m && refs[i] == #[trigger] found[k],
    decreases m,
{
    if m > 0 {
        if n < m {
            lemma_available(rows, kind, refs, org, n, (m - 1) as nat);
        } else {
            lemma_available(rows, kind, refs, org, (m - 1) as nat, (m - 1) as nat);
        }
        if let Ok(Some(found)) = available(rows, kind, refs, org, m) {
            let before = available(rows, kind, refs, org, (m - 1) as nat)->Ok_0->0;
            assert forall|k: int| 0 <= k < found.len() implies exists|i: int| 0 <= i < m && refs[i] == #[trigger] found[k] by {
                if k < before.len() {
                    let i = choose|i: int| 0 <= i < m - 1 && refs[i] == before[k];
                    assert(refs[i] == found[k]);
                } else {
                    assert(refs[m - 1] == found[k]);
                }
            }
            assert forall|a: int, b: int| 0 <= a < b < found.len() implies (#[trigger] found[a]).0 != (
            #[trigger] found[b]).0 by {
                if b == before.len() {
                    let i = choose|i: int| 0 <= i < m - 1 && refs[i] == before[a];
                    assert(refs[i].0 != refs[m - 1].0);
                }
            }
        }
    }
}

/// Of the declarations of a kind that a contract refers to, those that an organization has implemented.
fn collect_available(model: &ChainModel, kind: Kind, refs: &Vec<(String, u64)>, org_id: &str) -> (r: Result<
    Option<Vec<(String, u64)>>,
    ContractError,
>)
    requires
        model.context.wf(),
        unique_names(uid_pairs_of(refs@)),
    ensures
        match available(model.rows(), kind, uid_pairs_of(refs@), org_id@, refs@.len() as nat) {
            Ok(Some(found)) => r matches Ok(Some(v)) && uid_pairs_of(v@) == found && unique_names(found),
            Ok(None) => r matches Ok(None),
            Err(f) => r matches Err(e) && fault(e) == Fault::Parse(f),
        },
{
    let ghost names = uid_pairs_of(refs@);
    let mut found: Vec<(String, u64)> = Vec::new();
    let mut i: usize = 0;
    assert(uid_pairs_of(found@) =~= Seq::<(Seq<char>, u64)>::empty());
    while i < refs.len()
        invariant
            i <= refs.len(),
            model.context.wf(),
            names == uid_pairs_of(refs@),
            unique_names(names),
            available(model.rows(), kind, names, org_id@, i as nat) == Ok::<Option<Seq<(Seq<char>, u64)>>, ParseFault>(
                Some(uid_pairs_of(found@)),
            ),
        decreases refs.len() - i,
    {
        assert(names[i as int] == (refs[i as int].0@, refs[i as int].1));
        let declare = match read_held(model, kind, refs[i].1) {
            Ok(Some(d)) => d,
            Ok(None) => {
                proof {
                    lemma_available(model.rows(), kind, names, org_id@, (i + 1) as nat, names.len());
                }
                return Ok(None);
            },
            Err(crate::errors::ActionFnError::Deserialize(d)) => {
                proof {
                    lemma_available(model.rows(), kind, names, org_id@, (i + 1) as nat, names.len());
                }
                return Err(ContractError::Deserialize(d));
            },
            Err(e) => {
                proof {
                    lemma_available(model.rows(), kind, names, org_id@, (i + 1) as nat, names.len());
                }
                return Err(ContractError::ActionFn(e));
            },
        };
        if declare.has_approver(org_id) {
            let ghost before = uid_pairs_of(found@);
            found.push((refs[i].0.clone(), refs[i].1));
            assert(uid_pairs_of(found@) =~= before.push(names[i as int]));
        }
        i = i + 1;
    }
    proof {
        lemma_available(model.rows(), kind, names, org_id@, names.len(), names.len());
    }
    Ok(Some(found))
}

/// Tells the caller of the contract under the uid that the call names:
/// its `spec`, and the data and functions that the caller has implemented.
pub fn get_contract_impl(model: &ChainModel) -> (r: Result<Option<Vec<u8>>, ContractError>)
    requires
        model.context.wf(),
    ensures
        if !uid_given(&model.context) {
            r matches Err(e) && fault(e) == Fault::Argument
        } else {
            match get_contract_spec(model.rows(), requested_uid(&model.context), model.context.sender()) {
                Ok(Some(text)) => r matches Ok(Some(t)) && t@ == text,
                Ok(None) => r matches Ok(None),
                Err(f) => r matches Err(e) && fault(e) == f,
            }
        },
{
    let uid = match model.ctx().arg_u64("uid") {
        Ok(v) => v,
        Err(e) => { return Err(ContractError::Context(e)); },
    };
    let org_id = model.ctx().get_sender_org_id();
    let contract = match read_held(model, Kind::Contract, uid) {
        Ok(Some(DynamicObject::Contract(c))) => c,
        Ok(Some(_)) => { return Ok(None); },
        Ok(None) => { return Ok(None); },
        Err(crate::errors::ActionFnError::Deserialize(d)) => { return Err(ContractError::Deserialize(d)); },
        Err(e) => { return Err(ContractError::ActionFn(e)); },
    };
    proof {
        lemma_contract_spec(contract.spec@);
    }
    let data = match collect_available(model, Kind::DataDeclare, &contract.spec.data, org_id.as_str()) {
        Ok(Some(d)) => d,
        Ok(None) => { return Ok(None); },
        Err(e) => { return Err(e); },
    };
    let functions = match collect_available(model, Kind::FunctionDeclare, &contract.spec.functions, org_id.as_str()) {
        Ok(Some(f)) => f,
        Ok(None) => { return Ok(None); },
        Err(e) => { return Err(e); },
    };
    answer_text(&contract.spec, &data, &functions)
}

/// The text that tells of a contract: its `spec`, and the data and functions named.
fn answer_text(spec: &ContractSpec, data: &Vec<(String, u64)>, functions: &Vec<(String, u64)>) -> (r: Result<
    Option<Vec<u8>>,
    ContractError,
>)
    requires
        sorted_names(spec@.data),
        sorted_names(spec@.functions),
        unique_names(uid_pairs_of(data@)),
        unique_names(uid_pairs_of(functions@)),
    ensures
        match json_encoded(contract_answer(spec@, uid_pairs_of(data@), uid_pairs_of(functions@))) {
            Some(text) => r matches Ok(Some(t)) && t@ == text,
            None => r matches Err(e) && fault(e) == Fault::Store(StoreFault::Json),
        },
{
    let mut members: Vec<(String, Json)> = Vec::new();
    members.push((String::from_str("spec"), spec.to_value()));
    members.push((String::from_str("data"), uid_pairs_json(data)));
    members.push((String::from_str("function"), uid_pairs_json(functions)));
    let res = Json::object(members);
    proof {
        let tree = contract_answer(spec@, uid_pairs_of(data@), uid_pairs_of(functions@));
        assert(res@.members()->0 =~= tree.members()->0);
        lemma_contract_spec(spec@);
        lemma_uid_pairs_roundtrip(uid_pairs_of(data@));
        lemma_uid_pairs_roundtrip(uid_pairs_of(functions@));
        reveal_strlit("spec");
        reveal_strlit("data");
        reveal_strlit("function");
        assert("spec"@[0] == 's' && "data"@[0] == 'd' && "function"@[0] == 'f');
        reveal_with_fuel(JsonView::well_formed, 2);
        assert(distinct_keys(tree.members()->0));
        assert(tree.well_formed());
    }
    match res.to_vec() {
        Ok(text) => Ok(Some(text)),
        Err(msg) => Err(ContractError::Json(msg)),
    }
}

/// The call that tells the caller of the contract named by the argument `uid`.
pub fn get_contract(ctx: Context) -> (out: Context)
    requires
        ctx.wf(),
    ensures
        out.wf(),
        ctx.in_order() ==> out.in_order(),
        out.counter() == ctx.counter(),
        out.sender() == ctx.sender(),
        out.rows() == closed(ctx.rows(), ctx.counter()),
        if !uid_given(&ctx) {
            failed(&out)
        } else {
            match get_contract_spec(ctx.rows(), requested_uid(&ctx), ctx.sender()) {
                Ok(Some(text)) => answered_ok(&out, text),
                Ok(None) => answered_ok(&out, Seq::empty()),
                Err(f) => failed(&out),
            }
        },
{
    let model = ChainModel::new(ctx);
    match get_contract_impl(&model) {
        Ok(Some(v)) => finish_ok(model, &v),
        Ok(None) => finish_ok(model, &Vec::new()),
        Err(e) => finish_error(model, &e),
    }
}

} // verus!
