use contract::codec::uid_to_be_bytes;
use contract::context::Context;
use contract::contract::compute::{logout_node_impl, register_node_impl};
use contract::contract::declare::{
    set_data_implement, set_data_implement_by_name, set_data_implement_impl, set_function_implement,
    set_function_implement_by_name, set_function_implement_by_name_impl,
};
use contract::contract::globalproposal::{
    commit_global_proposal, commit_global_proposal_by_name, create_global_proposal, permit_global_proposal,
    permit_global_proposal_by_name, revoke_global_proposal, revoke_global_proposal_by_name,
};
use contract::contract::object::{
    get_object_by_kind, get_object_by_kind_impl, get_object_by_name, get_object_by_name_impl, get_object_by_uid,
    get_object_by_uid_impl,
};
use contract::contract::proposal::{
    commit_proposal, commit_proposal_by_name, create_proposal, permit_proposal, permit_proposal_by_name,
    revoke_proposal, revoke_proposal_by_name,
};
use contract::contract::utils::{sys_call, sys_call_err};
use contract::contract::{init_contract, load, next_uid, reinit_state, save, upgrade, whoami};
use contract::errors::ContractError;
use contract::model::ChainModel;
use contract::objects::dynamic::DynamicObject;

fn call(previous: &Context, sender: &str, args: &[(&str, &[u8])]) -> Context {
    let args = args.iter().map(|(k, v)| (k.to_string(), v.to_vec())).collect();
    Context::new(sender.to_string(), args, previous.entries()).unwrap()
}

fn ok_payload(ctx: &Context) -> Vec<u8> {
    match ctx.reply() {
        Some((true, payload)) => payload,
        other => panic!("the call failed: {:?}", other.map(|(ok, p)| (ok, String::from_utf8_lossy(&p).into_owned()))),
    }
}

fn error_text(ctx: &Context) -> String {
    match ctx.reply() {
        Some((false, payload)) => String::from_utf8(payload).unwrap(),
        _ => panic!("the call did not fail"),
    }
}

const NS_PROPOSAL: &[u8] = b"{\"apiVersion\":\"core/v1\",\"kind\":\"globalproposal\",\"metadata\":{\"name\":\"make-ns1\"},\"spec\":{\"actions\":[{\"create\":{\"object\":{\"apiVersion\":\"core/v1\",\"kind\":\"namespace\",\"metadata\":{\"name\":\"ns1\"},\"spec\":{\"members\":[\"orgA\"]}}}}]}}";
const DATA_PROPOSAL: &[u8] = b"{\"apiVersion\":\"core/v1\",\"kind\":\"proposal\",\"metadata\":{\"name\":\"add-d1\",\"namespace\":\"\"},\"spec\":{\"actions\":[{\"create\":{\"object\":{\"apiVersion\":\"core/v1\",\"kind\":\"datadeclare\",\"metadata\":{\"name\":\"d1\",\"namespace\":\"ns1\"},\"spec\":{\"dataType\":\"t\",\"description\":\"\"}}}},{\"create\":{\"object\":{\"apiVersion\":\"core/v1\",\"kind\":\"functiondeclare\",\"metadata\":{\"name\":\"f1\",\"namespace\":\"ns1\"},\"spec\":{\"args\":[],\"retType\":\"t\",\"description\":\"\"}}}}]}}";

#[test]
fn calls_from_first_to_last() {
    let start = init_contract(Context::fresh("orgA".to_string(), vec![]));
    assert_eq!(start.next_uid(), 1);

    let made = create_global_proposal(call(&start, "orgA", &[("object", NS_PROPOSAL)]));
    assert_eq!(ok_payload(&made), uid_to_be_bytes(1));
    assert_eq!(made.get_state_from_key("t0_nextuid").unwrap(), uid_to_be_bytes(2));

    let refused = create_global_proposal(call(&made, "orgA", &[]));
    assert!(error_text(&refused).starts_with("get arg failed, key: object"));
    let refused = create_global_proposal(call(&made, "orgA", &[("object", NS_PROPOSAL)]));
    assert_eq!(error_text(&refused), "name conflict");
    assert_eq!(refused.next_uid(), 3);

    let uid = uid_to_be_bytes(1);
    let stranger = permit_global_proposal(call(&refused, "orgB", &[("uid", &uid), ("status", &[1]), ("comment", b"hi")]));
    assert_eq!(error_text(&stranger), "create not relevent, you have no say on this object");
    let no_status = permit_global_proposal(call(&refused, "orgA", &[("uid", &uid)]));
    assert!(error_text(&no_status).starts_with("get arg failed, key: status"));
    let permitted = permit_global_proposal(call(&refused, "orgA", &[("uid", &uid), ("status", &[1]), ("comment", b"hi")]));
    assert_eq!(ok_payload(&permitted), b"ok".to_vec());
    let taken_back = permit_global_proposal_by_name(call(&permitted, "orgA", &[("name", b"make-ns1"), ("status", &[0])]));
    assert_eq!(ok_payload(&taken_back), b"ok".to_vec());
    let no_name = permit_global_proposal_by_name(call(&taken_back, "orgA", &[("status", &[0])]));
    assert_eq!(error_text(&no_name), "name can't be empty");
    let early = commit_global_proposal(call(&taken_back, "orgA", &[("uid", &uid)]));
    assert_eq!(error_text(&early), "create not commitable, not permitted by all who have a say");
    let again = permit_global_proposal_by_name(call(&taken_back, "orgA", &[("name", b"make-ns1"), ("status", &[1])]));
    let other = commit_global_proposal_by_name(call(&again, "orgB", &[("name", b"make-ns1")]));
    assert_eq!(error_text(&other), "only the creator of proposal can commit proposal");
    let done = commit_global_proposal_by_name(call(&again, "orgA", &[("name", b"make-ns1")]));
    assert_eq!(
        String::from_utf8(ok_payload(&done)).unwrap(),
        "[{\"create\":{\"apiVersion\":\"core/v1\",\"kind\":\"namespace\",\"metadata\":{\"name\":\"ns1\",\"uid\":3,\"annotations\":null},\"spec\":{\"members\":[\"orgA\"]}}}]"
    );
    assert_eq!(done.next_uid(), 4);
    let late = revoke_global_proposal(call(&done, "orgA", &[("uid", &uid)]));
    assert_eq!(error_text(&late), "proposal is inactive, uid: 1");
    let late = revoke_global_proposal_by_name(call(&done, "orgA", &[("name", b"make-ns1")]));
    assert_eq!(error_text(&late), "proposal is inactive, uid: 1");
    let missing = commit_global_proposal(call(&done, "orgA", &[("uid", &uid_to_be_bytes(9))]));
    assert_eq!(error_text(&missing), "can't find object with uid 9");

    let made = create_proposal(call(&done, "orgA", &[("object", DATA_PROPOSAL), ("namespace", b"ns1")]));
    assert_eq!(ok_payload(&made), uid_to_be_bytes(4));
    let uid = uid_to_be_bytes(4);
    let permitted = permit_proposal(call(&made, "orgB", &[("uid", &uid), ("status", &[1])]));
    assert_eq!(ok_payload(&permitted), b"ok".to_vec());
    let permitted = permit_proposal_by_name(call(&permitted, "orgC", &[("name", b"add-d1"), ("namespace", b"ns1"), ("status", &[1])]));
    assert_eq!(ok_payload(&permitted), b"ok".to_vec());
    let other = revoke_proposal(call(&permitted, "orgB", &[("uid", &uid)]));
    assert_eq!(error_text(&other), "can't revoke proposal created by other");
    let other = revoke_proposal_by_name(call(&permitted, "orgB", &[("name", b"add-d1"), ("namespace", b"ns1")]));
    assert_eq!(error_text(&other), "can't revoke proposal created by other");
    let wrong_ns = commit_proposal_by_name(call(&permitted, "orgA", &[("name", b"add-d1"), ("namespace", b"ns2")]));
    assert_eq!(error_text(&wrong_ns), "can't find object with name add-d1");
    let done = commit_proposal(call(&permitted, "orgA", &[("uid", &uid)]));
    ok_payload(&done);
    assert_eq!(done.next_uid(), 7);

    let data_uid = uid_to_be_bytes(5);
    let claimed = set_data_implement(call(&done, "orgB", &[("uid", &data_uid), ("status", &[1]), ("comment", b"ours")]));
    assert_eq!(ok_payload(&claimed), b"ok".to_vec());
    let claimed = set_data_implement_by_name(call(&claimed, "orgC", &[("namespace", b"ns1"), ("name", b"d1"), ("status", &[1])]));
    assert_eq!(ok_payload(&claimed), b"ok".to_vec());
    let dropped = set_data_implement(call(&claimed, "orgB", &[("uid", &data_uid), ("status", &[0])]));
    assert_eq!(ok_payload(&dropped), b"ok".to_vec());
    let never = set_data_implement(call(&dropped, "orgB", &[("uid", &data_uid), ("status", &[0])]));
    assert_eq!(error_text(&never), "orgB does not implement the declaration");
    let wrong_kind = set_function_implement(call(&dropped, "orgB", &[("uid", &data_uid), ("status", &[1])]));
    assert!(error_text(&wrong_kind).starts_with("json error") || error_text(&wrong_kind).starts_with("type meta error"));
    let function = set_function_implement(call(&dropped, "orgB", &[("uid", &uid_to_be_bytes(6)), ("status", &[1])]));
    assert_eq!(ok_payload(&function), b"ok".to_vec());
    let function = set_function_implement_by_name(call(&function, "orgD", &[("namespace", b"ns1"), ("name", b"f1"), ("status", &[1]), ("comment", b"x")]));
    assert_eq!(ok_payload(&function), b"ok".to_vec());
    let missing = set_function_implement_by_name(call(&function, "orgD", &[("namespace", b"ns1"), ("name", b"f9"), ("status", &[1])]));
    assert_eq!(error_text(&missing), "object not found by name");

    let model = ChainModel::new(call(&function, "orgA", &[]));
    match model.get_object_by_uid(5).unwrap().unwrap() {
        DynamicObject::DataDeclare(d) => {
            assert_eq!(d.status().impls().len(), 1);
            assert!(d.status().impls().contains_key("orgC"));
        },
        _ => panic!("not a data declaration"),
    }
    match model.get_object_by_uid(6).unwrap().unwrap() {
        DynamicObject::FunctionDeclare(f) => {
            assert_eq!(f.status().impls().len(), 2);
            assert_eq!(f.status().impls().value_at(1), "x");
        },
        _ => panic!("not a function declaration"),
    }

    let read = get_object_by_uid(call(&function, "orgA", &[("uid", &uid_to_be_bytes(3))]));
    assert_eq!(
        String::from_utf8(ok_payload(&read)).unwrap(),
        "{\"apiVersion\":\"core/v1\",\"kind\":\"namespace\",\"metadata\":{\"name\":\"ns1\",\"uid\":3,\"annotations\":null},\"spec\":{\"members\":[\"orgA\"]}}"
    );
    let nothing = get_object_by_uid(call(&function, "orgA", &[("uid", &uid_to_be_bytes(99))]));
    assert!(ok_payload(&nothing).is_empty());
    let no_uid = get_object_by_uid(call(&function, "orgA", &[]));
    assert!(error_text(&no_uid).starts_with("get arg failed, key: uid"));
    let listed = get_object_by_kind(call(&function, "orgA", &[("apiVersion", b"core/v1"), ("kind", b"namespace")]));
    assert_eq!(ok_payload(&listed), [b"[".to_vec(), ok_payload(&read), b"]".to_vec()].concat());
    let none = get_object_by_kind(call(&function, "orgA", &[("apiVersion", b"core/v1"), ("kind", b"record"), ("namespace", b"ns1")]));
    assert_eq!(ok_payload(&none), b"[]".to_vec());
    let named = get_object_by_name(call(&function, "orgA", &[("apiVersion", b"core/v1"), ("kind", b"namespace"), ("name", b"ns1")]));
    assert_eq!(ok_payload(&named), ok_payload(&read));
    let scoped = get_object_by_name(call(&function, "orgA", &[("apiVersion", b"core/v1"), ("kind", b"namespace"), ("name", b"ns1"), ("namespace", b"x")]));
    assert!(error_text(&scoped).starts_with("request has a namespace"));
}

#[test]
fn lookups_by_name() {
    let mut m = ChainModel::fresh("orgA".to_string(), vec![]);
    let v1 = DynamicObject::parse(b"{\"apiVersion\":\"core/v1\",\"kind\":\"contract\",\"metadata\":{\"name\":\"c\",\"namespace\":\"ns1\",\"version\":\"v1\",\"uid\":1,\"annotations\":null},\"spec\":{\"content\":\"\",\"execPatterns\":[]}}").unwrap();
    let v2 = DynamicObject::parse(b"{\"apiVersion\":\"core/v1\",\"kind\":\"contract\",\"metadata\":{\"name\":\"c\",\"namespace\":\"ns1\",\"version\":\"v2\",\"uid\":2,\"annotations\":null},\"spec\":{\"content\":\"\",\"execPatterns\":[]}}").unwrap();
    let r = DynamicObject::parse(b"{\"apiVersion\":\"core/v1\",\"kind\":\"record\",\"metadata\":{\"name\":\"r\",\"namespace\":\"ns1\",\"uid\":3,\"annotations\":null},\"spec\":{\"content\":0,\"authors\":[\"a\"]}}").unwrap();
    m.put_object(&v1).unwrap();
    m.put_object(&v2).unwrap();
    m.put_object(&r).unwrap();
    let ask = |kind: &str, ns: &str, name: &str, version: &str| {
        get_object_by_name_impl(&m, "core/v1".into(), kind.into(), ns.into(), name.into(), version.into())
    };
    assert_eq!(ask("contract", "ns1", "c", "v2").unwrap(), v2.to_json().unwrap());
    assert!(ask("contract", "ns1", "c", "v3").unwrap().is_empty());
    assert_eq!(
        ask("contract", "ns1", "c", "").unwrap(),
        [b"[".to_vec(), v1.to_json().unwrap(), b",".to_vec(), v2.to_json().unwrap(), b"]".to_vec()].concat()
    );
    assert!(ask("contract", "ns1", "d", "").unwrap().is_empty());
    assert_eq!(ask("record", "ns1", "r", "").unwrap(), r.to_json().unwrap());
    assert!(matches!(ask("record", "ns1", "r", "v1"), Err(ContractError::InvalidObject(_))));
    assert!(matches!(ask("record", "", "r", ""), Err(ContractError::InvalidObject(_))));
    assert!(matches!(ask("namespace", "ns1", "r", ""), Err(ContractError::InvalidObject(_))));
    assert!(matches!(ask("pod", "ns1", "r", ""), Err(ContractError::InvalidObject(_))));
    assert_eq!(
        get_object_by_kind_impl(&m, "core/v1".into(), "contract".into(), "ns1".into()).unwrap(),
        [b"[".to_vec(), v1.to_json().unwrap(), b",".to_vec(), v2.to_json().unwrap(), b"]".to_vec()].concat()
    );
    assert_eq!(get_object_by_kind_impl(&m, "core/v1".into(), "pod".into(), "".into()).unwrap(), b"[]".to_vec());
    assert!(matches!(get_object_by_uid_impl(&m), Err(ContractError::Context(_))));
    assert!(matches!(set_data_implement_impl(&mut m), Err(ContractError::Context(_))));
    assert!(matches!(set_function_implement_by_name_impl(&mut m), Err(ContractError::Context(_))));
}

#[test]
fn plain_calls() {
    let start = Context::fresh("orgA".to_string(), vec![]);
    let up = upgrade(call(&start, "orgA", &[]));
    assert_eq!(ok_payload(&up), b"upgrade success".to_vec());
    let who = whoami(call(&start, "orgQ", &[]));
    assert_eq!(ok_payload(&who), b"orgQ".to_vec());
    let saved = save(call(&start, "orgA", &[("key", b"k1"), ("value", b"v1")]));
    assert!(saved.reply().is_none());
    assert_eq!(saved.get_state_from_key("k1").unwrap(), b"v1".to_vec());
    let unsaved = save(call(&start, "orgA", &[("key", b"k1")]));
    assert!(error_text(&unsaved).starts_with("get arg failed, key: value"));
    let loaded = load(call(&saved, "orgA", &[("key", b"k1")]));
    assert_eq!(ok_payload(&loaded), b"v1".to_vec());
    let nothing = load(call(&saved, "orgA", &[("key", b"k2")]));
    assert!(ok_payload(&nothing).is_empty());
    let mut used = call(&saved, "orgA", &[]);
    used.new_uid();
    used.new_uid();
    let again = init_contract(used);
    assert_eq!(again.next_uid(), 1);
    assert_eq!(again.get_state_from_key("t0_nextuid").unwrap(), uid_to_be_bytes(1));
    assert_eq!(again.get_state_from_key("k1").unwrap(), b"v1".to_vec());
}

#[test]
fn node_register() {
    let mut ctx = Context::fresh("orgA".to_string(), vec![("addr".to_string(), b"10.0.0.1:80".to_vec())]);
    register_node_impl(&mut ctx).unwrap();
    assert_eq!(ctx.get_state("t1d_", "orgA").unwrap(), b"10.0.0.1:80".to_vec());
    logout_node_impl(&mut ctx).unwrap();
    assert!(ctx.get_state("t1d_", "orgA").unwrap().is_empty());
    assert!(sys_call("put_state", 0).is_ok());
    let failed = sys_call("put_state", 3).unwrap_err();
    assert_eq!(failed.0, "put_state");
    assert_eq!(failed.1, 3);
    assert_eq!(failed.to_text(), "syscall: put_state, result_code: 3");
    assert_eq!(sys_call_err("x", 1).to_text(), "syscall: x, result_code: 1");
    assert_eq!(sys_call_err("get_state", -7).to_text(), "syscall: get_state, result_code: -7");
    assert_eq!(sys_call_err("x", 0).to_text(), "syscall: x, result_code: 0");
}

#[test]
fn the_contract_is_set_back_to_its_beginning() {
    let start = Context::fresh("orgA".to_string(), vec![]);
    let made = create_global_proposal(call(&start, "orgA", &[("object", NS_PROPOSAL)]));
    let mut used = call(&made, "orgA", &[]);
    used.put_state("t1d_", "orgA", b"addr").unwrap();
    used.put_state("other", "", b"kept").unwrap();
    used.put_state("t1", "", b"kept too").unwrap();
    assert_eq!(used.entries().len(), 6);
    let told = next_uid(call(&used, "orgA", &[]));
    assert_eq!(ok_payload(&told), b"2".to_vec());
    let back = reinit_state(used);
    assert_eq!(ok_payload(&back), b"ok".to_vec());
    assert_eq!(back.next_uid(), 1);
    let rows: Vec<String> = back.entries().into_iter().map(|e| e.key).collect();
    assert_eq!(rows, vec!["t0_nextuid", "other", "t1"]);
    assert_eq!(back.get_state_from_key("t0_nextuid").unwrap(), uid_to_be_bytes(1));
    let mut ctx = call(&back, "orgA", &[]);
    ctx.put_state("ab", "", b"1").unwrap();
    ctx.put_state("b", "", b"2").unwrap();
    ctx.put_state("abc", "x", b"3").unwrap();
    ctx.delete_prefix("ab");
    let rows: Vec<String> = ctx.entries().into_iter().map(|e| e.key).collect();
    assert_eq!(rows, vec!["t0_nextuid", "other", "t1", "b"]);
}
