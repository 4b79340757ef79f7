use contract::changes::changes;
use contract::codec::uid_to_be_bytes;
use contract::context::{Context, Entry};
use contract::contract::globalproposal::{
    commit_global_proposal_impl, create_global_proposal_impl, permit_global_proposal_impl,
    revoke_global_proposal_impl,
};
use contract::contract::proposal::{
    create_proposal_impl, permit_proposal_by_name, permit_proposal_impl, revoke_proposal_by_name,
};
use contract::errors::{ActionFnError, ChainModelError, ContextError, ContractError, ProposalError};
use contract::model::ChainModel;
use contract::objects::dynamic::DynamicObject;
use contract::objects::kinds::Kind;
use contract::utils::textmap::TextMap;

fn with_args(args: &[(&str, &[u8])]) -> Context {
    Context::fresh("orgA".to_string(), args.iter().map(|(k, v)| (k.to_string(), v.to_vec())).collect())
}

fn entry(key: &str, field: &str, value: &[u8]) -> Entry {
    Entry { key: key.to_string(), field: field.to_string(), value: value.to_vec() }
}

fn namespace_proposal(name: &str, ns: &str) -> Vec<u8> {
    format!(
        "{{\"apiVersion\":\"core/v1\",\"kind\":\"globalproposal\",\"metadata\":{{\"name\":\"{}\"}},\
         \"spec\":{{\"actions\":[{{\"create\":{{\"object\":{{\"apiVersion\":\"core/v1\",\"kind\":\"namespace\",\
         \"metadata\":{{\"name\":\"{}\"}},\"spec\":{{\"members\":[\"orgA\"]}}}}}}}}]}}}}",
        name, ns
    )
    .into_bytes()
}

#[test]
fn argument_errors_name_the_key_and_the_length() {
    let ctx = with_args(&[("flag", &[1, 0]), ("uid", &[0, 0, 1]), ("yes", &[7]), ("n", &[0, 0, 0, 0, 0, 0, 1, 0])]);
    assert_eq!(ctx.arg_bool("yes").unwrap(), true);
    assert_eq!(ctx.arg_u64("n").unwrap(), 256);
    match ctx.arg_bool("flag") {
        Err(ContextError::GetArgError { key, msg }) => {
            assert_eq!(key, "flag");
            assert_eq!(msg, "bool need 1 byte, but get 2");
        },
        other => panic!("unexpected: {:?}", other),
    }
    match ctx.arg_u64("uid") {
        Err(ContextError::GetArgError { key, msg }) => {
            assert_eq!(key, "uid");
            assert_eq!(msg, "u64 need 8 bytes, but get 3");
        },
        other => panic!("unexpected: {:?}", other),
    }
    match ctx.arg_bool("none") {
        Err(ContextError::GetArgError { key, .. }) => assert_eq!(key, "none"),
        other => panic!("unexpected: {:?}", other),
    }
    match ctx.arg_u64("none") {
        Err(ContextError::GetArgError { key, .. }) => assert_eq!(key, "none"),
        other => panic!("unexpected: {:?}", other),
    }
    match ctx.arg("none") {
        Err(ContextError::GetArgError { key, .. }) => assert_eq!(key, "none"),
        other => panic!("unexpected: {:?}", other),
    }
}

#[test]
fn a_broken_index_is_a_state_error_that_names_the_uid() {
    let mut model = ChainModel::fresh("orgA".to_string(), vec![]);
    let meta = Kind::Namespace.type_meta();
    model.ctx_mut().put_state("i1c_core_v1_namespace__ns1", "", &uid_to_be_bytes(41)).unwrap();
    match model.get_raw_object_by_name_version(&meta, "ns1", None, None) {
        Err(ChainModelError::StateError(msg)) => assert_eq!(msg, "index error, uid 41 is empty in object table"),
        other => panic!("unexpected: {:?}", other),
    }
    match model.get_raw_object_by_ns_name(&meta, "ns1", None) {
        Err(ChainModelError::StateError(msg)) => assert_eq!(msg, "index error, uid 41 is empty in object table"),
        other => panic!("unexpected: {:?}", other),
    }
    model.ctx_mut().put_state("i1c_core_v1_namespace__ns2", "", &[1, 20, 255]).unwrap();
    match model.get_raw_object_by_name_version(&meta, "ns2", None, None) {
        Err(ChainModelError::StateError(msg)) => {
            assert_eq!(msg, "invalid uid from object_name_index, error content: [1, 20, 255]")
        },
        other => panic!("unexpected: {:?}", other),
    }
    assert!(matches!(
        ChainModel::be_uid_from_vec(vec![9]),
        Err(ChainModelError::StateError(ref msg)) if msg == "invalid uid from object_name_index, error content: [9]"
    ));
    assert_eq!(ChainModel::be_uid_from_vec(vec![0, 0, 0, 0, 0, 0, 1, 2]).unwrap(), 258);
}

#[test]
fn errors_of_the_workflow_carry_what_they_speak_of() {
    let mut model = ChainModel::new(Context::fresh("orgA".to_string(), vec![]));
    let uid = create_global_proposal_impl(&mut model, namespace_proposal("make-ns1", "ns1"), "orgA".into()).unwrap();
    assert!(matches!(
        permit_global_proposal_impl(&mut model, 77, true, "".into(), "orgA".into()),
        Err(ContractError::Proposal(ProposalError::ObjectNotFound(77)))
    ));
    revoke_global_proposal_impl(&mut model, uid, "orgA".into()).unwrap();
    match permit_global_proposal_impl(&mut model, uid, true, "".into(), "orgA".into()) {
        Err(ContractError::Proposal(ProposalError::InActive(found))) => assert_eq!(found, uid),
        other => panic!("unexpected: {:?}", other),
    }
    match commit_global_proposal_impl(&mut model, uid, "orgA".into()) {
        Err(ContractError::Proposal(ProposalError::InActive(found))) => assert_eq!(found, uid),
        other => panic!("unexpected: {:?}", other),
    }
    match revoke_global_proposal_impl(&mut model, uid, "orgA".into()) {
        Err(ContractError::Proposal(ProposalError::InActive(found))) => assert_eq!(found, uid),
        other => panic!("unexpected: {:?}", other),
    }

    let p1 = create_global_proposal_impl(&mut model, namespace_proposal("make-again", "ns1"), "orgA".into()).unwrap();
    permit_global_proposal_impl(&mut model, p1, true, "".into(), "orgA".into()).unwrap();
    commit_global_proposal_impl(&mut model, p1, "orgA".into()).unwrap();
    match create_global_proposal_impl(&mut model, namespace_proposal("third", "ns1"), "orgA".into()) {
        Err(ContractError::ActionFn(ActionFnError::NotSupport(action, _))) => assert_eq!(action, "create"),
        other => panic!("unexpected: {:?}", other),
    }

    let scoped = b"{\"apiVersion\":\"core/v1\",\"kind\":\"proposal\",\"metadata\":{\"name\":\"p\",\"namespace\":\"ns1\"},\"spec\":{\"actions\":[{\"create\":{\"object\":{\"apiVersion\":\"core/v1\",\"kind\":\"namespace\",\"metadata\":{\"name\":\"ns2\"},\"spec\":{\"members\":[]}}}}]}}";
    match create_proposal_impl(&mut model, scoped.to_vec(), "ns1".into(), "orgA".into()) {
        Err(ContractError::Proposal(ProposalError::ObjectNotNamespaced(ty))) => assert_eq!(ty, "(core/v1, namespace)"),
        other => panic!("unexpected: {:?}", other),
    }
    let elsewhere = b"{\"apiVersion\":\"core/v1\",\"kind\":\"proposal\",\"metadata\":{\"name\":\"p\",\"namespace\":\"ns1\"},\"spec\":{\"actions\":[{\"create\":{\"object\":{\"apiVersion\":\"core/v1\",\"kind\":\"record\",\"metadata\":{\"name\":\"r\",\"namespace\":\"ns9\"},\"spec\":{\"content\":1,\"authors\":[\"orgA\"]}}}}]}}";
    match create_proposal_impl(&mut model, elsewhere.to_vec(), "ns1".into(), "orgA".into()) {
        Err(ContractError::Proposal(ProposalError::ObjectNamespaceMismatch(found, wanted))) => {
            assert_eq!(found, "ns9");
            assert_eq!(wanted, "ns1");
        },
        other => panic!("unexpected: {:?}", other),
    }
    let gone = b"{\"apiVersion\":\"core/v1\",\"kind\":\"proposal\",\"metadata\":{\"name\":\"p\",\"namespace\":\"ns1\"},\"spec\":{\"actions\":[{\"delete\":{\"uid\":500}}]}}";
    assert!(matches!(
        create_proposal_impl(&mut model, gone.to_vec(), "ns1".into(), "orgA".into()),
        Err(ContractError::Proposal(ProposalError::ObjectNotFound(500)))
    ));
}

#[test]
fn a_map_keeps_its_pairs_in_the_order_of_the_keys() {
    let mut map = TextMap::new();
    map.insert("orgC".to_string(), "3".to_string());
    map.insert("orgA".to_string(), "1".to_string());
    map.insert("orgB".to_string(), "2".to_string());
    map.insert("org".to_string(), "0".to_string());
    map.insert("orgA".to_string(), "one".to_string());
    assert_eq!(map.len(), 4);
    let keys: Vec<String> = (0..map.len()).map(|i| map.key_at(i).clone()).collect();
    assert_eq!(keys, vec!["org", "orgA", "orgB", "orgC"]);
    assert_eq!(map.value_at(1), "one");
    assert_eq!(
        String::from_utf8(map.to_json().to_vec().unwrap()).unwrap(),
        "{\"org\":\"0\",\"orgA\":\"one\",\"orgB\":\"2\",\"orgC\":\"3\"}"
    );
    assert!(map.remove("orgA"));
    assert!(!map.remove("orgA"));
    let keys: Vec<String> = (0..map.len()).map(|i| map.key_at(i).clone()).collect();
    assert_eq!(keys, vec!["org", "orgB", "orgC"]);
}

#[test]
fn stored_maps_are_written_in_the_order_of_their_keys() {
    let contract = "{\"apiVersion\":\"core/v1\",\"kind\":\"contract\",\"metadata\":{\"name\":\"c1\",\"namespace\":\"ns1\",\"version\":\"v1\",\"uid\":4},\"spec\":{\"content\":\"\",\"data\":{\"zeta\":3,\"alpha\":9,\"mid\":1},\"functions\":{\"g\":2,\"f\":1},\"execPatterns\":[]}}";
    let obj = DynamicObject::parse(contract.as_bytes()).unwrap();
    assert_eq!(
        String::from_utf8(obj.to_json().unwrap()).unwrap(),
        "{\"apiVersion\":\"core/v1\",\"kind\":\"contract\",\"metadata\":{\"name\":\"c1\",\"namespace\":\"ns1\",\"version\":\"v1\",\"uid\":4,\"annotations\":null},\"spec\":{\"content\":\"\",\"data\":{\"alpha\":9,\"mid\":1,\"zeta\":3},\"functions\":{\"f\":1,\"g\":2},\"execPatterns\":[]},\"status\":{}}"
    );
    let mut model = ChainModel::new(Context::fresh("orgB".to_string(), vec![]));
    let both = String::from_utf8(namespace_proposal("make-ns1", "ns1")).unwrap().replace("[\"orgA\"]", "[\"orgA\",\"orgB\"]");
    let uid = create_global_proposal_impl(&mut model, both.into_bytes(), "orgB".into()).unwrap();
    permit_global_proposal_impl(&mut model, uid, true, "b".into(), "orgB".into()).unwrap();
    permit_global_proposal_impl(&mut model, uid, true, "a".into(), "orgA".into()).unwrap();
    match model.get_object_by_uid(uid).unwrap().unwrap() {
        DynamicObject::GlobalProposal(p) => {
            assert_eq!(p.status.permission.key_at(0), "orgA");
            assert_eq!(p.status.permission.key_at(1), "orgB");
        },
        _ => panic!("not a proposal"),
    }
}

#[test]
fn changes_are_what_is_gone_and_what_is_new() {
    let before = vec![entry("a", "", b"1"), entry("b", "x", b"2"), entry("c", "", b"3")];
    let after = vec![entry("b", "x", b"2"), entry("c", "", b"4"), entry("d", "", b"5")];
    let changed = changes(&before, &after);
    let gone: Vec<(String, String)> = changed.deleted.iter().map(|e| (e.key.clone(), e.field.clone())).collect();
    assert_eq!(gone, vec![("a".to_string(), "".to_string())]);
    let put: Vec<(String, Vec<u8>)> = changed.put.iter().map(|e| (e.key.clone(), e.value.clone())).collect();
    assert_eq!(put, vec![("c".to_string(), b"4".to_vec()), ("d".to_string(), b"5".to_vec())]);
    let none = changes(&before, &before);
    assert!(none.deleted.is_empty() && none.put.is_empty());
}

#[test]
fn a_ledger_is_begun_with_or_without_a_counter() {
    let new = Context::begin("orgA".to_string(), vec![], vec![entry("k", "f", b"v")]).unwrap();
    assert_eq!(new.next_uid(), 1);
    assert_eq!(new.get_state("k", "f").unwrap(), b"v".to_vec());
    assert_eq!(new.get_state_from_key("t0_nextuid").unwrap(), uid_to_be_bytes(1));
    assert_eq!(new.entries().len(), 2);

    let saved = vec![entry("k", "f", b"v"), entry("t0_nextuid", "", &uid_to_be_bytes(9))];
    let taken = Context::begin("orgA".to_string(), vec![], saved).unwrap();
    assert_eq!(taken.next_uid(), 9);
    assert_eq!(taken.entries().len(), 2);
    let again = Context::new("orgA".to_string(), vec![], taken.entries()).unwrap();
    assert_eq!(again.entries().len(), taken.entries().len());
    assert_eq!(again.get_state("k", "f").unwrap(), b"v".to_vec());

    let broken = vec![entry("t0_nextuid", "", b"xx")];
    assert!(Context::begin("orgA".to_string(), vec![], broken).is_err());
    assert!(Context::new("orgA".to_string(), vec![], vec![entry("k", "f", b"v")]).is_err());
}

fn reply_text(ctx: &Context) -> (bool, String) {
    match ctx.reply() {
        Some((ok, payload)) => (ok, String::from_utf8(payload).unwrap()),
        None => panic!("no answer"),
    }
}

#[test]
fn naming_a_proposal_asks_for_what_is_needed() {
    let start = Context::fresh("orgA".to_string(), vec![]);
    let call = |args: &[(&str, &[u8])]| {
        Context::new(
            "orgA".to_string(),
            args.iter().map(|(k, v)| (k.to_string(), v.to_vec())).collect(),
            start.entries(),
        )
        .unwrap()
    };
    let no_name = permit_proposal_by_name(call(&[("namespace", b"ns1"), ("status", &[1])]));
    assert_eq!(reply_text(&no_name), (false, "name can't be empty".to_string()));
    let no_namespace = permit_proposal_by_name(call(&[("name", b"p1"), ("status", &[1])]));
    assert_eq!(reply_text(&no_namespace), (false, "namespace can't be empty".to_string()));
    let unnamed = revoke_proposal_by_name(call(&[("namespace", b"ns1")]));
    let (ok, text) = reply_text(&unnamed);
    assert!(!ok);
    assert_ne!(text, "name can't be empty");
    let _ = permit_proposal_impl;
}
