use contract::codec::uid_to_be_bytes;
use contract::context::Context;
use contract::contract::compute::{
    discover_all_nodes, discover_all_nodes_impl, discover_nodes, discover_nodes_impl, get_contract, get_contract_impl,
    logout_node, register_node, NodeError,
};
use contract::errors::ContractError;
use contract::model::ChainModel;
use contract::objects::dynamic::DynamicObject;

fn with_args(previous: &Context, sender: &str, args: &[(&str, &[u8])]) -> Context {
    let args = args.iter().map(|(k, v)| (k.to_string(), v.to_vec())).collect();
    Context::new(sender.to_string(), args, previous.entries()).unwrap()
}

#[test]
fn nodes_are_registered_and_found() {
    let start = Context::fresh("orgA".to_string(), vec![]);
    let a = register_node(with_args(&start, "orgB", &[("addr", b"b.example:1")]));
    assert_eq!(a.reply(), Some((true, b"ok".to_vec())));
    let b = register_node(with_args(&a, "orgA", &[("addr", b"a.example:2")]));
    let asked = with_args(&b, "orgC", &[("orgs", b"[\"orgA\",\"orgX\",\"orgB\",\"orgA\"]")]);
    assert_eq!(
        String::from_utf8(discover_nodes_impl(&asked).unwrap()).unwrap(),
        "{\"orgA\":\"a.example:2\",\"orgB\":\"b.example:1\"}"
    );
    assert_eq!(
        String::from_utf8(discover_all_nodes_impl(&asked).unwrap()).unwrap(),
        "{\"orgA\":\"a.example:2\",\"orgB\":\"b.example:1\"}"
    );
    let answered = discover_nodes(with_args(&b, "orgC", &[("orgs", b"[]")]));
    assert_eq!(answered.reply(), Some((true, b"{}".to_vec())));
    let answered = discover_all_nodes(with_args(&b, "orgC", &[]));
    assert_eq!(answered.reply().unwrap().0, true);
    assert!(matches!(discover_nodes_impl(&with_args(&b, "orgC", &[])), Err(NodeError::InvalidJson(_))));
    assert!(matches!(discover_nodes_impl(&with_args(&b, "orgC", &[("orgs", b"[1]")])), Err(NodeError::InvalidJson(_))));
    let refused = discover_nodes(with_args(&b, "orgC", &[("orgs", b"{}")]));
    assert_eq!(refused.reply().unwrap().0, false);

    let mut broken = with_args(&b, "orgC", &[("orgs", b"[\"orgB\"]")]);
    broken.put_state("t1d_", "orgB", &[0xff, 0xfe]).unwrap();
    assert!(matches!(discover_nodes_impl(&broken), Err(NodeError::InvalidUrl(ref org)) if org == "orgB"));
    assert!(matches!(discover_all_nodes_impl(&broken), Err(NodeError::InvalidUrl(ref org)) if org == "orgB"));

    let out = logout_node(with_args(&b, "orgB", &[]));
    assert_eq!(String::from_utf8(discover_all_nodes_impl(&out).unwrap()).unwrap(), "{\"orgA\":\"a.example:2\"}");
}

fn put(m: &mut ChainModel, text: &str) {
    m.put_object(&DynamicObject::parse(text.as_bytes()).unwrap()).unwrap();
}

#[test]
fn a_contract_shows_what_the_caller_has_implemented() {
    let mut m = ChainModel::fresh("orgA".to_string(), vec![]);
    put(&mut m, "{\"apiVersion\":\"core/v1\",\"kind\":\"datadeclare\",\"metadata\":{\"name\":\"d1\",\"namespace\":\"ns1\",\"uid\":1,\"annotations\":null},\"spec\":{\"dataType\":\"\",\"description\":\"\"},\"status\":{\"implementation\":{\"orgA\":\"\"}}}");
    put(&mut m, "{\"apiVersion\":\"core/v1\",\"kind\":\"datadeclare\",\"metadata\":{\"name\":\"d2\",\"namespace\":\"ns1\",\"uid\":2,\"annotations\":null},\"spec\":{\"dataType\":\"\",\"description\":\"\"},\"status\":{\"implementation\":{\"orgB\":\"\"}}}");
    put(&mut m, "{\"apiVersion\":\"core/v1\",\"kind\":\"functiondeclare\",\"metadata\":{\"name\":\"f1\",\"namespace\":\"ns1\",\"uid\":3,\"annotations\":null},\"spec\":{\"args\":[],\"retType\":\"\",\"description\":\"\"},\"status\":{\"implementation\":{\"orgA\":\"\",\"orgB\":\"\"}}}");
    put(&mut m, "{\"apiVersion\":\"core/v1\",\"kind\":\"contract\",\"metadata\":{\"name\":\"c\",\"namespace\":\"ns1\",\"version\":\"v1\",\"uid\":4,\"annotations\":null},\"spec\":{\"content\":\"x\",\"data\":{\"one\":1,\"two\":2},\"functions\":{\"f\":3},\"execPatterns\":[[\"orgA\"]]}}");
    put(&mut m, "{\"apiVersion\":\"core/v1\",\"kind\":\"contract\",\"metadata\":{\"name\":\"c\",\"namespace\":\"ns1\",\"version\":\"v2\",\"uid\":5,\"annotations\":null},\"spec\":{\"content\":\"x\",\"data\":{\"gone\":9},\"execPatterns\":[]}}");
    put(&mut m, "{\"apiVersion\":\"core/v1\",\"kind\":\"contract\",\"metadata\":{\"name\":\"c\",\"namespace\":\"ns1\",\"version\":\"v3\",\"uid\":6,\"annotations\":null},\"spec\":{\"content\":\"x\",\"data\":{\"wrong\":3},\"execPatterns\":[]}}");
    let ledger = m.into_context();

    let ask = |sender: &str, uid: u64| {
        let model = ChainModel::new(with_args(&ledger, sender, &[("uid", &uid_to_be_bytes(uid))]));
        get_contract_impl(&model)
    };
    let spec = "{\"content\":\"x\",\"data\":{\"one\":1,\"two\":2},\"functions\":{\"f\":3},\"execPatterns\":[[\"orgA\"]]}";
    assert_eq!(
        String::from_utf8(ask("orgA", 4).unwrap().unwrap()).unwrap(),
        format!("{{\"spec\":{},\"data\":{{\"one\":1}},\"function\":{{\"f\":3}}}}", spec)
    );
    assert_eq!(
        String::from_utf8(ask("orgB", 4).unwrap().unwrap()).unwrap(),
        format!("{{\"spec\":{},\"data\":{{\"two\":2}},\"function\":{{\"f\":3}}}}", spec)
    );
    assert_eq!(
        String::from_utf8(ask("orgC", 4).unwrap().unwrap()).unwrap(),
        format!("{{\"spec\":{},\"data\":{{}},\"function\":{{}}}}", spec)
    );
    assert!(ask("orgA", 5).unwrap().is_none());
    assert!(ask("orgA", 77).unwrap().is_none());
    assert!(matches!(ask("orgA", 6), Err(ContractError::Deserialize(_))));
    assert!(matches!(ask("orgA", 1), Err(ContractError::Deserialize(_))));
    let no_uid = ChainModel::new(with_args(&ledger, "orgA", &[]));
    assert!(matches!(get_contract_impl(&no_uid), Err(ContractError::Context(_))));

    let answered = get_contract(with_args(&ledger, "orgC", &[("uid", &uid_to_be_bytes(5))]));
    assert_eq!(answered.reply(), Some((true, vec![])));
    let answered = get_contract(with_args(&ledger, "orgC", &[]));
    assert_eq!(answered.reply().unwrap().0, false);
}
