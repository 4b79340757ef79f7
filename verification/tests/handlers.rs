use contract::contract::globalproposal::{
    commit_global_proposal_by_name_impl, commit_global_proposal_impl, create_global_proposal_impl,
    permit_global_proposal_by_name_impl, permit_global_proposal_impl, revoke_global_proposal_by_name_impl,
};
use contract::contract::proposal::{
    commit_proposal_by_name_impl, commit_proposal_impl, create_proposal_impl, permit_proposal_by_name_impl,
    permit_proposal_impl, revoke_proposal_by_name_impl, revoke_proposal_impl,
};
use contract::errors::{ActionFnError, ChainModelError, ContractError, DeserializeError, ProposalError};
use contract::json::Json;
use contract::model::ChainModel;
use contract::objects::controller::{controller, controllers};
use contract::objects::dynamic::DynamicObject;
use contract::objects::kinds::Kind;
use contract::objects::meta::TypeMeta;
use contract::objects::v1::contracts::Contract;
use contract::objects::v1::declare::{DataDeclare, FunctionDeclare};
use contract::objects::v1::namespace::Namespace;
use contract::objects::v1::proposal::{
    CreateObjectAction, DeleteObjectAction, ObjectByAction, ProposalAction, ProposalStatus, UpdateObjectAction,
};
use contract::objects::v1::record::Record;
use contract::utils::textmap::TextMap;

fn model() -> ChainModel {
    ChainModel::fresh("orgA".to_string(), vec![])
}

fn json(text: &str) -> Json {
    Json::parse(text.as_bytes()).unwrap()
}

fn create(text: &str) -> ProposalAction {
    ProposalAction::Create(CreateObjectAction { object: json(text) })
}

fn update(uid: u64, text: &str) -> ProposalAction {
    ProposalAction::Update(UpdateObjectAction { uid, object: json(text) })
}

fn delete(uid: u64) -> ProposalAction {
    ProposalAction::Delete(DeleteObjectAction { uid })
}

fn permitted(orgs: &[&str]) -> TextMap {
    let mut map = TextMap::new();
    for org in orgs {
        map.insert(org.to_string(), "".to_string());
    }
    map
}

const NS1: &str = "{\"apiVersion\":\"core/v1\",\"kind\":\"namespace\",\"metadata\":{\"name\":\"ns1\"},\"spec\":{\"members\":[\"orgA\",\"orgB\"]}}";
const DATA: &str = "{\"apiVersion\":\"core/v1\",\"kind\":\"datadeclare\",\"metadata\":{\"name\":\"d1\",\"namespace\":\"ns1\"},\"spec\":{\"dataType\":\"t\",\"description\":\"\"},\"status\":{\"implementation\":{\"orgZ\":\"claimed\"}}}";
const CONTRACT_V1: &str = "{\"apiVersion\":\"core/v1\",\"kind\":\"contract\",\"metadata\":{\"name\":\"c1\",\"namespace\":\"ns1\",\"version\":\"v1\"},\"spec\":{\"content\":\"\",\"execPatterns\":[[\"orgA\"],[\"orgB\",\"orgA\"]]}}";
const RECORD: &str = "{\"apiVersion\":\"core/v1\",\"kind\":\"record\",\"metadata\":{\"name\":\"r1\",\"namespace\":\"ns1\"},\"spec\":{\"content\":{},\"authors\":[\"orgA\",\"orgB\"]}}";

#[test]
fn registry_of_handlers() {
    let all = controllers();
    assert_eq!(all.len(), 7);
    assert_eq!(all[0].0.kind, "namespace");
    assert!(all[0].1.create && !all[0].1.update && all[0].1.delete);
    assert_eq!(all[1].0.kind, "proposal");
    assert!(!all[1].1.create && !all[1].1.update && !all[1].1.delete);
    assert!(all[3].1.create && all[3].1.update && all[3].1.delete);
    assert!(all[5].1.create && !all[5].1.update && all[5].1.delete);
    assert!(controller(&TypeMeta::of("core/v1", "pod")).is_none());
    assert!(controller(&TypeMeta::of("core/v1", "record")).unwrap().update);
    assert!(Namespace::controller().create);
    assert!(!Namespace::controller().update);
}

#[test]
fn create_checks() {
    let mut m = model();
    let ns = Kind::Namespace.controller();
    let action = create(NS1);
    ns.check_support(&m, &action).unwrap();
    ns.check_relevent(&m, &action, "orgA").unwrap();
    assert!(matches!(ns.check_relevent(&m, &action, "orgC"), Err(ActionFnError::NotRelevant(_, _))));
    assert!(matches!(ns.check_commitable(&m, &action, &permitted(&["orgA"])), Err(ActionFnError::NotCommitable(_, _))));
    ns.check_commitable(&m, &action, &permitted(&["orgB", "orgX", "orgA"])).unwrap();
    assert!(matches!(ns.check_support(&m, &update(1, NS1)), Err(ActionFnError::ActionNotSupported(_))));
    assert!(matches!(ns.check_support(&m, &create(RECORD)), Err(ActionFnError::Deserialize(DeserializeError::JsonError(_)))));
    let posing = NS1.replace("\"kind\":\"namespace\"", "\"kind\":\"record\"");
    assert!(matches!(
        ns.check_support(&m, &create(&posing)),
        Err(ActionFnError::Deserialize(DeserializeError::MismatchTypeMeta(_)))
    ));
    assert!(matches!(Kind::Proposal.controller().check_support(&m, &delete(1)), Err(ActionFnError::ActionNotSupported(_))));

    let made = ns.exec(&mut m, &action).unwrap();
    match made {
        ObjectByAction::Create(tree) => assert_eq!(tree.get("metadata").unwrap().get("uid").unwrap().as_u64(), Some(1)),
        _ => panic!("not a create"),
    }
    assert!(matches!(ns.check_support(&m, &action), Err(ActionFnError::NotSupport(_, _))));
    assert!(matches!(ns.exec(&mut m, &action), Err(ActionFnError::ExecFailed(_, _))));
    assert_eq!(m.ctx().next_uid(), 3);
    assert!(m.get_object_by_uid(2).unwrap().is_none());

    let declare = Kind::DataDeclare.controller();
    declare.check_relevent(&m, &create(DATA), "anybody").unwrap();
    declare.check_commitable(&m, &create(DATA), &permitted(&[])).unwrap();
    declare.check_relevent(&m, &create("{}"), "anybody").unwrap();
    assert!(matches!(declare.check_support(&m, &create("{}")), Err(ActionFnError::Deserialize(DeserializeError::JsonError(_)))));
    declare.exec(&mut m, &create(DATA)).unwrap();
    match m.get_object_by_uid(3).unwrap().unwrap() {
        DynamicObject::DataDeclare(d) => assert_eq!(d.status().impls().len(), 0),
        _ => panic!("not a declaration"),
    }
}

#[test]
fn contracts_are_told_apart_by_version() {
    let mut m = model();
    let contracts = Kind::Contract.controller();
    contracts.check_relevent(&m, &create(CONTRACT_V1), "orgB").unwrap();
    assert!(matches!(contracts.check_relevent(&m, &create(CONTRACT_V1), "orgC"), Err(ActionFnError::NotRelevant(_, _))));
    assert!(matches!(
        contracts.check_commitable(&m, &create(CONTRACT_V1), &permitted(&["orgA"])),
        Err(ActionFnError::NotCommitable(_, _))
    ));
    contracts.check_commitable(&m, &create(CONTRACT_V1), &permitted(&["orgA", "orgB"])).unwrap();
    contracts.exec(&mut m, &create(CONTRACT_V1)).unwrap();
    assert!(matches!(contracts.check_support(&m, &create(CONTRACT_V1)), Err(ActionFnError::NotSupport(_, _))));
    let v2 = CONTRACT_V1.replace("\"version\":\"v1\"", "\"version\":\"v2\"");
    contracts.check_support(&m, &create(&v2)).unwrap();
    contracts.exec(&mut m, &create(&v2)).unwrap();
    assert!(matches!(contracts.check_support(&m, &create(&v2)), Err(ActionFnError::NotSupport(_, _))));
    assert_eq!(m.get_uid_by_type(&Kind::Contract.type_meta(), "ns1").unwrap(), vec![1, 2]);
    assert!(matches!(contracts.check_support(&m, &update(1, &v2)), Err(ActionFnError::ActionNotSupported(_))));
    let gone = contracts.exec(&mut m, &delete(1)).unwrap();
    assert!(matches!(gone, ObjectByAction::Delete(_)));
    assert_eq!(m.get_uid_by_type(&Kind::Contract.type_meta(), "ns1").unwrap(), vec![2]);
}

#[test]
fn record_checks() {
    let mut m = model();
    let records = Kind::Record.controller();
    let no_author = RECORD.replace("[\"orgA\",\"orgB\"]", "[]");
    let twice = RECORD.replace("[\"orgA\",\"orgB\"]", "[\"orgA\",\"orgB\",\"orgA\"]");
    assert!(matches!(records.check_support(&m, &create(&no_author)), Err(ActionFnError::NotSupport(_, _))));
    assert!(matches!(records.check_support(&m, &create(&twice)), Err(ActionFnError::NotSupport(_, _))));
    records.check_support(&m, &create(RECORD)).unwrap();
    records.exec(&mut m, &create(RECORD)).unwrap();

    let renamed = RECORD.replace("\"r1\"", "\"r2\"").replace("[\"orgA\",\"orgB\"]", "[\"orgC\"]");
    let action = update(1, &renamed);
    records.check_support(&m, &action).unwrap();
    records.check_relevent(&m, &action, "orgA").unwrap();
    records.check_relevent(&m, &action, "orgC").unwrap();
    assert!(matches!(records.check_relevent(&m, &action, "orgD"), Err(ActionFnError::NotRelevant(_, _))));
    assert!(matches!(
        records.check_commitable(&m, &action, &permitted(&["orgA", "orgB"])),
        Err(ActionFnError::NotCommitable(_, _))
    ));
    records.check_commitable(&m, &action, &permitted(&["orgA", "orgB", "orgC"])).unwrap();
    assert!(matches!(records.check_support(&m, &update(9, &renamed)), Err(ActionFnError::NotSupport(_, _))));
    assert!(matches!(records.check_relevent(&m, &update(9, &renamed), "orgA"), Err(ActionFnError::NotSupport(_, _))));
    assert!(matches!(
        records.check_commitable(&m, &update(9, &renamed), &permitted(&[])),
        Err(ActionFnError::NotSupport(_, _))
    ));
    assert!(matches!(records.exec(&mut m, &update(9, &renamed)), Err(ActionFnError::NotSupport(_, _))));
    let other_uid = renamed.replace("\"namespace\":\"ns1\"", "\"namespace\":\"ns1\",\"uid\":5");
    assert!(matches!(records.check_support(&m, &update(1, &other_uid)), Err(ActionFnError::NotSupport(_, _))));

    records.exec(&mut m, &create(&RECORD.replace("\"r1\"", "\"r3\""))).unwrap();
    let clash = RECORD.replace("\"r1\"", "\"r3\"");
    assert!(matches!(records.check_support(&m, &update(1, &clash)), Err(ActionFnError::NotSupport(_, _))));
    assert!(matches!(records.exec(&mut m, &update(1, &clash)), Err(ActionFnError::ExecFailed(_, _))));

    match records.exec(&mut m, &action).unwrap() {
        ObjectByAction::Update { old, updated } => {
            assert_eq!(old.get("metadata").unwrap().get("name").unwrap().as_str(), Some("r1"));
            assert_eq!(updated.get("metadata").unwrap().get("name").unwrap().as_str(), Some("r2"));
            assert_eq!(updated.get("metadata").unwrap().get("uid").unwrap().as_u64(), Some(1));
        },
        _ => panic!("not an update"),
    }
    assert_eq!(m.get_object_by_uid(1).unwrap().unwrap().name(), "r2");

    records.check_support(&m, &delete(1)).unwrap();
    assert!(matches!(records.check_support(&m, &delete(9)), Err(ActionFnError::NotSupport(_, _))));
    assert!(matches!(records.check_relevent(&m, &delete(9), "orgC"), Err(ActionFnError::NotRelevant(_, _))));
    assert!(matches!(records.check_relevent(&m, &delete(1), "orgA"), Err(ActionFnError::NotRelevant(_, _))));
    records.check_relevent(&m, &delete(1), "orgC").unwrap();
    assert!(matches!(records.check_commitable(&m, &delete(9), &permitted(&[])), Err(ActionFnError::NotCommitable(_, _))));
    assert!(matches!(records.check_commitable(&m, &delete(1), &permitted(&[])), Err(ActionFnError::NotCommitable(_, _))));
    records.check_commitable(&m, &delete(1), &permitted(&["orgC"])).unwrap();
    assert!(matches!(records.exec(&mut m, &delete(9)), Err(ActionFnError::ExecFailed(_, _))));
    assert!(matches!(Kind::Namespace.controller().check_support(&m, &delete(1)), Err(ActionFnError::Deserialize(_))));
    records.exec(&mut m, &delete(1)).unwrap();
    assert!(m.get_object_by_uid(1).unwrap().is_none());
}

#[test]
fn a_declaration_keeps_its_implementations_through_an_update() {
    let mut m = model();
    m.put_object(&DynamicObject::parse(DATA.replace("\"namespace\":\"ns1\"", "\"namespace\":\"ns1\",\"uid\":4").as_bytes()).unwrap())
        .unwrap();
    let declare = Kind::DataDeclare.controller();
    let changed = DATA.replace("\"dataType\":\"t\"", "\"dataType\":\"u\"").replace("\"orgZ\":\"claimed\"", "\"orgY\":\"mine\"");
    let action = update(4, &changed);
    declare.check_support(&m, &action).unwrap();
    declare.check_relevent(&m, &action, "orgZ").unwrap();
    assert!(matches!(declare.check_relevent(&m, &action, "orgY"), Err(ActionFnError::NotRelevant(_, _))));
    assert!(matches!(declare.check_commitable(&m, &action, &permitted(&["orgY"])), Err(ActionFnError::NotCommitable(_, _))));
    declare.check_commitable(&m, &action, &permitted(&["orgZ"])).unwrap();
    declare.exec(&mut m, &action).unwrap();
    match m.get_object_by_uid(4).unwrap().unwrap() {
        DynamicObject::DataDeclare(d) => {
            assert_eq!(d.spec().data_type, "u");
            assert!(d.status().impls().contains_key("orgZ"));
            assert!(!d.status().impls().contains_key("orgY"));
        },
        _ => panic!("not a declaration"),
    }
    declare.check_relevent(&m, &delete(4), "orgZ").unwrap();
    assert!(matches!(declare.check_commitable(&m, &delete(4), &permitted(&[])), Err(ActionFnError::NotCommitable(_, _))));
}

fn global(name: &str, actions: &str) -> Vec<u8> {
    format!(
        "{{\"apiVersion\":\"core/v1\",\"kind\":\"globalproposal\",\"metadata\":{{\"name\":\"{}\"}},\"spec\":{{\"actions\":[{}]}}}}",
        name, actions
    )
    .into_bytes()
}

fn scoped(name: &str, ns: &str, actions: &str) -> Vec<u8> {
    format!(
        "{{\"apiVersion\":\"core/v1\",\"kind\":\"proposal\",\"metadata\":{{\"name\":\"{}\",\"namespace\":\"{}\"}},\"spec\":{{\"actions\":[{}]}}}}",
        name, ns, actions
    )
    .into_bytes()
}

fn make(object: &str) -> String {
    format!("{{\"create\":{{\"object\":{}}}}}", object)
}

#[test]
fn proposals_that_cannot_be_made() {
    let mut m = model();
    let r = create_global_proposal_impl(&mut m, global("p", ""), "orgA".into());
    assert!(matches!(r, Err(ContractError::Proposal(ProposalError::NoAction))));
    let r = create_global_proposal_impl(&mut m, global("p", &make(RECORD)), "orgA".into());
    assert!(matches!(r, Err(ContractError::Proposal(ProposalError::ObjectNotGlobal))));
    let r = create_global_proposal_impl(&mut m, global("p", &make("{\"kind\":\"x\"}")), "orgA".into());
    assert!(matches!(r, Err(ContractError::InvalidObject(_))));
    let r = create_global_proposal_impl(&mut m, global("p", &make("{\"apiVersion\":\"core/v1\",\"kind\":\"pod\"}")), "orgA".into());
    assert!(matches!(r, Err(ContractError::Proposal(ProposalError::ControllerNotFound(_)))));
    let r = create_global_proposal_impl(&mut m, global("p", "{\"delete\":{\"uid\":9}}"), "orgA".into());
    assert!(matches!(r, Err(ContractError::Proposal(ProposalError::ObjectNotFound(9)))));
    let r = create_global_proposal_impl(&mut m, b"{}".to_vec(), "orgA".into());
    assert!(matches!(r, Err(ContractError::Deserialize(DeserializeError::JsonError(_)))));
    let r = create_global_proposal_impl(&mut m, scoped("p", "ns1", &make(RECORD)), "orgA".into());
    assert!(matches!(r, Err(ContractError::Deserialize(DeserializeError::MismatchTypeMeta(_)))));
    let r = create_global_proposal_impl(&mut m, global("Bad", &make(NS1)), "orgA".into());
    assert!(matches!(r, Err(ContractError::Deserialize(DeserializeError::InvalidName(_)))));

    let r = create_proposal_impl(&mut m, scoped("p", "ns1", &make(NS1)), "ns1".into(), "orgA".into());
    assert!(matches!(r, Err(ContractError::Proposal(ProposalError::ObjectNotNamespaced(_)))));
    let r = create_proposal_impl(&mut m, scoped("p", "ns1", &make(RECORD)), "ns2".into(), "orgA".into());
    assert!(matches!(r, Err(ContractError::Proposal(ProposalError::ObjectNamespaceMismatch(_, _)))));
    let r = create_proposal_impl(&mut m, scoped("p", "ns2", &make(RECORD)), "ns2".into(), "orgA".into());
    assert!(matches!(r, Err(ContractError::Proposal(ProposalError::ObjectNamespaceMismatch(_, _)))));
    let no_ns = RECORD.replace("\"namespace\":\"ns1\"", "\"other\":1");
    let r = create_proposal_impl(&mut m, scoped("p", "ns1", &make(&no_ns)), "ns1".into(), "orgA".into());
    assert!(matches!(r, Err(ContractError::Proposal(ProposalError::ObjectNamespaceMismatch(_, _)))));
    assert_eq!(m.ctx().next_uid(), 1);
    assert_eq!(m.ctx().entries().len(), 1);

    let uid = create_proposal_impl(&mut m, scoped("p", "", &make(RECORD)), "ns1".into(), "orgA".into()).unwrap();
    assert_eq!(uid, 1);
    assert_eq!(m.get_object_by_uid(1).unwrap().unwrap().namespace(), Some("ns1"));
    let r = create_proposal_impl(&mut m, scoped("p", "ns1", &make(RECORD)), "ns1".into(), "orgB".into());
    assert!(matches!(r, Err(ContractError::Proposal(ProposalError::Conlict))));
    assert_eq!(m.ctx().next_uid(), 3);
    assert!(m.get_object_by_uid(2).unwrap().is_none());
}

#[test]
fn global_updates_keep_the_type() {
    let mut m = model();
    m.put_object(&DynamicObject::parse(NS1.replace("\"name\":\"ns1\"", "\"name\":\"ns1\",\"uid\":7").as_bytes()).unwrap()).unwrap();
    let as_record = format!("{{\"update\":{{\"uid\":7,\"object\":{}}}}}", RECORD);
    let r = create_global_proposal_impl(&mut m, global("p", &as_record), "orgA".into());
    assert!(matches!(r, Err(ContractError::Proposal(ProposalError::UpdateType))));
    let as_namespace = format!("{{\"update\":{{\"uid\":7,\"object\":{}}}}}", NS1);
    let r = create_global_proposal_impl(&mut m, global("p", &as_namespace), "orgA".into());
    assert!(matches!(r, Err(ContractError::ActionFn(ActionFnError::ActionNotSupported(_)))));
    let r = create_proposal_impl(&mut m, scoped("p", "ns1", "{\"delete\":{\"uid\":7}}"), "ns1".into(), "orgA".into());
    assert!(matches!(r, Err(ContractError::Proposal(ProposalError::ObjectNamespaceMismatch(_, _)))));
}

#[test]
fn permits_and_commits_by_name() {
    let mut m = model();
    create_global_proposal_impl(&mut m, global("make-ns1", &make(NS1)), "orgA".into()).unwrap();
    let missing = permit_global_proposal_by_name_impl(&mut m, "nothing".into(), true, "".into(), "orgA".into());
    assert!(matches!(missing, Err(ContractError::Proposal(ProposalError::ObjectNotFoundByName(_)))));
    let stranger = permit_global_proposal_by_name_impl(&mut m, "make-ns1".into(), true, "".into(), "orgC".into());
    assert!(matches!(stranger, Err(ContractError::ActionFn(ActionFnError::NotRelevant(_, _)))));
    permit_global_proposal_by_name_impl(&mut m, "make-ns1".into(), true, "yes".into(), "orgA".into()).unwrap();
    permit_global_proposal_by_name_impl(&mut m, "make-ns1".into(), true, "yes".into(), "orgB".into()).unwrap();
    permit_global_proposal_by_name_impl(&mut m, "make-ns1".into(), false, "".into(), "orgB".into()).unwrap();
    let early = commit_global_proposal_by_name_impl(&mut m, "make-ns1".into(), "orgA".into());
    assert!(matches!(early, Err(ContractError::ActionFn(ActionFnError::NotCommitable(_, _)))));
    permit_global_proposal_impl(&mut m, 1, true, "again".into(), "orgB".into()).unwrap();
    let other = commit_global_proposal_by_name_impl(&mut m, "make-ns1".into(), "orgB".into());
    assert!(matches!(other, Err(ContractError::Proposal(ProposalError::CommitForbidden))));
    assert!(matches!(
        commit_global_proposal_impl(&mut m, 5, "orgA".into()),
        Err(ContractError::Proposal(ProposalError::ObjectNotFound(5)))
    ));
    commit_global_proposal_by_name_impl(&mut m, "make-ns1".into(), "orgA".into()).unwrap();
    let late = revoke_global_proposal_by_name_impl(&mut m, "make-ns1".into(), "orgA".into());
    assert!(matches!(late, Err(ContractError::Proposal(ProposalError::InActive(1)))));
    match m.get_object_by_uid(1).unwrap().unwrap() {
        DynamicObject::GlobalProposal(p) => {
            assert!(p.is_committed());
            assert_eq!(p.status.permission.len(), 2);
            assert_eq!(p.status.permission.key_at(1), "orgB");
            assert_eq!(p.status.permission.value_at(1), "again");
            assert_eq!(p.status.results.unwrap().len(), 1);
        },
        _ => panic!("not a proposal"),
    }

    let two = format!("{},{}", make(RECORD), make(&RECORD.replace("\"r1\"", "\"r2\"")));
    let uid = create_proposal_impl(&mut m, scoped("add", "ns1", &two), "ns1".into(), "orgA".into()).unwrap();
    permit_proposal_by_name_impl(&mut m, "add".into(), "ns1".into(), true, "".into(), "orgA".into()).unwrap();
    permit_proposal_impl(&mut m, uid, true, "".into(), "orgB".into()).unwrap();
    assert!(matches!(
        commit_proposal_by_name_impl(&mut m, "add".into(), "ns2".into(), "orgA".into()),
        Err(ContractError::Proposal(ProposalError::ObjectNotFoundByName(_)))
    ));
    let results = commit_proposal_by_name_impl(&mut m, "add".into(), "ns1".into(), "orgA".into()).unwrap();
    let listed = Json::parse(&results).unwrap();
    match listed {
        Json::Array(items) => assert_eq!(items.len(), 2),
        _ => panic!("not an array"),
    }
    assert_eq!(m.get_uid_by_type(&Kind::Record.type_meta(), "ns1").unwrap(), vec![uid + 1, uid + 2]);
    assert!(matches!(
        revoke_proposal_by_name_impl(&mut m, "add".into(), "ns1".into(), "orgA".into()),
        Err(ContractError::Proposal(ProposalError::InActive(_)))
    ));
    assert!(matches!(
        revoke_proposal_impl(&mut m, 77, "orgA".into()),
        Err(ContractError::Proposal(ProposalError::ObjectNotFound(77)))
    ));
    assert!(matches!(
        commit_proposal_impl(&mut m, uid, "orgA".into()),
        Err(ContractError::Proposal(ProposalError::InActive(_)))
    ));
}

#[test]
fn a_commit_that_fails_changes_nothing() {
    let mut m = model();
    let same_twice = format!("{},{}", make(RECORD), make(RECORD));
    let uid = create_proposal_impl(&mut m, scoped("twice", "ns1", &same_twice), "ns1".into(), "orgA".into()).unwrap();
    permit_proposal_impl(&mut m, uid, true, "".into(), "orgA".into()).unwrap();
    permit_proposal_impl(&mut m, uid, true, "".into(), "orgB".into()).unwrap();
    let before = m.ctx().entries().len();
    let counter = m.ctx().next_uid();
    let r = commit_proposal_impl(&mut m, uid, "orgA".into());
    assert!(matches!(r, Err(ContractError::ActionFn(ActionFnError::ExecFailed(_, _)))));
    assert_eq!(m.ctx().entries().len(), before);
    assert_eq!(m.ctx().next_uid(), counter);
    assert!(m.get_uid_by_type(&Kind::Record.type_meta(), "ns1").unwrap().is_empty());
    match m.get_object_by_uid(uid).unwrap().unwrap() {
        DynamicObject::Proposal(p) => assert!(p.status.stage.is_active()),
        _ => panic!("not a proposal"),
    }
}

#[test]
fn messages() {
    assert_eq!(ContractError::Proposal(ProposalError::InActive(12)).message(), "proposal is inactive, uid: 12");
    assert_eq!(ContractError::Proposal(ProposalError::Conlict).message(), "name conflict");
    assert_eq!(
        ContractError::ActionFn(ActionFnError::NotCommitable("create".into(), "why".into())).message(),
        "create not commitable, why"
    );
    assert_eq!(
        ContractError::ChainModel(ChainModelError::MismatchedKind { uid: 3, old_kind: "a".into(), new_kind: "b".into() })
            .message(),
        "mismatched object, uid: 3, old_kind: a, new_kind: b"
    );
    assert_eq!(
        ContractError::Deserialize(DeserializeError::InvalidName("x".into())).message(),
        "invalid name: x"
    );
    let parse = Json::parse(b"{").unwrap_err();
    assert!(!parse.is_empty());
}

#[test]
fn handlers_by_kind() {
    let mut m = model();
    let make_ns = CreateObjectAction { object: json(NS1) };
    Namespace::create_support(&m, &make_ns).unwrap();
    Namespace::create_relevent(&m, &make_ns, "orgB").unwrap();
    assert!(matches!(Namespace::create_commitable(&m, &make_ns, &permitted(&["orgB"])), Err(ActionFnError::NotCommitable(_, _))));
    Namespace::create_exec(&mut m, &make_ns).unwrap();
    assert!(matches!(Namespace::create_support(&m, &make_ns), Err(ActionFnError::NotSupport(_, _))));

    let make_record = CreateObjectAction { object: json(RECORD) };
    Record::create_support(&m, &make_record).unwrap();
    Record::create_exec(&mut m, &make_record).unwrap();
    let change = UpdateObjectAction { uid: 2, object: json(&RECORD.replace("\"content\":{}", "\"content\":[1]")) };
    Record::update_support(&m, &change).unwrap();
    Record::update_relevent(&m, &change, "orgA").unwrap();
    Record::update_commitable(&m, &change, &permitted(&["orgA", "orgB"])).unwrap();
    assert!(matches!(Record::update_exec(&mut m, &change).unwrap(), ObjectByAction::Update { .. }));

    let make_data = CreateObjectAction { object: json(DATA) };
    DataDeclare::create_commitable(&m, &make_data, &permitted(&[])).unwrap();
    DataDeclare::create_exec(&mut m, &make_data).unwrap();
    let drop_data = DeleteObjectAction { uid: 3 };
    DataDeclare::delete_support(&m, &drop_data).unwrap();
    assert!(matches!(DataDeclare::delete_relevent(&m, &drop_data, "orgA"), Err(ActionFnError::NotRelevant(_, _))));
    DataDeclare::delete_commitable(&m, &drop_data, &permitted(&[])).unwrap();
    assert!(matches!(FunctionDeclare::delete_support(&m, &drop_data), Err(ActionFnError::Deserialize(_))));
    DataDeclare::delete_exec(&mut m, &drop_data).unwrap();

    let make_contract = CreateObjectAction { object: json(CONTRACT_V1) };
    Contract::create_relevent(&m, &make_contract, "orgA").unwrap();
    Contract::create_exec(&mut m, &make_contract).unwrap();
    assert!(matches!(Contract::delete_relevent(&m, &DeleteObjectAction { uid: 4 }, "orgZ"), Err(ActionFnError::NotRelevant(_, _))));

    let drop_ns = DeleteObjectAction { uid: 1 };
    Namespace::delete_relevent(&m, &drop_ns, "orgA").unwrap();
    Namespace::delete_commitable(&m, &drop_ns, &permitted(&["orgA", "orgB"])).unwrap();
    Namespace::delete_exec(&mut m, &drop_ns).unwrap();
    assert!(m.get_object_by_uid(1).unwrap().is_none());
    assert!(m.get_object_by_uid(2).unwrap().is_none());
    assert!(m.get_object_by_uid(4).unwrap().is_none());
    assert_eq!(m.ctx().entries().len(), 1);

    let status = ProposalStatus::default();
    assert!(status.stage.is_revoked());
    assert!(status.results.is_none());
}
