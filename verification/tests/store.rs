use contract::codec::uid_to_be_bytes;
use contract::errors::ChainModelError;
use contract::model::ChainModel;
use contract::objects::dynamic::DynamicObject;
use contract::objects::kinds::Kind;

fn parse(text: &str) -> DynamicObject {
    DynamicObject::parse(text.as_bytes()).unwrap()
}

fn namespace(name: &str, uid: u64) -> DynamicObject {
    parse(&format!(
        "{{\"apiVersion\":\"core/v1\",\"kind\":\"namespace\",\"metadata\":{{\"name\":\"{}\",\"uid\":{}}},\"spec\":{{\"members\":[\"orgA\"]}}}}",
        name, uid
    ))
}

fn record(ns: &str, name: &str, uid: u64) -> DynamicObject {
    parse(&format!(
        "{{\"apiVersion\":\"core/v1\",\"kind\":\"record\",\"metadata\":{{\"name\":\"{}\",\"namespace\":\"{}\",\"uid\":{}}},\"spec\":{{\"content\":1,\"authors\":[\"orgA\"]}}}}",
        name, ns, uid
    ))
}

fn contract_object(ns: &str, name: &str, version: &str, uid: u64) -> DynamicObject {
    parse(&format!(
        "{{\"apiVersion\":\"core/v1\",\"kind\":\"contract\",\"metadata\":{{\"name\":\"{}\",\"namespace\":\"{}\",\"version\":\"{}\",\"uid\":{}}},\"spec\":{{\"content\":\"\",\"execPatterns\":[]}}}}",
        name, ns, version, uid
    ))
}

fn model() -> ChainModel {
    ChainModel::fresh("orgA".to_string(), vec![])
}

#[test]
fn put_indexes_and_delete_unindexes() {
    let mut m = model();
    let ns = namespace("ns1", 1);
    m.put_object(&ns).unwrap();
    let raw = m.get_raw_object_by_uid(1).unwrap().unwrap();
    assert_eq!(raw, ns.to_json().unwrap());
    assert_eq!(m.ctx().get_state("i1c_core_v1_namespace__ns1", "").unwrap(), uid_to_be_bytes(1));
    assert_eq!(m.ctx().get_state_from_key("t1c_00000000001").unwrap(), raw);
    let meta = Kind::Namespace.type_meta();
    assert_eq!(m.get_raw_object_by_name_version(&meta, "ns1", None, None).unwrap(), Some(raw.clone()));
    assert_eq!(m.get_object_by_name_version(&meta, "ns1", None, None).unwrap().unwrap().uid(), 1);
    assert!(m.get_raw_object_by_name_version(&meta, "ns2", None, None).unwrap().is_none());
    assert!(m.get_raw_object_by_name_version(&meta, "ns1", Some("x"), None).unwrap().is_none());
    assert!(m.get_raw_object_by_uid(2).unwrap().is_none());
    assert!(m.get_object_by_uid(2).unwrap().is_none());

    let gone = m.delete_object_by_uid(1).unwrap().unwrap();
    assert_eq!(gone.name(), "ns1");
    assert!(m.get_raw_object_by_uid(1).unwrap().is_none());
    assert!(m.get_raw_object_by_name_version(&meta, "ns1", None, None).unwrap().is_none());
    assert_eq!(m.ctx().entries().len(), 1);
    assert!(m.delete_object_by_uid(1).unwrap().is_none());
}

#[test]
fn replacing_moves_the_index_entry() {
    let mut m = model();
    m.put_object(&record("ns1", "old", 3)).unwrap();
    m.put_object(&record("ns1", "new", 3)).unwrap();
    let meta = Kind::Record.type_meta();
    assert!(m.get_raw_object_by_name_version(&meta, "old", Some("ns1"), None).unwrap().is_none());
    assert_eq!(m.get_object_by_name_version(&meta, "new", Some("ns1"), None).unwrap().unwrap().uid(), 3);
    assert_eq!(m.get_object_by_uid(3).unwrap().unwrap().name(), "new");
    assert_eq!(m.ctx().entries().len(), 3);
    let other_kind = m.put_object(&namespace("ns9", 3));
    assert!(matches!(
        other_kind,
        Err(ChainModelError::MismatchedKind { uid: 3, ref old_kind, ref new_kind }) if old_kind == "record" && new_kind == "namespace"
    ));
    assert_eq!(m.get_object_by_uid(3).unwrap().unwrap().name(), "new");
    assert_eq!(m.ctx().entries().len(), 3);
}

#[test]
fn table_and_index_agree_after_every_step() {
    let mut m = model();
    let meta = Kind::Record.type_meta();
    let names = ["a", "b", "c", "d"];
    let check = |m: &ChainModel, live: &[(u64, &str)]| {
        for uid in 1..=5u64 {
            let present = m.get_raw_object_by_uid(uid).unwrap().is_some();
            assert_eq!(present, live.iter().any(|(u, _)| *u == uid));
        }
        for name in names {
            let found = m.get_object_by_name_version(&meta, name, Some("ns1"), None).unwrap();
            match live.iter().find(|(_, n)| *n == name) {
                Some((uid, _)) => assert_eq!(found.unwrap().uid(), *uid),
                None => assert!(found.is_none()),
            }
        }
        let mut uids = m.get_uid_by_type(&meta, "ns1").unwrap();
        uids.sort();
        let mut expected: Vec<u64> = live.iter().map(|(u, _)| *u).collect();
        expected.sort();
        assert_eq!(uids, expected);
    };
    check(&m, &[]);
    m.put_object(&record("ns1", "a", 1)).unwrap();
    check(&m, &[(1, "a")]);
    m.put_object(&record("ns1", "b", 2)).unwrap();
    check(&m, &[(1, "a"), (2, "b")]);
    m.put_object(&record("ns1", "c", 1)).unwrap();
    check(&m, &[(1, "c"), (2, "b")]);
    m.delete_object_by_uid(2).unwrap();
    check(&m, &[(1, "c")]);
    m.put_object(&record("ns1", "b", 5)).unwrap();
    check(&m, &[(1, "c"), (5, "b")]);
    m.delete_object_by_uid(1).unwrap();
    m.delete_object_by_uid(5).unwrap();
    check(&m, &[]);
}

#[test]
fn lookup_by_namespace_and_name_has_three_shapes() {
    let mut m = model();
    let record_meta = Kind::Record.type_meta();
    let contract_meta = Kind::Contract.type_meta();
    assert!(m.get_raw_object_by_ns_name(&record_meta, "r1", Some("ns1")).unwrap().is_none());

    let r1 = record("ns1", "r1", 1);
    m.put_object(&r1).unwrap();
    m.put_object(&record("ns1", "r12", 2)).unwrap();
    assert_eq!(m.get_raw_object_by_ns_name(&record_meta, "r1", Some("ns1")).unwrap(), Some(r1.to_json().unwrap()));

    let c1 = contract_object("ns1", "c", "v1", 3);
    let c2 = contract_object("ns1", "c", "v2", 4);
    m.put_object(&c1).unwrap();
    let one = m.get_raw_object_by_ns_name(&contract_meta, "c", Some("ns1")).unwrap().unwrap();
    assert_eq!(one, [b"[".to_vec(), c1.to_json().unwrap(), b"]".to_vec()].concat());
    m.put_object(&c2).unwrap();
    let two = m.get_raw_object_by_ns_name(&contract_meta, "c", Some("ns1")).unwrap().unwrap();
    assert_eq!(two, [b"[".to_vec(), c1.to_json().unwrap(), b",".to_vec(), c2.to_json().unwrap(), b"]".to_vec()].concat());
    assert_eq!(
        m.get_raw_object_by_name_version(&contract_meta, "c", Some("ns1"), Some("v2")).unwrap(),
        Some(c2.to_json().unwrap())
    );
    assert!(m.get_raw_object_by_name_version(&contract_meta, "c", Some("ns1"), None).unwrap().is_none());
    assert_eq!(m.get_raw_objects(&vec![]).unwrap(), b"[]".to_vec());
    assert_eq!(m.get_raw_objects(&vec![1]).unwrap(), [b"[".to_vec(), r1.to_json().unwrap(), b"]".to_vec()].concat());
    assert!(matches!(m.get_raw_objects(&vec![1, 99]), Err(ChainModelError::StateError(_))));
}

#[test]
fn scans_by_kind_and_namespace() {
    let mut m = model();
    m.put_object(&namespace("ns1", 1)).unwrap();
    m.put_object(&record("ns1", "r1", 2)).unwrap();
    m.put_object(&contract_object("ns1", "c", "v1", 3)).unwrap();
    m.put_object(&record("ns2", "r1", 4)).unwrap();
    m.put_object(&record("ns1", "r2", 5)).unwrap();
    assert_eq!(m.get_uid_by_ns("ns1").unwrap(), vec![3, 2, 5]);
    assert_eq!(m.get_uid_by_ns("ns2").unwrap(), vec![4]);
    assert!(m.get_uid_by_ns("ns3").unwrap().is_empty());
    let record_meta = Kind::Record.type_meta();
    assert_eq!(m.get_uid_by_type(&record_meta, "").unwrap(), vec![2, 4, 5]);
    assert_eq!(m.get_uid_by_type(&record_meta, "ns1").unwrap(), vec![2, 5]);
    assert_eq!(m.get_uid_by_type(&Kind::Namespace.type_meta(), "").unwrap(), vec![1]);
    assert!(m.get_uid_by_type(&Kind::Proposal.type_meta(), "").unwrap().is_empty());
}

#[test]
fn a_broken_index_is_reported() {
    let mut m = model();
    m.put_object(&record("ns1", "r1", 2)).unwrap();
    let meta = Kind::Record.type_meta();
    m.ctx_mut().put_state("i1c_core_v1_record_ns1_ghost", "", &uid_to_be_bytes(77)).unwrap();
    assert!(matches!(
        m.get_raw_object_by_name_version(&meta, "ghost", Some("ns1"), None),
        Err(ChainModelError::StateError(_))
    ));
    assert!(matches!(m.get_raw_object_by_ns_name(&meta, "ghost", Some("ns1")), Err(ChainModelError::StateError(_))));
    m.ctx_mut().put_state("i1c_core_v1_record_ns1_short", "", &[1, 2, 3]).unwrap();
    assert!(matches!(
        m.get_raw_object_by_name_version(&meta, "short", Some("ns1"), None),
        Err(ChainModelError::StateError(_))
    ));
    assert!(matches!(m.get_uid_by_type(&meta, "ns1"), Err(ChainModelError::StateError(_))));
    assert!(matches!(m.get_uid_by_ns("ns1"), Err(ChainModelError::StateError(_))));
    assert!(matches!(ChainModel::be_uid_from_vec(vec![1]), Err(ChainModelError::StateError(_))));
    assert_eq!(ChainModel::be_uid_from_vec(uid_to_be_bytes(5)).unwrap(), 5);
}

#[test]
fn a_stored_text_that_is_no_object_is_reported() {
    let mut m = model();
    m.ctx_mut().put_state_from_key("t1c_00000000007", b"{\"apiVersion\":\"core/v1\",\"kind\":\"pod\"}").unwrap();
    assert!(matches!(m.get_object_by_uid(7), Err(ChainModelError::UnsupportedObject(_, _))));
    assert!(matches!(m.delete_object_by_uid(7), Err(ChainModelError::UnsupportedObject(_, _))));
    assert!(m.get_raw_object_by_uid(7).unwrap().is_some());
    assert!(matches!(m.put_object(&record("ns1", "r1", 7)), Err(ChainModelError::UnsupportedObject(_, _))));
    m.ctx_mut().put_state_from_key("t1c_00000000008", b"junk").unwrap();
    assert!(matches!(m.get_object_by_uid(8), Err(ChainModelError::JsonError(_))));
}

#[test]
fn uids_and_keys() {
    let mut m = model();
    assert_eq!(m.new_uid(), 1);
    assert_eq!(m.new_uid(), 2);
    assert_eq!(m.ctx().next_uid(), 3);
    assert_eq!(ChainModel::convert_api_version("core/v1"), "core_v1");
    let meta = Kind::Contract.type_meta();
    assert_eq!(ChainModel::object_index_key(&meta, "ns1", "c"), "i1c_core_v1_contract_ns1_c");
    assert_eq!(ChainModel::ns_index_prefix(&meta, "ns1"), "i1c_core_v1_contract_ns1_");
    assert_eq!(ChainModel::type_prefix(&meta), "i1c_core_v1_contract_");
    assert!(m.slot_is_free(&record("ns1", "r1", 1)));
    m.put_object(&record("ns1", "r1", 1)).unwrap();
    assert!(m.slot_is_free(&record("ns1", "r1", 1)));
    assert!(!m.slot_is_free(&record("ns1", "r1", 2)));
    let ctx = m.into_context();
    assert_eq!(ctx.next_uid(), 3);
}
