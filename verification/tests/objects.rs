use contract::errors::{ChainModelError, DeserializeError};
use contract::json::Json;
use contract::objects::base::BaseObject;
use contract::objects::dynamic::DynamicObject;
use contract::objects::kinds::{get_namespace, get_type_meta, namespaced, versioned, Kind};
use contract::objects::meta::TypeMeta;
use contract::objects::v1::contracts::Contract;
use contract::objects::v1::declare::{DataDeclare, FunctionDeclare};
use contract::objects::v1::global_proposal::GlobalProposal;
use contract::objects::v1::namespace::{Namespace, NamespaceMetadata, NamespaceSpec};
use contract::objects::v1::proposal::{Proposal, ProposalAction, ProposalStage, ProposalStatus};
use contract::objects::v1::record::Record;
use contract::context::Context;
use contract::model::ChainModel;
use contract::utils::objects::{index_key, insert_index, insert_table, table_key};

fn text(obj: &DynamicObject) -> String {
    String::from_utf8(obj.to_value().to_vec().unwrap()).unwrap()
}

fn round_trip(source: &str, canonical: &str) -> DynamicObject {
    let obj = DynamicObject::parse(source.as_bytes()).unwrap();
    assert_eq!(text(&obj), canonical);
    let again = DynamicObject::parse(canonical.as_bytes()).unwrap();
    assert_eq!(text(&again), canonical);
    obj
}

#[test]
fn test_table_key() {
    let type_meta = TypeMeta { api_version: "v1".to_string(), kind: "kind".to_string() };
    let metadata = NamespaceMetadata { name: "testns".to_string(), uid: 1, annotations: None };
    let spec = NamespaceSpec::new(vec![]);

    let obj = Namespace::new(type_meta, metadata, spec);

    assert_eq!(table_key(&obj), "t1c_00000000001".to_string());
}

#[test]
fn test_index_key() {
    let type_meta = TypeMeta { api_version: "v1".to_string(), kind: "kind".to_string() };
    let metadata = NamespaceMetadata { name: "testns".to_string(), uid: 1, annotations: None };
    let spec = NamespaceSpec::new(vec![]);

    let obj = Namespace::new(type_meta, metadata, spec);

    assert_eq!(index_key(&obj), "i1c__testns".to_string());
}

#[test]
fn plain_keys_are_decimal() {
    let type_meta = TypeMeta { api_version: "core/v1".to_string(), kind: "namespace".to_string() };
    let metadata = NamespaceMetadata { name: "ns1".to_string(), uid: 62, annotations: None };
    let obj = Namespace::new(type_meta, metadata, NamespaceSpec::new(vec![]));
    assert_eq!(table_key(&obj), "t1c_00000000062");
    assert_eq!(ChainModel::object_table_key(62), "t1c_00000000010");
    let mut ctx = Context::fresh("orgA".to_string(), vec![]);
    let held = DynamicObject::Namespace(obj);
    insert_table(&mut ctx, &held).unwrap();
    let text = ctx.get_state_from_key("t1c_00000000062").unwrap();
    assert_eq!(
        String::from_utf8(text.clone()).unwrap(),
        "{\"apiVersion\":\"core/v1\",\"kind\":\"namespace\",\"metadata\":{\"name\":\"ns1\",\"uid\":62,\"annotations\":null},\"spec\":{\"members\":[]}}"
    );
    assert_eq!(ctx.reply(), Some((true, text)));
    insert_index(&mut ctx, &held);
    assert_eq!(ctx.get_state("i1c__ns1", "").unwrap(), vec![62, 0, 0, 0, 0, 0, 0, 0]);
    assert_eq!(ctx.reply(), Some((true, vec![62, 0, 0, 0, 0, 0, 0, 0])));
}

#[test]
fn namespace_keeps_its_annotations() {
    let source = "{\"apiVersion\":\"core/v1\",\"kind\":\"namespace\",\"metadata\":{\"name\":\"ns1\",\"uid\":7,\"annotations\":null},\"spec\":{\"members\":[\"orgA\",\"orgB\"]}}";
    let value = Json::parse(source.as_bytes()).unwrap();
    let ns = Namespace::parse_from_value(&value).unwrap();
    assert_eq!(BaseObject::name(&ns), "ns1");
    assert_eq!(BaseObject::uid(&ns), 7);
    assert_eq!(BaseObject::namespace(&ns), None);
    assert_eq!(BaseObject::version(&ns), None);
    assert!(ns.metadata.annotations.is_none());
    assert_eq!(String::from_utf8(ns.to_value().to_vec().unwrap()).unwrap(), source);

    let noted = "{\"apiVersion\":\"core/v1\",\"kind\":\"namespace\",\"metadata\":{\"name\":\"ns1\",\"uid\":7,\"annotations\":{\"owner\":\"orgA\",\"tags\":[1,{\"a\":null}]}},\"spec\":{\"members\":[\"orgA\"]}}";
    let obj = round_trip(noted, noted);
    match obj {
        DynamicObject::Namespace(ns) => assert!(ns.metadata.annotations.is_some()),
        _ => panic!("not a namespace"),
    }

    round_trip(
        "{\"apiVersion\":\"core/v1\",\"kind\":\"namespace\",\"metadata\":{\"annotations\":{\"zone\":{\"y\":1,\"x\":2},\"area\":\"north\",\"Zone\":0},\"name\":\"ns1\"},\"spec\":{\"members\":[]}}",
        "{\"apiVersion\":\"core/v1\",\"kind\":\"namespace\",\"metadata\":{\"name\":\"ns1\",\"uid\":0,\"annotations\":{\"Zone\":0,\"area\":\"north\",\"zone\":{\"y\":1,\"x\":2}}},\"spec\":{\"members\":[]}}",
    );

    let wrong = "{\"apiVersion\":\"core/v1\",\"kind\":\"namespace\",\"metadata\":{\"name\":\"ns1\",\"annotations\":\"text\"},\"spec\":{\"members\":[]}}";
    assert!(matches!(
        Namespace::parse_from_slice(wrong.as_bytes()),
        Err(DeserializeError::JsonError(_))
    ));
}

#[test]
fn every_kind_but_proposals_writes_annotations() {
    let record = "{\"apiVersion\":\"core/v1\",\"kind\":\"record\",\"metadata\":{\"name\":\"r1\",\"namespace\":\"ns1\",\"uid\":3,\"annotations\":{\"k\":1}},\"spec\":{\"content\":null,\"authors\":[\"orgA\"]}}";
    round_trip(record, record);
    let declare = "{\"apiVersion\":\"core/v1\",\"kind\":\"datadeclare\",\"metadata\":{\"name\":\"d1\",\"namespace\":\"ns1\",\"uid\":5,\"annotations\":{\"k\":\"v\"}},\"spec\":{\"dataType\":\"table\",\"description\":\"rows\"},\"status\":{\"implementation\":{}}}";
    round_trip(declare, declare);
}

#[test]
fn namespace_round_trip() {
    let obj = round_trip(
        "{\"kind\":\"namespace\",\"apiVersion\":\"core/v1\",\"extra\":[1,2],\"spec\":{\"members\":[\"a\",\"b\"]},\"metadata\":{\"name\":\"ns1\",\"annotations\":null}}",
        "{\"apiVersion\":\"core/v1\",\"kind\":\"namespace\",\"metadata\":{\"name\":\"ns1\",\"uid\":0,\"annotations\":null},\"spec\":{\"members\":[\"a\",\"b\"]}}",
    );
    assert!(matches!(obj.object_kind(), Kind::Namespace));
    assert_eq!(obj.name(), "ns1");
    assert_eq!(obj.uid(), 0);
    assert_eq!(obj.namespace(), None);
    assert_eq!(obj.version(), None);
    assert!(!obj.namespaced());
    assert_eq!(obj.kind(), "namespace");
    assert_eq!(obj.api_version(), "core/v1");
    match obj {
        DynamicObject::Namespace(ns) => {
            assert_eq!(ns.spec.members, vec!["a".to_string(), "b".to_string()]);
            assert_eq!(BaseObject::name(&ns), "ns1");
            assert_eq!(BaseObject::type_meta(&ns).kind, "namespace");
        },
        _ => panic!("not a namespace"),
    }
}

#[test]
fn data_declare_round_trip() {
    let obj = round_trip(
        "{\"apiVersion\":\"core/v1\",\"kind\":\"datadeclare\",\"metadata\":{\"name\":\"d1\",\"namespace\":\"ns1\",\"uid\":5,\"annotations\":null},\"spec\":{\"dataType\":\"table\",\"description\":\"rows\"}}",
        "{\"apiVersion\":\"core/v1\",\"kind\":\"datadeclare\",\"metadata\":{\"name\":\"d1\",\"namespace\":\"ns1\",\"uid\":5,\"annotations\":null},\"spec\":{\"dataType\":\"table\",\"description\":\"rows\"},\"status\":{\"implementation\":{}}}",
    );
    assert_eq!(obj.namespace(), Some("ns1"));
    assert_eq!(obj.uid(), 5);
    let with_impls = round_trip(
        "{\"apiVersion\":\"core/v1\",\"kind\":\"datadeclare\",\"metadata\":{\"name\":\"d1\",\"namespace\":\"ns1\"},\"spec\":{\"dataType\":\"t\",\"description\":\"\"},\"status\":{\"implementation\":{\"orgB\":\"yes\",\"orgA\":\"\"}}}",
        "{\"apiVersion\":\"core/v1\",\"kind\":\"datadeclare\",\"metadata\":{\"name\":\"d1\",\"namespace\":\"ns1\",\"uid\":0,\"annotations\":null},\"spec\":{\"dataType\":\"t\",\"description\":\"\"},\"status\":{\"implementation\":{\"orgA\":\"\",\"orgB\":\"yes\"}}}",
    );
    match with_impls {
        DynamicObject::DataDeclare(mut d) => {
            assert!(d.status().impls().contains_key("orgA"));
            assert!(!d.status().impls().contains_key("orgC"));
            d.set_implement("orgC".into(), true, "now".into()).unwrap();
            assert!(d.status().impls().contains_key("orgC"));
            d.set_implement("orgC".into(), false, "".into()).unwrap();
            assert!(!d.status().impls().contains_key("orgC"));
            assert!(d.set_implement("orgC".into(), false, "".into()).is_err());
            assert_eq!(d.status().impls().len(), 2);
            assert_eq!(d.spec().data_type, "t");
        },
        _ => panic!("not a data declaration"),
    }
}

#[test]
fn function_declare_round_trip() {
    let obj = round_trip(
        "{\"apiVersion\":\"core/v1\",\"kind\":\"functiondeclare\",\"metadata\":{\"name\":\"f1\",\"namespace\":\"ns1\"},\"spec\":{\"args\":[{\"argType\":\"int\",\"description\":\"n\"},{\"argType\":\"str\",\"description\":\"s\"}],\"retType\":\"bool\",\"description\":\"check\"}}",
        "{\"apiVersion\":\"core/v1\",\"kind\":\"functiondeclare\",\"metadata\":{\"name\":\"f1\",\"namespace\":\"ns1\",\"uid\":0,\"annotations\":null},\"spec\":{\"args\":[{\"argType\":\"int\",\"description\":\"n\"},{\"argType\":\"str\",\"description\":\"s\"}],\"retType\":\"bool\",\"description\":\"check\"},\"status\":{\"implementation\":{}}}",
    );
    match obj {
        DynamicObject::FunctionDeclare(mut f) => {
            assert_eq!(f.spec().args.len(), 2);
            assert_eq!(f.spec().args[1].arg_type, "str");
            f.set_implement("orgA".into(), true, "done".into()).unwrap();
            assert!(f.status().impls().contains_key("orgA"));
            assert!(f.set_implement("orgB".into(), false, "".into()).is_err());
        },
        _ => panic!("not a function declaration"),
    }
}

#[test]
fn contract_round_trip() {
    let obj = round_trip(
        "{\"apiVersion\":\"core/v1\",\"kind\":\"contract\",\"metadata\":{\"name\":\"c1\",\"namespace\":\"ns1\",\"version\":\"v2\",\"uid\":9,\"annotations\":null},\"spec\":{\"content\":\"do it\",\"data\":{\"d1\":3},\"execPatterns\":[[\"orgA\",\"orgB\"],[\"orgC\"]]}}",
        "{\"apiVersion\":\"core/v1\",\"kind\":\"contract\",\"metadata\":{\"name\":\"c1\",\"namespace\":\"ns1\",\"version\":\"v2\",\"uid\":9,\"annotations\":null},\"spec\":{\"content\":\"do it\",\"data\":{\"d1\":3},\"functions\":{},\"execPatterns\":[[\"orgA\",\"orgB\"],[\"orgC\"]]},\"status\":{}}",
    );
    assert_eq!(obj.version(), Some("v2"));
    assert!(obj.has_approver("orgC"));
    assert!(!obj.has_approver("orgD"));
    match obj {
        DynamicObject::Contract(c) => {
            assert_eq!(c.spec().data(), &vec![("d1".to_string(), 3u64)]);
            assert!(c.spec().functions().is_empty());
        },
        _ => panic!("not a contract"),
    }
}

#[test]
fn record_round_trip_keeps_any_content() {
    let obj = round_trip(
        "{\"apiVersion\":\"core/v1\",\"kind\":\"record\",\"metadata\":{\"name\":\"r1\",\"namespace\":\"ns1\"},\"spec\":{\"content\":{\"z\":[1,-2,3.5,1e300,true,null,\"s\\n\"],\"a\":{\"b\":18446744073709551615}},\"authors\":[\"orgA\"]}}",
        "{\"apiVersion\":\"core/v1\",\"kind\":\"record\",\"metadata\":{\"name\":\"r1\",\"namespace\":\"ns1\",\"uid\":0,\"annotations\":null},\"spec\":{\"content\":{\"z\":[1,-2,3.5,1e+300,true,null,\"s\\n\"],\"a\":{\"b\":18446744073709551615}},\"authors\":[\"orgA\"]}}",
    );
    assert!(obj.has_approver("orgA"));
}

#[test]
fn proposal_round_trip() {
    let source = "{\"apiVersion\":\"core/v1\",\"kind\":\"proposal\",\"metadata\":{\"name\":\"p1\",\"namespace\":\"ns1\",\"uid\":4,\"creator\":\"orgA\"},\"spec\":{\"actions\":[{\"create\":{\"object\":{\"x\":1}}},{\"update\":{\"uid\":7,\"object\":null}},{\"delete\":{\"uid\":8}}]},\"status\":{\"stage\":\"Submitted\",\"permission\":{\"orgA\":\"ok\"},\"results\":[{\"create\":{\"x\":1}},{\"update\":{\"old\":1,\"updated\":2}},{\"delete\":[]}]}}";
    let obj = round_trip(source, source);
    match obj {
        DynamicObject::Proposal(p) => {
            assert_eq!(p.metadata.creator, "orgA");
            assert_eq!(p.spec.actions.len(), 3);
            assert!(matches!(p.spec.actions[2], ProposalAction::Delete(ref d) if d.uid == 8));
            assert!(p.status.stage.is_submitted());
            assert!(!p.status.stage.is_active());
            assert!(!p.status.stage.is_revoked());
            assert_eq!(p.status.results.as_ref().unwrap().len(), 3);
        },
        _ => panic!("not a proposal"),
    }
    let bare = round_trip(
        "{\"apiVersion\":\"core/v1\",\"kind\":\"proposal\",\"metadata\":{\"name\":\"p1\",\"namespace\":\"ns1\"},\"spec\":{\"actions\":[]}}",
        "{\"apiVersion\":\"core/v1\",\"kind\":\"proposal\",\"metadata\":{\"name\":\"p1\",\"namespace\":\"ns1\",\"uid\":0,\"creator\":\"\"},\"spec\":{\"actions\":[]},\"status\":{\"stage\":\"Revoked\",\"permission\":{},\"results\":null}}",
    );
    assert!(matches!(bare.status().stage, ProposalStage::Revoked));
    let init = ProposalStatus::init(&vec![]);
    assert!(init.stage.is_active());
    assert_eq!(init.permission.len(), 0);
    assert!(init.results.is_none());
}

#[test]
fn global_proposal_round_trip() {
    let obj = round_trip(
        "{\"apiVersion\":\"core/v1\",\"kind\":\"globalproposal\",\"metadata\":{\"name\":\"g1\",\"namespace\":\"ignored\"},\"spec\":{\"actions\":[{\"delete\":{\"uid\":2}}]},\"status\":{\"stage\":\"Active\",\"permission\":{}}}",
        "{\"apiVersion\":\"core/v1\",\"kind\":\"globalproposal\",\"metadata\":{\"name\":\"g1\",\"uid\":0,\"creator\":\"\"},\"spec\":{\"actions\":[{\"delete\":{\"uid\":2}}]},\"status\":{\"stage\":\"Active\",\"permission\":{},\"results\":null}}",
    );
    match obj {
        DynamicObject::GlobalProposal(g) => {
            assert!(g.is_active());
            assert!(!g.is_committed());
            assert!(!g.is_revoked());
        },
        _ => panic!("not a global proposal"),
    }
}

#[test]
fn typed_parsers_hold_objects_against_their_type() {
    let ns = "{\"apiVersion\":\"core/v1\",\"kind\":\"namespace\",\"metadata\":{\"name\":\"ns1\"},\"spec\":{\"members\":[]}}";
    assert!(Namespace::parse_from_slice(ns.as_bytes()).is_ok());
    assert!(matches!(Record::parse_from_slice(ns.as_bytes()), Err(DeserializeError::JsonError(_))));
    assert!(matches!(Contract::parse_from_slice(ns.as_bytes()), Err(DeserializeError::JsonError(_))));
    assert!(matches!(DataDeclare::parse_from_slice(ns.as_bytes()), Err(DeserializeError::JsonError(_))));
    assert!(matches!(FunctionDeclare::parse_from_slice(ns.as_bytes()), Err(DeserializeError::JsonError(_))));
    assert!(matches!(Proposal::parse_from_slice(ns.as_bytes()), Err(DeserializeError::JsonError(_))));
    assert!(matches!(GlobalProposal::parse_from_slice(ns.as_bytes()), Err(DeserializeError::JsonError(_))));

    let other_kind = "{\"apiVersion\":\"core/v1\",\"kind\":\"record\",\"metadata\":{\"name\":\"ns1\"},\"spec\":{\"members\":[]}}";
    assert!(matches!(Namespace::parse_from_slice(other_kind.as_bytes()), Err(DeserializeError::MismatchTypeMeta(_))));
    let other_api = "{\"apiVersion\":\"core/v2\",\"kind\":\"namespace\",\"metadata\":{\"name\":\"ns1\"},\"spec\":{\"members\":[]}}";
    assert!(matches!(Namespace::parse_from_slice(other_api.as_bytes()), Err(DeserializeError::MismatchTypeMeta(_))));
    match Namespace::parse_from_slice(other_kind.as_bytes()) {
        Err(DeserializeError::MismatchTypeMeta(msg)) => {
            assert_eq!(msg, "kind mismatch, expect 'namespace', but get 'record'")
        },
        _ => panic!("not refused"),
    }
    match Namespace::parse_from_slice(other_api.as_bytes()) {
        Err(e) => assert_eq!(e.message(), "type meta error: apiVersion mismatch, expect 'core/v1', but get 'core/v2'"),
        _ => panic!("not refused"),
    }
    let bad_name = "{\"apiVersion\":\"core/v1\",\"kind\":\"namespace\",\"metadata\":{\"name\":\"Ns1\"},\"spec\":{\"members\":[]}}";
    match Namespace::parse_from_slice(bad_name.as_bytes()) {
        Err(e) => assert_eq!(e.message(), "invalid name: name is not a valid RFC 1035 label"),
        _ => panic!("not refused"),
    }
    assert!(matches!(Namespace::parse_from_slice(bad_name.as_bytes()), Err(DeserializeError::InvalidName(_))));
    let both = "{\"apiVersion\":\"core/v2\",\"kind\":\"namespace\",\"metadata\":{\"name\":\"Ns1\"},\"spec\":{\"members\":[]}}";
    assert!(matches!(Namespace::parse_from_slice(both.as_bytes()), Err(DeserializeError::MismatchTypeMeta(_))));
    assert!(matches!(Namespace::parse_from_slice(b"{not json"), Err(DeserializeError::JsonError(_))));
    let no_members = "{\"apiVersion\":\"core/v1\",\"kind\":\"namespace\",\"metadata\":{\"name\":\"ns1\"},\"spec\":{\"members\":[1]}}";
    assert!(matches!(Namespace::parse_from_slice(no_members.as_bytes()), Err(DeserializeError::JsonError(_))));
    let bad_uid = "{\"apiVersion\":\"core/v1\",\"kind\":\"namespace\",\"metadata\":{\"name\":\"ns1\",\"uid\":-1},\"spec\":{\"members\":[]}}";
    assert!(matches!(Namespace::parse_from_slice(bad_uid.as_bytes()), Err(DeserializeError::JsonError(_))));
    let twice = "{\"apiVersion\":\"core/v1\",\"kind\":\"datadeclare\",\"metadata\":{\"name\":\"d\",\"namespace\":\"n\"},\"spec\":{\"dataType\":\"\",\"description\":\"\"},\"status\":{\"implementation\":{\"a\":\"1\",\"a\":\"2\"}}}";
    let parsed = DataDeclare::parse_from_slice(twice.as_bytes()).unwrap();
    assert_eq!(parsed.status().impls().len(), 1);
}

#[test]
fn dynamic_parse_faults() {
    assert!(matches!(DynamicObject::parse(b"nope"), Err(ChainModelError::JsonError(_))));
    assert!(matches!(DynamicObject::parse(b""), Err(ChainModelError::JsonError(_))));
    assert!(matches!(DynamicObject::parse(b"{\"kind\":\"namespace\"}"), Err(ChainModelError::InvalidObject(_))));
    assert!(matches!(
        DynamicObject::parse(b"{\"kind\":7,\"apiVersion\":\"core/v1\"}"),
        Err(ChainModelError::InvalidObject(_))
    ));
    assert!(matches!(
        DynamicObject::parse(b"{\"kind\":\"pod\",\"apiVersion\":\"core/v1\"}"),
        Err(ChainModelError::UnsupportedObject(_, _))
    ));
    assert!(matches!(
        DynamicObject::parse(b"{\"kind\":\"namespace\",\"apiVersion\":\"core/v1\"}"),
        Err(ChainModelError::DeserializeError(DeserializeError::JsonError(_)))
    ));
}

#[test]
fn registry() {
    assert_eq!(Kind::all().len(), 7);
    for kind in Kind::all() {
        let meta = kind.type_meta();
        assert_eq!(meta.api_version, "core/v1");
        assert!(Kind::lookup(&meta) == Some(kind));
        assert_eq!(namespaced(&meta), !matches!(kind, Kind::Namespace | Kind::GlobalProposal));
        assert_eq!(versioned(&meta), matches!(kind, Kind::Contract));
    }
    let unknown = TypeMeta::of("core/v1", "pod");
    assert!(Kind::lookup(&unknown).is_none());
    assert!(!namespaced(&unknown));
    assert!(Kind::lookup(&TypeMeta::of("core/v2", "record")).is_none());
    assert_eq!(TypeMeta::of("core/v1", "record").to_text(), "(core/v1, record)");
    assert!(TypeMeta::of("a", "b").same(&TypeMeta::of("a", "b").copy()));
    assert!(!TypeMeta::of("a", "b").same(&TypeMeta::of("a", "c")));
}

#[test]
fn reading_type_and_namespace_of_json() {
    let j = Json::parse(b"{\"apiVersion\":\"g/v\",\"kind\":\"k\",\"metadata\":{\"namespace\":\"n\"}}").unwrap();
    let meta = get_type_meta(&j).unwrap();
    assert_eq!(meta.api_version, "g/v");
    assert_eq!(meta.kind, "k");
    assert_eq!(get_namespace(&j).unwrap(), Some("n".to_string()));
    let j = Json::parse(b"{\"apiVersion\":\"g/v\",\"metadata\":{\"namespace\":5}}").unwrap();
    assert!(get_type_meta(&j).is_err());
    assert_eq!(get_namespace(&j).unwrap(), None);
    let j = Json::parse(b"[1]").unwrap();
    assert!(get_type_meta(&j).is_err());
    assert!(get_namespace(&j).is_err());
}

#[test]
fn json_trees() {
    let j = Json::parse(b" { \"a\" : [ 1 , 2.5 , \"x\" ] , \"b\" : { } , \"a\" : 3 } ").unwrap();
    assert_eq!(String::from_utf8(j.to_vec().unwrap()).unwrap(), "{\"a\":3,\"b\":{}}");
    assert_eq!(j.get("a").unwrap().as_u64(), Some(3));
    assert!(j.get("c").is_none());
    assert!(j.get("b").unwrap().as_str().is_none());
    let copy = j.copy();
    assert_eq!(copy.to_vec().unwrap(), j.to_vec().unwrap());
    assert!(Json::parse(b"{\"a\":").is_err());
    assert_eq!(Json::from_u64(u64::MAX).as_u64(), Some(u64::MAX));
    assert_eq!(String::from_utf8(Json::from_u64(12).to_vec().unwrap()).unwrap(), "12");
    assert_eq!(String::from_utf8(Json::from_text("a\"b").to_vec().unwrap()).unwrap(), "\"a\\\"b\"");
    let list = Json::from_texts(&vec!["x".to_string(), "y".to_string()]);
    assert_eq!(list.texts(), Some(vec!["x".to_string(), "y".to_string()]));
    assert_eq!(Json::parse(b"[\"x\",1]").unwrap().texts(), None);
    assert_eq!(Json::parse(b"-5").unwrap().as_u64(), None);
    assert_eq!(Json::parse(b"5.0").unwrap().as_u64(), None);
}

fn nested(depth: usize) -> Json {
    let mut j = Json::Null;
    for _ in 0..depth {
        j = Json::Array(vec![j]);
    }
    j
}

#[test]
fn documents_are_stored_only_as_deep_as_they_are_read() {
    let deepest = nested(127);
    assert!(deepest.fits(127));
    assert!(!deepest.fits(126));
    let text = deepest.write().unwrap();
    let back = Json::parse(&text).unwrap();
    assert_eq!(back.to_vec().unwrap(), text);
    let too_deep = nested(128);
    assert!(!too_deep.fits(127));
    assert!(too_deep.write().is_err());
    let unread = too_deep.to_vec().unwrap();
    assert!(Json::parse(&unread).is_err());
    assert!(Json::Null.fits(0));
    assert!(!Json::Object(vec![]).fits(0));
    assert!(Json::Object(vec![("a".to_string(), Json::Array(vec![]))]).fits(2));
    assert!(!Json::Object(vec![("a".to_string(), Json::Array(vec![]))]).fits(1));
}

#[test]
fn rereading_gives_the_same_object() {
    let source = "{\"apiVersion\":\"core/v1\",\"kind\":\"contract\",\"metadata\":{\"name\":\"c1\",\"namespace\":\"ns1\",\"version\":\"v2\",\"uid\":9,\"annotations\":null},\"spec\":{\"content\":\"do it\",\"data\":{\"d1\":3},\"functions\":{},\"execPatterns\":[[\"orgA\"]]},\"status\":{}}";
    let obj = DynamicObject::parse(source.as_bytes()).unwrap();
    let again = obj.reread().unwrap();
    assert_eq!(text(&again), source);
    assert_eq!(again.uid(), 9);
    let mut moved = again;
    moved.set_uid(10);
    assert_eq!(moved.reread().unwrap().uid(), 10);
}
