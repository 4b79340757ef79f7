use contract::codec::{convert_api_version, ns_index_prefix, object_index_key, type_prefix, uid_to_be_bytes};
use contract::context::{Context, Entry};
use contract::errors::ContextError;
use contract::text::{decimal, signed_decimal};

fn entry(key: &str, field: &str, value: &[u8]) -> Entry {
    Entry { key: key.to_string(), field: field.to_string(), value: value.to_vec() }
}

fn drain(cursor: &mut contract::context::ResultSetCursor) -> Vec<(String, String, Vec<u8>)> {
    let mut out = vec![];
    while let Some(item) = cursor.next_item().unwrap() {
        out.push(item);
    }
    out
}

#[test]
fn fresh_ledger_holds_the_counter() {
    let ctx = Context::fresh("org1".to_string(), vec![]);
    assert_eq!(ctx.next_uid(), 1);
    assert_eq!(ctx.get_state_from_key("t0_nextuid").unwrap(), uid_to_be_bytes(1));
    assert_eq!(ctx.sender_org_id(), "org1");
    assert_eq!(ctx.get_sender_org_id(), "org1");
    assert_eq!(ctx.entries().len(), 1);
}

#[test]
fn new_needs_an_initialized_ledger() {
    let missing = Context::new("org1".to_string(), vec![], vec![]);
    assert!(matches!(missing, Err(ContextError::GetStateFromKeyFailed(_))));
    let short = Context::new("org1".to_string(), vec![], vec![entry("t0_nextuid", "", &[0, 1])]);
    assert!(matches!(short, Err(ContextError::GetStateFromKeyFailed(_))));
    let rows = vec![
        entry("a", "x", b"1"),
        entry("t0_nextuid", "", &uid_to_be_bytes(42)),
        entry("a", "x", b"2"),
    ];
    let ctx = Context::new("org1".to_string(), vec![], rows).unwrap();
    assert_eq!(ctx.next_uid(), 42);
    assert_eq!(ctx.get_state("a", "x").unwrap(), b"2".to_vec());
    assert_eq!(ctx.entries().len(), 2);
}

#[test]
fn uids_grow_by_one() {
    let mut ctx = Context::fresh("org1".to_string(), vec![]);
    assert_eq!(ctx.new_uid(), 1);
    assert_eq!(ctx.new_uid(), 2);
    assert_eq!(ctx.new_uid(), 3);
    assert_eq!(ctx.next_uid(), 4);
    ctx.save_uid();
    assert_eq!(ctx.get_state_from_key("t0_nextuid").unwrap(), uid_to_be_bytes(4));
    ctx.reinit_uid();
    assert_eq!(ctx.next_uid(), 1);
}

#[test]
fn put_get_delete() {
    let mut ctx = Context::fresh("org1".to_string(), vec![]);
    assert_eq!(ctx.get_state("k", "f").unwrap(), Vec::<u8>::new());
    ctx.put_state("k", "f", b"v1").unwrap();
    ctx.put_state("k", "", b"v0").unwrap();
    assert_eq!(ctx.get_state("k", "f").unwrap(), b"v1".to_vec());
    assert_eq!(ctx.get_state_from_key("k").unwrap(), b"v0".to_vec());
    ctx.put_state("k", "f", b"v2").unwrap();
    assert_eq!(ctx.get_state("k", "f").unwrap(), b"v2".to_vec());
    assert_eq!(ctx.entries().len(), 3);
    ctx.delete_state("k", "f").unwrap();
    assert_eq!(ctx.get_state("k", "f").unwrap(), Vec::<u8>::new());
    assert_eq!(ctx.get_state_from_key("k").unwrap(), b"v0".to_vec());
    ctx.delete_state("k", "f").unwrap();
    ctx.put_state_from_key("k", b"").unwrap();
    assert_eq!(ctx.get_state_from_key("k").unwrap(), Vec::<u8>::new());
    assert_eq!(ctx.entries().len(), 1);
    ctx.put_state_from_key("j", b"x").unwrap();
    ctx.delete_state_from_key("j").unwrap();
    assert_eq!(ctx.entries().len(), 1);
}

#[test]
fn scans_keep_the_order_of_the_ledger() {
    let mut ctx = Context::fresh("org1".to_string(), vec![]);
    ctx.put_state("b1", "", b"1").unwrap();
    ctx.put_state("a1", "x", b"2").unwrap();
    ctx.put_state("b2", "y", b"3").unwrap();
    ctx.put_state("a1", "xy", b"4").unwrap();
    ctx.put_state("c", "", b"5").unwrap();

    let mut by_prefix = ctx.iter_prefix_key("b").unwrap();
    let found = drain(&mut by_prefix);
    assert_eq!(
        found,
        vec![("b1".to_string(), "".to_string(), b"1".to_vec()), ("b2".to_string(), "y".to_string(), b"3".to_vec())]
    );
    assert!(by_prefix.next_item().unwrap().is_none());

    let mut by_range = ctx.iter_range_key("a1", "b2").unwrap();
    let keys: Vec<String> = drain(&mut by_range).into_iter().map(|r| r.2).map(|v| String::from_utf8(v).unwrap()).collect();
    assert_eq!(keys, vec!["1", "2", "4"]);

    let mut by_field = ctx.iter_prefix_field("a1", "x").unwrap();
    assert_eq!(drain(&mut by_field).len(), 2);
    let mut by_field = ctx.iter_prefix_field("a1", "xy").unwrap();
    assert_eq!(drain(&mut by_field), vec![("a1".to_string(), "xy".to_string(), b"4".to_vec())]);

    let mut by_field_range = ctx.iter_range_field("a1", "x", "xy").unwrap();
    assert_eq!(drain(&mut by_field_range), vec![("a1".to_string(), "x".to_string(), b"2".to_vec())]);
    let mut none = ctx.iter_range_field("a1", "y", "z").unwrap();
    assert!(drain(&mut none).is_empty());
}

#[test]
fn arguments() {
    let args = vec![
        ("uid".to_string(), uid_to_be_bytes(7)),
        ("status".to_string(), vec![1]),
        ("off".to_string(), vec![0]),
        ("text".to_string(), "caf\u{e9}".as_bytes().to_vec()),
        ("uid".to_string(), uid_to_be_bytes(9)),
    ];
    let ctx = Context::fresh("org1".to_string(), args);
    assert_eq!(ctx.arg("text").unwrap(), "caf\u{e9}".as_bytes().to_vec());
    assert_eq!(ctx.arg_u64("uid").unwrap(), 7);
    assert!(ctx.arg_bool("status").unwrap());
    assert!(!ctx.arg_bool("off").unwrap());
    assert_eq!(ctx.arg_as_utf8_str("text"), "caf\u{e9}");
    assert_eq!(ctx.arg_as_utf8_str("nothing"), "");
    assert!(matches!(ctx.arg("nothing"), Err(ContextError::GetArgError { .. })));
    assert!(matches!(ctx.arg_u64("status"), Err(ContextError::GetArgError { .. })));
    assert!(matches!(ctx.arg_bool("uid"), Err(ContextError::GetArgError { .. })));
    assert!(matches!(ctx.arg_bool("nothing"), Err(ContextError::GetArgError { .. })));
}

#[test]
fn answers_and_log() {
    let mut ctx = Context::fresh("org1".to_string(), vec![]);
    ctx.log("one");
    ctx.ok(b"fine").unwrap();
    ctx.error("bad").unwrap();
    let copy = ctx.snapshot();
    assert_eq!(copy.entries().len(), 1);
    assert_eq!(copy.next_uid(), 1);
}

#[test]
fn index_keys() {
    assert_eq!(convert_api_version("core/v1"), "core_v1");
    assert_eq!(convert_api_version("a/b/c"), "a_b_c");
    assert_eq!(convert_api_version(""), "");
    assert_eq!(type_prefix("core/v1", "namespace"), "i1c_core_v1_namespace_");
    assert_eq!(ns_index_prefix("core/v1", "record", "ns1"), "i1c_core_v1_record_ns1_");
    assert_eq!(object_index_key("core/v1", "record", "ns1", "r1"), "i1c_core_v1_record_ns1_r1");
    assert_eq!(object_index_key("core/v1", "namespace", "", "testns"), "i1c_core_v1_namespace__testns");
}

#[test]
fn decimal_text() {
    assert_eq!(decimal(0), "0");
    assert_eq!(decimal(7), "7");
    assert_eq!(decimal(10), "10");
    assert_eq!(decimal(1234567890), "1234567890");
    assert_eq!(decimal(u64::MAX), "18446744073709551615");
    assert_eq!(signed_decimal(0), "0");
    assert_eq!(signed_decimal(-1), "-1");
    assert_eq!(signed_decimal(i32::MIN), "-2147483648");
    assert_eq!(signed_decimal(i32::MAX), "2147483647");
}
