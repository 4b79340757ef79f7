use contract::codec::{object_table_key, uid_from_be_bytes, uid_to_be_bytes};
use contract::model::ChainModel;
use contract::utils::validate::is_valid_rfc_1035;

#[test]
fn test_object_table_key() {
    let uid = 1;
    let key = ChainModel::object_table_key(uid);
    assert!(key == "t1c_00000000001")
}

#[test]
fn table_key_of_large_uids() {
    assert_eq!(object_table_key(0), "t1c_00000000000");
    assert_eq!(object_table_key(61), "t1c_0000000000z");
    assert_eq!(object_table_key(62), "t1c_00000000010");
    assert_eq!(object_table_key(1337), "t1c_000000000LZ");
    assert_eq!(object_table_key(u64::MAX), "t1c_LygHa16AHYF");
}

#[test]
fn uid_bytes_round_trip() {
    assert_eq!(uid_to_be_bytes(1), vec![0, 0, 0, 0, 0, 0, 0, 1]);
    assert_eq!(uid_to_be_bytes(0x0102030405060708), vec![1, 2, 3, 4, 5, 6, 7, 8]);
    assert_eq!(uid_from_be_bytes(&vec![1, 2, 3, 4, 5, 6, 7, 8]), Some(0x0102030405060708));
    assert_eq!(uid_from_be_bytes(&vec![1, 2, 3]), None);
    assert_eq!(uid_from_be_bytes(&uid_to_be_bytes(u64::MAX)), Some(u64::MAX));
}

#[test]
fn name_grammar() {
    assert!(is_valid_rfc_1035("abc-1"));
    assert!(!is_valid_rfc_1035("-abc"));
    assert!(!is_valid_rfc_1035("ABC"));
    assert!(!is_valid_rfc_1035(&"a".repeat(64)));
    assert!(is_valid_rfc_1035(&"a".repeat(63)));
    assert!(!is_valid_rfc_1035(""));
    assert!(!is_valid_rfc_1035("abc-"));
    assert!(!is_valid_rfc_1035("1abc"));
    assert!(is_valid_rfc_1035("a"));
}
