use vstd::prelude::*;
use crate::codec::{
    lemma_table_key_injective, lemma_uid_bytes_distinct, lemma_uid_bytes_roundtrip, table_key_of, uid_bytes,
};
use crate::context::{delete_row, lemma_put_row, put_row, rows_wf, value_at, Row};
use crate::model::{inserted, removed, replaced, slot_field, slot_key, stored};
use crate::objects::dynamic::{text_parsed, StoreFault};
use crate::objects::parts::PartsView;

verus! {

/// A key of the index of objects by name.
pub open spec fn is_index_key(key: Seq<char>) -> bool {
    "i1c_"@.is_prefix_of(key)
}

/// The uid holds an object, and that object is indexed under the key and field.
pub open spec fn resolves(rows: Seq<Row>, uid: u64, key: Seq<char>, field: Seq<char>) -> bool {
    &&& stored(rows, uid).len() > 0
    &&& text_parsed(stored(rows, uid)) matches Ok(p) && slot_key(p) == key && slot_field(p) == field
}

/// Table and index agree: every uid that holds an object holds one that
/// reads as an object with that uid, and the index names the uid under the
/// object's name; every entry of the index names a uid that holds an
/// object indexed under that entry.
pub open spec fn consistent(rows: Seq<Row>) -> bool {
    &&& rows_wf(rows)
    &&& forall|uid: u64| (#[trigger] stored(rows, uid)).len() > 0 ==> (text_parsed(stored(rows, uid)) matches Ok(p)
        && p.uid == uid && value_at(rows, slot_key(p), slot_field(p)) == uid_bytes(uid))
    &&& forall|key: Seq<char>, field: Seq<char>|
        is_index_key(key) && (#[trigger] value_at(rows, key, field)).len() > 0 ==> exists|uid: u64|
            value_at(rows, key, field) == uid_bytes(uid) && #[trigger] resolves(rows, uid, key, field)
}

/// Keys of the table and keys of the index never meet.
pub proof fn lemma_key_kinds(p: PartsView, uid: u64)
    ensures
        is_index_key(slot_key(p)),
        !is_index_key(table_key_of(uid)),
        slot_key(p) != table_key_of(uid),
        forall|key: Seq<char>| is_index_key(key) ==> key != table_key_of(uid),
{
    reveal_strlit("t1c_");
    reveal_strlit("i1c_");
    let head = "i1c_"@;
    let key = slot_key(p);
    assert(head =~= key.subrange(0, 4));
    let tkey = table_key_of(uid);
    assert(tkey[0] == 't');
    assert(key[0] == 'i');
    if is_index_key(tkey) {
        assert(tkey.subrange(0, 4)[0] == head[0]);
    }
    assert forall|k: Seq<char>| is_index_key(k) implies k != tkey by {
        assert(k.subrange(0, 4)[0] == head[0]);
    }
}

/// In a consistent ledger a uid holds an object if and only if exactly one
/// entry of the index names it.
pub proof fn lemma_index_table_consistency(rows: Seq<Row>, uid: u64)
    requires
        consistent(rows),
    ensures
        stored(rows, uid).len() > 0 <==> exists|key: Seq<char>, field: Seq<char>|
            is_index_key(key) && #[trigger] value_at(rows, key, field) == uid_bytes(uid),
        forall|k1: Seq<char>, f1: Seq<char>, k2: Seq<char>, f2: Seq<char>|
            is_index_key(k1) && #[trigger] value_at(rows, k1, f1) == uid_bytes(uid) && is_index_key(k2)
                && #[trigger] value_at(rows, k2, f2) == uid_bytes(uid) ==> k1 == k2 && f1 == f2,
{
    lemma_uid_bytes_roundtrip(uid);
    if stored(rows, uid).len() > 0 {
        let p = text_parsed(stored(rows, uid))->Ok_0;
        lemma_key_kinds(p, uid);
        assert(is_index_key(slot_key(p)) && value_at(rows, slot_key(p), slot_field(p)) == uid_bytes(uid));
    }
    assert forall|key: Seq<char>, field: Seq<char>|
        is_index_key(key) && #[trigger] value_at(rows, key, field) == uid_bytes(uid) implies resolves(
        rows,
        uid,
        key,
        field,
    ) by {
        let other = choose|other: u64|
            value_at(rows, key, field) == uid_bytes(other) && #[trigger] resolves(rows, other, key, field);
        lemma_uid_bytes_distinct(uid, other);
    }
}

/// An empty table with an empty index is consistent, whatever else the ledger holds.
pub proof fn lemma_fresh_consistent(rows: Seq<Row>)
    requires
        rows_wf(rows),
        forall|i: int| 0 <= i < rows.len() ==> !is_index_key(#[trigger] rows[i].key) && !"t1c_"@.is_prefix_of(rows[i].key),
    ensures
        consistent(rows),
{
    reveal_strlit("t1c_");
    assert forall|uid: u64| (#[trigger] stored(rows, uid)).len() > 0 implies false by {
        let key = table_key_of(uid);
        let i = crate::context::slot(rows, key, Seq::empty());
        assert(rows[i].key == key);
        assert("t1c_"@ =~= key.subrange(0, 4));
    }
    assert forall|key: Seq<char>, field: Seq<char>|
        is_index_key(key) && (#[trigger] value_at(rows, key, field)).len() > 0 implies false by {
        let i = crate::context::slot(rows, key, field);
        assert(rows[i].key == key);
    }
}

/// Storing an object under a uid that holds none keeps the ledger
/// consistent, where the text reads as the object and no other object is
/// indexed under its name.
pub proof fn lemma_insert_consistent(rows: Seq<Row>, p: PartsView, text: Seq<u8>)
    requires
        consistent(rows),
        stored(rows, p.uid).len() == 0,
        text.len() > 0,
        text_parsed(text) == Ok::<PartsView, StoreFault>(p),
        value_at(rows, slot_key(p), slot_field(p)).len() == 0,
    ensures
        consistent(inserted(rows, p, text)),
{
    let tkey = table_key_of(p.uid);
    let none = Seq::<char>::empty();
    let r1 = put_row(rows, tkey, none, text);
    let r2 = put_row(r1, slot_key(p), slot_field(p), uid_bytes(p.uid));
    lemma_put_row(rows, tkey, none, text);
    lemma_put_row(r1, slot_key(p), slot_field(p), uid_bytes(p.uid));
    lemma_uid_bytes_roundtrip(p.uid);
    lemma_key_kinds(p, p.uid);
    assert forall|uid: u64| (#[trigger] stored(r2, uid)).len() > 0 implies (text_parsed(stored(r2, uid)) matches Ok(q)
        && q.uid == uid && value_at(r2, slot_key(q), slot_field(q)) == uid_bytes(uid)) by {
        lemma_key_kinds(p, uid);
        if uid == p.uid {
            assert(stored(r2, uid) == text);
        } else {
            if table_key_of(uid) == tkey {
                lemma_table_key_injective(uid, p.uid);
            }
            assert(stored(r2, uid) == stored(rows, uid));
            let q = text_parsed(stored(rows, uid))->Ok_0;
            lemma_key_kinds(q, p.uid);
            lemma_uid_bytes_roundtrip(uid);
            assert(value_at(r1, slot_key(q), slot_field(q)) == value_at(rows, slot_key(q), slot_field(q)));
            assert(value_at(r2, slot_key(q), slot_field(q)) == value_at(r1, slot_key(q), slot_field(q)));
        }
    }
    assert forall|key: Seq<char>, field: Seq<char>|
        is_index_key(key) && (#[trigger] value_at(r2, key, field)).len() > 0 implies exists|uid: u64|
        value_at(r2, key, field) == uid_bytes(uid) && #[trigger] resolves(r2, uid, key, field) by {
        lemma_key_kinds(p, p.uid);
        if key == slot_key(p) && field == slot_field(p) {
            assert(stored(r2, p.uid) == text);
            assert(resolves(r2, p.uid, key, field));
        } else {
            assert(value_at(r1, key, field) == value_at(rows, key, field));
            assert(value_at(r2, key, field) == value_at(r1, key, field));
            let uid = choose|uid: u64|
                value_at(rows, key, field) == uid_bytes(uid) && #[trigger] resolves(rows, uid, key, field);
            if table_key_of(uid) == tkey {
                lemma_table_key_injective(uid, p.uid);
            }
            lemma_key_kinds(p, uid);
            assert(stored(r2, uid) == stored(rows, uid));
            assert(resolves(r2, uid, key, field));
        }
    }
}

/// Putting an object in the place of the one under its uid keeps the ledger
/// consistent, where the text reads as the object and no other object is
/// indexed under its name.
pub proof fn lemma_replace_consistent(rows: Seq<Row>, old: PartsView, p: PartsView, text: Seq<u8>)
    requires
        consistent(rows),
        stored(rows, p.uid).len() > 0,
        text_parsed(stored(rows, p.uid)) == Ok::<PartsView, StoreFault>(old),
        text.len() > 0,
        text_parsed(text) == Ok::<PartsView, StoreFault>(p),
        value_at(rows, slot_key(p), slot_field(p)).len() == 0 || value_at(rows, slot_key(p), slot_field(p))
            == uid_bytes(p.uid),
    ensures
        consistent(replaced(rows, old, p, text)),
{
    let tkey = table_key_of(p.uid);
    let none = Seq::<char>::empty();
    let r1 = delete_row(rows, slot_key(old), slot_field(old));
    let r2 = put_row(r1, slot_key(p), slot_field(p), uid_bytes(p.uid));
    let r3 = put_row(r2, tkey, none, text);
    lemma_put_row(rows, slot_key(old), slot_field(old), Seq::<u8>::empty());
    lemma_put_row(r1, slot_key(p), slot_field(p), uid_bytes(p.uid));
    lemma_put_row(r2, tkey, none, text);
    lemma_uid_bytes_roundtrip(p.uid);
    lemma_key_kinds(p, p.uid);
    lemma_key_kinds(old, p.uid);
    // the entry under the new name, if any, is that of the old object
    if value_at(rows, slot_key(p), slot_field(p)).len() > 0 {
        lemma_index_table_consistency(rows, p.uid);
        assert(value_at(rows, slot_key(old), slot_field(old)) == uid_bytes(p.uid));
        assert(slot_key(p) == slot_key(old) && slot_field(p) == slot_field(old));
    }
    assert forall|uid: u64| (#[trigger] stored(r3, uid)).len() > 0 implies (text_parsed(stored(r3, uid)) matches Ok(q)
        && q.uid == uid && value_at(r3, slot_key(q), slot_field(q)) == uid_bytes(uid)) by {
        lemma_key_kinds(p, uid);
        lemma_key_kinds(old, uid);
        if uid == p.uid {
            assert(stored(r3, uid) == text);
            assert(value_at(r3, slot_key(p), slot_field(p)) == value_at(r2, slot_key(p), slot_field(p)));
        } else {
            if table_key_of(uid) == tkey {
                lemma_table_key_injective(uid, p.uid);
            }
            assert(stored(r1, uid) == stored(rows, uid));
            assert(stored(r2, uid) == stored(r1, uid));
            assert(stored(r3, uid) == stored(r2, uid));
            let q = text_parsed(stored(rows, uid))->Ok_0;
            lemma_key_kinds(q, p.uid);
            lemma_uid_bytes_roundtrip(uid);
            lemma_index_table_consistency(rows, uid);
            if slot_key(q) == slot_key(old) && slot_field(q) == slot_field(old) {
                lemma_uid_bytes_distinct(uid, p.uid);
            }
            if slot_key(q) == slot_key(p) && slot_field(q) == slot_field(p) {
                lemma_uid_bytes_distinct(uid, p.uid);
            }
            assert(value_at(r1, slot_key(q), slot_field(q)) == value_at(rows, slot_key(q), slot_field(q)));
            assert(value_at(r2, slot_key(q), slot_field(q)) == value_at(r1, slot_key(q), slot_field(q)));
            assert(value_at(r3, slot_key(q), slot_field(q)) == value_at(r2, slot_key(q), slot_field(q)));
        }
    }
    assert forall|key: Seq<char>, field: Seq<char>|
        is_index_key(key) && (#[trigger] value_at(r3, key, field)).len() > 0 implies exists|uid: u64|
        value_at(r3, key, field) == uid_bytes(uid) && #[trigger] resolves(r3, uid, key, field) by {
        assert(value_at(r3, key, field) == value_at(r2, key, field));
        if key == slot_key(p) && field == slot_field(p) {
            assert(stored(r3, p.uid) == text);
            assert(resolves(r3, p.uid, key, field));
        } else {
            assert(value_at(r2, key, field) == value_at(r1, key, field));
            assert(!(key == slot_key(old) && field == slot_field(old)));
            assert(value_at(r1, key, field) == value_at(rows, key, field));
            let uid = choose|uid: u64|
                value_at(rows, key, field) == uid_bytes(uid) && #[trigger] resolves(rows, uid, key, field);
            if uid == p.uid {
                assert(false);
            }
            if table_key_of(uid) == tkey {
                lemma_table_key_injective(uid, p.uid);
            }
            lemma_key_kinds(p, uid);
            lemma_key_kinds(old, uid);
            assert(stored(r1, uid) == stored(rows, uid));
            assert(stored(r2, uid) == stored(r1, uid));
            assert(stored(r3, uid) == stored(r2, uid));
            assert(resolves(r3, uid, key, field));
        }
    }
}

/// Deleting the object under a uid, with its index entry, keeps the ledger consistent.
pub proof fn lemma_remove_consistent(rows: Seq<Row>, old: PartsView, uid: u64)
    requires
        consistent(rows),
        stored(rows, uid).len() > 0,
        text_parsed(stored(rows, uid)) == Ok::<PartsView, StoreFault>(old),
    ensures
        consistent(removed(rows, old, uid)),
        stored(removed(rows, old, uid), uid).len() == 0,
        forall|other: u64| other != uid ==> #[trigger] stored(removed(rows, old, uid), other) == stored(rows, other),
{
    let tkey = table_key_of(uid);
    let none = Seq::<char>::empty();
    let r1 = delete_row(rows, tkey, none);
    let r2 = delete_row(r1, slot_key(old), slot_field(old));
    lemma_put_row(rows, tkey, none, Seq::<u8>::empty());
    lemma_put_row(r1, slot_key(old), slot_field(old), Seq::<u8>::empty());
    lemma_key_kinds(old, uid);
    assert forall|other: u64| other != uid implies #[trigger] stored(r2, other) == stored(rows, other) by {
        lemma_key_kinds(old, other);
        if table_key_of(other) == tkey {
            lemma_table_key_injective(other, uid);
        }
        assert(stored(r1, other) == stored(rows, other));
    }
    assert(stored(r2, uid) == stored(r1, uid));
    assert forall|other: u64| (#[trigger] stored(r2, other)).len() > 0 implies (text_parsed(stored(r2, other)) matches Ok(
        q,
    ) && q.uid == other && value_at(r2, slot_key(q), slot_field(q)) == uid_bytes(other)) by {
        assert(other != uid);
        assert(stored(r2, other) == stored(rows, other));
        let q = text_parsed(stored(rows, other))->Ok_0;
        lemma_key_kinds(q, uid);
        lemma_uid_bytes_roundtrip(other);
        if slot_key(q) == slot_key(old) && slot_field(q) == slot_field(old) {
            lemma_uid_bytes_distinct(other, uid);
        }
        assert(value_at(r1, slot_key(q), slot_field(q)) == value_at(rows, slot_key(q), slot_field(q)));
        assert(value_at(r2, slot_key(q), slot_field(q)) == value_at(r1, slot_key(q), slot_field(q)));
    }
    assert forall|key: Seq<char>, field: Seq<char>|
        is_index_key(key) && (#[trigger] value_at(r2, key, field)).len() > 0 implies exists|other: u64|
        value_at(r2, key, field) == uid_bytes(other) && #[trigger] resolves(r2, other, key, field) by {
        assert(!(key == slot_key(old) && field == slot_field(old)));
        assert(value_at(r2, key, field) == value_at(r1, key, field));
        assert(value_at(r1, key, field) == value_at(rows, key, field));
        let other = choose|other: u64|
            value_at(rows, key, field) == uid_bytes(other) && #[trigger] resolves(rows, other, key, field);
        assert(other != uid);
        assert(stored(r2, other) == stored(rows, other));
        assert(resolves(r2, other, key, field));
    }
}

/// No other object is indexed under the name of this one.
pub open spec fn slot_free(rows: Seq<Row>, p: PartsView) -> bool {
    value_at(rows, slot_key(p), slot_field(p)).len() == 0 || value_at(rows, slot_key(p), slot_field(p)) == uid_bytes(
        p.uid,
    )
}

/// Every uid that holds an object was given out by the counter.
pub open spec fn below_counter(rows: Seq<Row>, counter: u64) -> bool {
    forall|uid: u64| (#[trigger] stored(rows, uid)).len() > 0 ==> uid < counter
}

/// A successful put keeps the ledger consistent, where the text reads as the
/// object put and no other object is indexed under its name.
pub proof fn lemma_put_consistent(rows: Seq<Row>, kind: crate::objects::kinds::Kind, p: PartsView, text: Seq<u8>)
    requires
        consistent(rows),
        text_parsed(text) == Ok::<PartsView, StoreFault>(p),
        slot_free(rows, p),
        crate::model::put_result(rows, kind, p, Some(text)) is Ok,
    ensures
        consistent(crate::model::put_result(rows, kind, p, Some(text))->Ok_0),
        forall|counter: u64|
            below_counter(rows, counter) && p.uid < counter ==> below_counter(
                #[trigger] crate::model::put_result(rows, kind, p, Some(text))->Ok_0,
                counter,
            ),
        stored(crate::model::put_result(rows, kind, p, Some(text))->Ok_0, p.uid) == text,
        forall|other: u64|
            other != p.uid ==> #[trigger] stored(crate::model::put_result(rows, kind, p, Some(text))->Ok_0, other)
                == stored(rows, other),
{
    let after = crate::model::put_result(rows, kind, p, Some(text))->Ok_0;
    lemma_uid_bytes_roundtrip(p.uid);
    lemma_key_kinds(p, p.uid);
    let tkey = table_key_of(p.uid);
    let none = Seq::<char>::empty();
    if stored(rows, p.uid).len() == 0 {
        if value_at(rows, slot_key(p), slot_field(p)).len() > 0 {
            lemma_index_table_consistency(rows, p.uid);
        }
        lemma_insert_consistent(rows, p, text);
        let r1 = put_row(rows, tkey, none, text);
        lemma_put_row(rows, tkey, none, text);
        lemma_put_row(r1, slot_key(p), slot_field(p), uid_bytes(p.uid));
        assert forall|other: u64| other != p.uid implies #[trigger] stored(after, other) == stored(rows, other) by {
            lemma_key_kinds(p, other);
            if table_key_of(other) == tkey {
                lemma_table_key_injective(other, p.uid);
            }
            assert(stored(r1, other) == stored(rows, other));
        }
        assert(stored(after, p.uid) == stored(r1, p.uid));
    } else {
        let old = text_parsed(stored(rows, p.uid))->Ok_0;
        lemma_replace_consistent(rows, old, p, text);
        let r1 = delete_row(rows, slot_key(old), slot_field(old));
        let r2 = put_row(r1, slot_key(p), slot_field(p), uid_bytes(p.uid));
        lemma_put_row(rows, slot_key(old), slot_field(old), Seq::<u8>::empty());
        lemma_put_row(r1, slot_key(p), slot_field(p), uid_bytes(p.uid));
        lemma_put_row(r2, tkey, none, text);
        assert forall|other: u64| other != p.uid implies #[trigger] stored(after, other) == stored(rows, other) by {
            lemma_key_kinds(p, other);
            lemma_key_kinds(old, other);
            if table_key_of(other) == tkey {
                lemma_table_key_injective(other, p.uid);
            }
            assert(stored(r1, other) == stored(rows, other));
            assert(stored(r2, other) == stored(r1, other));
        }
    }
    assert forall|counter: u64| below_counter(rows, counter) && p.uid < counter implies below_counter(
        after,
        counter,
    ) by {
        assert forall|uid: u64| (#[trigger] stored(after, uid)).len() > 0 implies uid < counter by {
            if uid != p.uid {
                assert(stored(after, uid) == stored(rows, uid));
            }
        }
    }
}

/// In a consistent ledger two uids that hold objects hold objects with different uids.
pub proof fn lemma_live_uids_differ(rows: Seq<Row>, a: u64, b: u64)
    requires
        consistent(rows),
        stored(rows, a).len() > 0,
        stored(rows, b).len() > 0,
        a != b,
    ensures
        text_parsed(stored(rows, a))->Ok_0.uid != text_parsed(stored(rows, b))->Ok_0.uid,
{
}

/// The ledger of a contract that has just been initialized is consistent,
/// and no uid holds an object: it holds the uid counter and nothing else.
pub proof fn lemma_initial_store()
    ensures
        consistent(
            seq![
                Row { key: crate::context::counter_key(), field: Seq::<char>::empty(), value: uid_bytes(1) },
            ],
        ),
        forall|uid: u64|
            (#[trigger] stored(
                seq![
                    Row { key: crate::context::counter_key(), field: Seq::<char>::empty(), value: uid_bytes(1) },
                ],
                uid,
            )).len() == 0,
{
    let rows = seq![Row { key: crate::context::counter_key(), field: Seq::<char>::empty(), value: uid_bytes(1) }];
    lemma_uid_bytes_roundtrip(1);
    reveal_strlit("t0_nextuid");
    reveal_strlit("t1c_");
    reveal_strlit("i1c_");
    let key = crate::context::counter_key();
    assert(key[0] == 't' && key[1] == '0');
    if is_index_key(key) {
        assert(key.subrange(0, 4)[0] == "i1c_"@[0]);
    }
    if "t1c_"@.is_prefix_of(key) {
        assert(key.subrange(0, 4)[1] == "t1c_"@[1]);
    }
    lemma_fresh_consistent(rows);
    assert forall|uid: u64| (#[trigger] stored(rows, uid)).len() == 0 by {
        if stored(rows, uid).len() > 0 {
            let tkey = table_key_of(uid);
            let i = crate::context::slot(rows, tkey, Seq::empty());
            assert(rows[i].key == tkey);
            assert("t1c_"@ =~= tkey.subrange(0, 4));
            assert(tkey.subrange(0, 4)[1] == key[1]);
        }
    }
}


/// Writing the uid counter under its key touches neither table nor index:
/// a consistent ledger stays consistent, and every uid holds what it held.
pub proof fn lemma_counter_written(rows: Seq<Row>, counter: u64)
    requires
        consistent(rows),
    ensures
        consistent(put_row(rows, crate::context::counter_key(), Seq::empty(), uid_bytes(counter))),
        forall|uid: u64|
            #[trigger] stored(put_row(rows, crate::context::counter_key(), Seq::empty(), uid_bytes(counter)), uid)
                == stored(rows, uid),
{
    let key = crate::context::counter_key();
    let none = Seq::<char>::empty();
    let after = put_row(rows, key, none, uid_bytes(counter));
    lemma_put_row(rows, key, none, uid_bytes(counter));
    lemma_uid_bytes_roundtrip(counter);
    reveal_strlit("t0_nextuid");
    reveal_strlit("t1c_");
    reveal_strlit("i1c_");
    assert(key[0] == 't' && key[1] == '0');
    assert forall|k: Seq<char>| is_index_key(k) implies k != key by {
        assert(k.subrange(0, 4)[0] == "i1c_"@[0]);
    }
    assert forall|uid: u64| #[trigger] stored(after, uid) == stored(rows, uid) by {
        let tkey = table_key_of(uid);
        assert(tkey[1] == '1');
    }
    assert forall|uid: u64| (#[trigger] stored(after, uid)).len() > 0 implies (text_parsed(stored(after, uid)) matches Ok(
        p,
    ) && p.uid == uid && value_at(after, slot_key(p), slot_field(p)) == uid_bytes(uid)) by {
        assert(stored(after, uid) == stored(rows, uid));
        let p = text_parsed(stored(rows, uid))->Ok_0;
        lemma_key_kinds(p, uid);
        assert(value_at(after, slot_key(p), slot_field(p)) == value_at(rows, slot_key(p), slot_field(p)));
    }
    assert forall|k: Seq<char>, f: Seq<char>|
        is_index_key(k) && (#[trigger] value_at(after, k, f)).len() > 0 implies exists|uid: u64|
        value_at(after, k, f) == uid_bytes(uid) && #[trigger] resolves(after, uid, k, f) by {
        assert(value_at(after, k, f) == value_at(rows, k, f));
        let uid = choose|uid: u64| value_at(rows, k, f) == uid_bytes(uid) && #[trigger] resolves(rows, uid, k, f);
        assert(stored(after, uid) == stored(rows, uid));
        assert(resolves(after, uid, k, f));
    }
}

} // verus!
