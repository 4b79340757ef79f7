use vstd::prelude::*;
use crate::context::{
    copy_bytes, delete_row, holds, lemma_put_row, load_rows, put_row, put_rows, rows_of, rows_wf, slot, value_at, Entry,
    Row,
};
use crate::model::same_bytes;

verus! {

/// A row under whose key and field `after` holds nothing.
pub open spec fn is_gone(after: Seq<Row>) -> spec_fn(Row) -> bool {
    |r: Row| !holds(after, r.key, r.field)
}

/// A row that `before` does not hold as it stands.
pub open spec fn is_new(before: Seq<Row>) -> spec_fn(Row) -> bool {
    |r: Row| !before.contains(r)
}

/// What a call has changed in a ledger: the rows that are gone, and the
/// rows that are new or hold another value than before.
#[derive(Debug)]
pub struct Changes {
    pub deleted: Vec<Entry>,
    pub put: Vec<Entry>,
}

/// Whether some row lies under the key and field of `e`.
fn has_slot(rows: &Vec<Entry>, e: &Entry) -> (r: bool)
    ensures
        r == holds(rows_of(rows@), e.key@, e.field@),
{
    let mut i: usize = 0;
    while i < rows.len()
        invariant
            i <= rows.len(),
            forall|j: int| 0 <= j < i ==> !((#[trigger] rows_of(rows@)[j]).key == e.key@ && rows_of(rows@)[j].field == e.field@),
        decreases rows.len() - i,
    {
        assert(rows_of(rows@)[i as int] == rows@[i as int]@);
        if rows[i].key == e.key && rows[i].field == e.field {
            return true;
        }
        i = i + 1;
    }
    false
}

/// Whether `e` is one of the rows, with its value.
fn has_row(rows: &Vec<Entry>, e: &Entry) -> (r: bool)
    ensures
        r == rows_of(rows@).contains(e@),
{
    let mut i: usize = 0;
    while i < rows.len()
        invariant
            i <= rows.len(),
            forall|j: int| 0 <= j < i ==> (#[trigger] rows_of(rows@)[j]) != e@,
        decreases rows.len() - i,
    {
        assert(rows_of(rows@)[i as int] == rows@[i as int]@);
        if rows[i].key == e.key && rows[i].field == e.field && same_bytes(&rows[i].value, &e.value) {
            assert(rows_of(rows@)[i as int] == e@);
            return true;
        }
        i = i + 1;
    }
    false
}

/// One more row is looked at by a filter.
proof fn lemma_filter_next(rows: Seq<Row>, i: int, pred: spec_fn(Row) -> bool)
    requires
        0 <= i < rows.len(),
    ensures
        rows.subrange(0, i + 1).filter(pred) == if pred(rows[i]) {
            rows.subrange(0, i).filter(pred).push(rows[i])
        } else {
            rows.subrange(0, i).filter(pred)
        },
{
    reveal(Seq::filter);
    let next = rows.subrange(0, i + 1);
    assert(next.drop_last() =~= rows.subrange(0, i));
    assert(next.last() == rows[i]);
}

/// What has changed from the rows `before` a call to the rows `after` it:
/// the rows of `before` under whose key and field `after` holds nothing,
/// and the rows of `after` that `before` does not hold as they stand, each
/// in the order of its ledger.
pub fn changes(before: &Vec<Entry>, after: &Vec<Entry>) -> (r: Changes)
    ensures
        rows_of(r.deleted@) == rows_of(before@).filter(is_gone(rows_of(after@))),
        rows_of(r.put@) == rows_of(after@).filter(is_new(rows_of(before@))),
{
    let ghost old_rows = rows_of(before@);
    let ghost new_rows = rows_of(after@);
    let mut deleted: Vec<Entry> = Vec::new();
    let mut i: usize = 0;
    proof {
        reveal(Seq::filter);
        assert(old_rows.subrange(0, 0) =~= Seq::<Row>::empty());
        assert(new_rows.subrange(0, 0) =~= Seq::<Row>::empty());
        assert(rows_of(deleted@) =~= Seq::<Row>::empty());
    }
    while i < before.len()
        invariant
            i <= before.len(),
            old_rows == rows_of(before@),
            new_rows == rows_of(after@),
            rows_of(deleted@) == old_rows.subrange(0, i as int).filter(is_gone(new_rows)),
        decreases before.len() - i,
    {
        let e = &before[i];
        proof {
            lemma_filter_next(old_rows, i as int, is_gone(new_rows));
            assert(old_rows[i as int] == e@);
        }
        if !has_slot(after, e) {
            let ghost so_far = rows_of(deleted@);
            deleted.push(Entry { key: e.key.clone(), field: e.field.clone(), value: copy_bytes(&e.value) });
            assert(rows_of(deleted@) =~= so_far.push(e@));
        }
        i = i + 1;
    }
    assert(old_rows.subrange(0, i as int) =~= old_rows);
    let mut put: Vec<Entry> = Vec::new();
    let mut k: usize = 0;
    assert(rows_of(put@) =~= Seq::<Row>::empty());
    while k < after.len()
        invariant
            k <= after.len(),
            old_rows == rows_of(before@),
            new_rows == rows_of(after@),
            rows_of(put@) == new_rows.subrange(0, k as int).filter(is_new(old_rows)),
        decreases after.len() - k,
    {
        let e = &after[k];
        proof {
            lemma_filter_next(new_rows, k as int, is_new(old_rows));
            assert(new_rows[k as int] == e@);
        }
        if !has_row(before, e) {
            let ghost so_far = rows_of(put@);
            put.push(Entry { key: e.key.clone(), field: e.field.clone(), value: copy_bytes(&e.value) });
            assert(rows_of(put@) =~= so_far.push(e@));
        }
        k = k + 1;
    }
    assert(new_rows.subrange(0, k as int) =~= new_rows);
    Changes { deleted, put }
}

/// Rows without a key and field twice, and without an empty value, are
/// put one by one to the end when a ledger is taken up.
pub proof fn lemma_load_saved(rows: Seq<Row>, n: nat)
    requires
        rows_wf(rows),
        n <= rows.len(),
    ensures
        load_rows(rows, n) == rows.subrange(0, n as int),
    decreases n,
{
    if n == 0 {
        assert(rows.subrange(0, 0) =~= Seq::<Row>::empty());
    } else {
        lemma_load_saved(rows, (n - 1) as nat);
        let prev = rows.subrange(0, n - 1);
        let r = rows[n - 1];
        if holds(prev, r.key, r.field) {
            let j = slot(prev, r.key, r.field);
            assert(prev[j] == rows[j]);
            assert(rows[j].key == rows[n - 1].key && rows[j].field == rows[n - 1].field);
        }
        assert(put_row(prev, r.key, r.field, r.value) =~= prev.push(r));
        assert(prev.push(r) =~= rows.subrange(0, n as int));
    }
}

/// The rows after whatever lies under the key and field of each of the first `n` of `gone` is taken away.
pub open spec fn dropped(rows: Seq<Row>, gone: Seq<Row>, n: nat) -> Seq<Row>
    decreases n,
{
    if n == 0 || n > gone.len() {
        rows
    } else {
        delete_row(dropped(rows, gone, (n - 1) as nat), gone[n - 1].key, gone[n - 1].field)
    }
}

/// The rows after some changes are made: what is gone is deleted, then what is new is put.
pub open spec fn applied(rows: Seq<Row>, deleted: Seq<Row>, put: Seq<Row>) -> Seq<Row> {
    put_rows(dropped(rows, deleted, deleted.len()), put, put.len())
}

/// Some row among the first `n` lies under the key and field.
pub open spec fn names_slot(rows: Seq<Row>, n: nat, key: Seq<char>, field: Seq<char>) -> bool {
    exists|i: int| 0 <= i < n && i < rows.len() && (#[trigger] rows[i]).key == key && rows[i].field == field
}

/// After the deletes a key and field hold nothing where a deleted row lay there, and else what they held.
proof fn lemma_dropped(rows: Seq<Row>, gone: Seq<Row>, n: nat, key: Seq<char>, field: Seq<char>)
    requires
        rows_wf(rows),
        n <= gone.len(),
    ensures
        rows_wf(dropped(rows, gone, n)),
        value_at(dropped(rows, gone, n), key, field) == if names_slot(gone, n, key, field) {
            Seq::<u8>::empty()
        } else {
            value_at(rows, key, field)
        },
    decreases n,
{
    if n > 0 {
        lemma_dropped(rows, gone, (n - 1) as nat, key, field);
        let before = dropped(rows, gone, (n - 1) as nat);
        let last = gone[n - 1];
        lemma_put_row(before, last.key, last.field, Seq::<u8>::empty());
        assert(dropped(rows, gone, n) == put_row(before, last.key, last.field, Seq::<u8>::empty()));
        if last.key == key && last.field == field {
            assert(names_slot(gone, n, key, field));
        } else if names_slot(gone, n, key, field) {
            let i = choose|i: int| 0 <= i < n && i < gone.len() && (#[trigger] gone[i]).key == key && gone[i].field == field;
            assert(i < n - 1);
            assert(names_slot(gone, (n - 1) as nat, key, field));
        } else {
            if names_slot(gone, (n - 1) as nat, key, field) {
                let i = choose|i: int|
                    0 <= i < n - 1 && i < gone.len() && (#[trigger] gone[i]).key == key && gone[i].field == field;
                assert(gone[i].key == key);
            }
        }
    }
}

/// After the puts a key and field hold the value of the row that was put
/// there, where rows without a key and field twice and without an empty
/// value are put, and else what they held.
proof fn lemma_put_all(base: Seq<Row>, put: Seq<Row>, n: nat, key: Seq<char>, field: Seq<char>)
    requires
        rows_wf(base),
        rows_wf(put),
        n <= put.len(),
    ensures
        rows_wf(put_rows(base, put, n)),
        value_at(put_rows(base, put, n), key, field) == if names_slot(put, n, key, field) {
            value_at(put, key, field)
        } else {
            value_at(base, key, field)
        },
    decreases n,
{
    if n > 0 {
        lemma_put_all(base, put, (n - 1) as nat, key, field);
        let before = put_rows(base, put, (n - 1) as nat);
        let last = put[n - 1];
        lemma_put_row(before, last.key, last.field, last.value);
        crate::context::lemma_unique_slot(put, n - 1);
        if last.key == key && last.field == field {
            assert(names_slot(put, n, key, field));
        } else if names_slot(put, n, key, field) {
            let i = choose|i: int| 0 <= i < n && i < put.len() && (#[trigger] put[i]).key == key && put[i].field == field;
            assert(i < n - 1);
            assert(names_slot(put, (n - 1) as nat, key, field));
        } else {
            if names_slot(put, (n - 1) as nat, key, field) {
                let i = choose|i: int|
                    0 <= i < n - 1 && i < put.len() && (#[trigger] put[i]).key == key && put[i].field == field;
                assert(put[i].key == key);
            }
        }
    }
}

/// What a filter keeps of rows without a key and field twice, and without
/// an empty value, is such rows again, each one of the rows.
proof fn lemma_filter_wf(rows: Seq<Row>, pred: spec_fn(Row) -> bool)
    requires
        rows_wf(rows),
    ensures
        rows_wf(rows.filter(pred)),
        forall|i: int| 0 <= i < rows.filter(pred).len() ==> rows.contains(#[trigger] rows.filter(pred)[i]) && pred(
            rows.filter(pred)[i],
        ),
    decreases rows.len(),
{
    reveal(Seq::filter);
    if rows.len() > 0 {
        let front = rows.drop_last();
        assert forall|i: int, j: int| 0 <= i < j < front.len() implies !((#[trigger] front[i]).key == (
        #[trigger] front[j]).key && front[i].field == front[j].field) by {
            assert(front[i] == rows[i] && front[j] == rows[j]);
        }
        assert forall|i: int| 0 <= i < front.len() implies (#[trigger] front[i]).value.len() > 0 by {
            assert(front[i] == rows[i]);
        }
        lemma_filter_wf(front, pred);
        let kept = front.filter(pred);
        let all = rows.filter(pred);
        assert forall|i: int| 0 <= i < kept.len() implies rows.contains(#[trigger] kept[i]) by {
            let at = choose|at: int| 0 <= at < front.len() && front[at] == kept[i];
            assert(rows[at] == kept[i]);
        }
        if pred(rows.last()) {
            assert(all == kept.push(rows.last()));
            assert(rows[rows.len() - 1] == rows.last());
            assert forall|i: int, j: int| 0 <= i < j < all.len() implies !((#[trigger] all[i]).key == (
            #[trigger] all[j]).key && all[i].field == all[j].field) by {
                if j == kept.len() {
                    let at = choose|at: int| 0 <= at < front.len() && front[at] == kept[i];
                    assert(rows[at] == all[i]);
                    assert(rows[rows.len() - 1] == all[j]);
                } else {
                    assert(all[i] == kept[i] && all[j] == kept[j]);
                }
            }
            assert forall|i: int| 0 <= i < all.len() implies rows.contains(#[trigger] all[i]) && pred(all[i])
                && all[i].value.len() > 0 by {
                if i < kept.len() {
                    assert(all[i] == kept[i]);
                    let at = choose|at: int| 0 <= at < rows.len() && rows[at] == kept[i];
                    assert(rows[at].value.len() > 0);
                }
            }
        } else {
            assert(all == kept);
            assert forall|i: int| 0 <= i < all.len() implies (#[trigger] all[i]).value.len() > 0 by {
                let at = choose|at: int| 0 <= at < rows.len() && rows[at] == all[i];
                assert(rows[at].value.len() > 0);
            }
        }
    }
}

/// The changes make of the ledger before a call the ledger after it: once
/// what is gone is deleted and what is new is put, every key and field
/// holds what it holds after the call.
pub proof fn lemma_changes_applied(before: Seq<Row>, after: Seq<Row>, key: Seq<char>, field: Seq<char>)
    requires
        rows_wf(before),
        rows_wf(after),
    ensures
        rows_wf(applied(before, before.filter(is_gone(after)), after.filter(is_new(before)))),
        value_at(applied(before, before.filter(is_gone(after)), after.filter(is_new(before))), key, field) == value_at(
            after,
            key,
            field,
        ),
{
    let gone = before.filter(is_gone(after));
    let new = after.filter(is_new(before));
    lemma_filter_wf(before, is_gone(after));
    lemma_filter_wf(after, is_new(before));
    lemma_dropped(before, gone, gone.len(), key, field);
    let base = dropped(before, gone, gone.len());
    lemma_put_all(base, new, new.len(), key, field);
    if names_slot(new, new.len(), key, field) {
        let i = choose|i: int| 0 <= i < new.len() && (#[trigger] new[i]).key == key && new[i].field == field;
        crate::context::lemma_unique_slot(new, i);
        assert(after.contains(new[i]));
        let at = choose|at: int| 0 <= at < after.len() && after[at] == new[i];
        crate::context::lemma_unique_slot(after, at);
    } else if names_slot(gone, gone.len(), key, field) {
        let i = choose|i: int| 0 <= i < gone.len() && (#[trigger] gone[i]).key == key && gone[i].field == field;
        assert(is_gone(after)(gone[i]));
        assert(!holds(after, key, field));
    } else if holds(after, key, field) {
        let at = slot(after, key, field);
        let r = after[at];
        crate::context::lemma_unique_slot(after, at);
        if !before.contains(r) {
            assert(is_new(before)(r));
            after.lemma_filter_contains(is_new(before), at);
            let i = choose|i: int| 0 <= i < new.len() && new[i] == r;
            assert(new[i].key == key && new[i].field == field);
            assert(false);
        }
        let b = choose|b: int| 0 <= b < before.len() && before[b] == r;
        crate::context::lemma_unique_slot(before, b);
    } else {
        if holds(before, key, field) {
            let b = slot(before, key, field);
            assert(is_gone(after)(before[b]));
            before.lemma_filter_contains(is_gone(after), b);
            let i = choose|i: int| 0 <= i < gone.len() && gone[i] == before[b];
            assert(gone[i].key == key && gone[i].field == field);
            assert(false);
        }
    }
}

/// A ledger that is taken up as it was left holds the rows that it held.
pub proof fn lemma_saved_ledger(rows: Seq<Row>)
    requires
        rows_wf(rows),
    ensures
        load_rows(rows, rows.len()) == rows,
{
    lemma_load_saved(rows, rows.len());
    assert(rows.subrange(0, rows.len() as int) =~= rows);
}

} // verus!
