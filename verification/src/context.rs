use vstd::prelude::*;
use vstd::string::*;
use crate::codec::{be_value, uid_bytes, uid_from_be_bytes, uid_to_be_bytes};
use crate::errors::{ContextError, ResultSetCursorError};
use crate::text::{
    copy_str, decimal, decimal_digits, has_prefix, precedes, same_text, text_before, text_of_bytes,
};

verus! {

/// One entry of the ledger: a value under a key and a field.
#[derive(Debug)]
pub struct Entry {
    pub key: String,
    pub field: String,
    pub value: Vec<u8>,
}

/// An entry of the ledger as plain mathematical values.
pub struct Row {
    pub key: Seq<char>,
    pub field: Seq<char>,
    pub value: Seq<u8>,
}

impl View for Entry {
    type V = Row;

    open spec fn view(&self) -> Row {
        Row { key: self.key@, field: self.field@, value: self.value@ }
    }
}

/// The arguments of a call as mathematical values.
pub open spec fn arguments_of(args: Seq<(String, Vec<u8>)>) -> Seq<(Seq<char>, Seq<u8>)> {
    Seq::new(args.len(), |i: int| (args[i].0@, args[i].1@))
}

/// The key under which the uid counter is kept between calls.
pub open spec fn counter_key() -> Seq<char> {
    "t0_nextuid"@
}

/// Some row lies under this key and field.
pub open spec fn holds(rows: Seq<Row>, key: Seq<char>, field: Seq<char>) -> bool {
    exists|i: int| 0 <= i < rows.len() && (#[trigger] rows[i]).key == key && rows[i].field == field
}

/// The place of a row under this key and field.
pub open spec fn slot(rows: Seq<Row>, key: Seq<char>, field: Seq<char>) -> int {
    choose|i: int| 0 <= i < rows.len() && (#[trigger] rows[i]).key == key && rows[i].field == field
}

/// The value under a key and field; no bytes where nothing lies there.
pub open spec fn value_at(rows: Seq<Row>, key: Seq<char>, field: Seq<char>) -> Seq<u8> {
    if holds(rows, key, field) {
        rows[slot(rows, key, field)].value
    } else {
        Seq::empty()
    }
}

/// No two rows share key and field, and no row holds an empty value:
/// to hold no bytes is to be absent.
pub open spec fn rows_wf(rows: Seq<Row>) -> bool {
    &&& forall|i: int, j: int|
        0 <= i < j < rows.len() ==> !((#[trigger] rows[i]).key == (#[trigger] rows[j]).key && rows[i].field
            == rows[j].field)
    &&& forall|i: int| 0 <= i < rows.len() ==> (#[trigger] rows[i]).value.len() > 0
}

/// The rows after whatever lies under the key and field is taken away.
pub open spec fn delete_row(rows: Seq<Row>, key: Seq<char>, field: Seq<char>) -> Seq<Row> {
    if holds(rows, key, field) {
        rows.remove(slot(rows, key, field))
    } else {
        rows
    }
}

/// The rows after a value is put under the key and field: an existing row
/// keeps its place, a new one goes to the end, and to put no bytes is to delete.
pub open spec fn put_row(rows: Seq<Row>, key: Seq<char>, field: Seq<char>, value: Seq<u8>) -> Seq<Row> {
    if value.len() == 0 {
        delete_row(rows, key, field)
    } else if holds(rows, key, field) {
        rows.update(slot(rows, key, field), Row { key, field, value })
    } else {
        rows.push(Row { key, field, value })
    }
}

/// A row whose key begins with `prefix`.
pub open spec fn key_has_prefix(prefix: Seq<char>) -> spec_fn(Row) -> bool {
    |r: Row| prefix.is_prefix_of(r.key)
}

/// A row whose key lies in the range from `start` up to, not including, `end`.
pub open spec fn key_in_range(start: Seq<char>, end: Seq<char>) -> spec_fn(Row) -> bool {
    |r: Row| !precedes(r.key, start) && precedes(r.key, end)
}

/// A row under `key` whose field begins with `prefix`.
pub open spec fn field_has_prefix(key: Seq<char>, prefix: Seq<char>) -> spec_fn(Row) -> bool {
    |r: Row| r.key == key && prefix.is_prefix_of(r.field)
}

/// A row under `key` whose field lies in the range from `start` up to, not including, `end`.
pub open spec fn field_in_range(key: Seq<char>, start: Seq<char>, end: Seq<char>) -> spec_fn(Row) -> bool {
    |r: Row| r.key == key && !precedes(r.field, start) && precedes(r.field, end)
}

/// A row whose key does not begin with `prefix`.
pub open spec fn key_lacks_prefix(prefix: Seq<char>) -> spec_fn(Row) -> bool {
    |r: Row| !prefix.is_prefix_of(r.key)
}

/// What putting a value does to every lookup.
pub proof fn lemma_put_row(rows: Seq<Row>, key: Seq<char>, field: Seq<char>, value: Seq<u8>)
    requires
        rows_wf(rows),
    ensures
        rows_wf(put_row(rows, key, field, value)),
        value_at(put_row(rows, key, field, value), key, field) == value,
        forall|k: Seq<char>, f: Seq<char>|
            !(k == key && f == field) ==> #[trigger] value_at(put_row(rows, key, field, value), k, f)
                == value_at(rows, k, f),
{
    let after = put_row(rows, key, field, value);
    if holds(rows, key, field) {
        let at = slot(rows, key, field);
        if value.len() == 0 {
            assert forall|i: int| 0 <= i < after.len() implies !((#[trigger] after[i]).key == key
                && after[i].field == field) by {
                if i < at {
                    assert(after[i] == rows[i]);
                } else {
                    assert(after[i] == rows[i + 1]);
                }
            }
            assert(value_at(after, key, field) =~= value);
            assert forall|k: Seq<char>, f: Seq<char>| !(k == key && f == field) implies #[trigger] value_at(
                after,
                k,
                f,
            ) == value_at(rows, k, f) by {
                lemma_remove_other(rows, at, k, f);
            }
        } else {
            assert(after[at].key == key && after[at].field == field);
            lemma_unique_slot(after, at);
            assert forall|k: Seq<char>, f: Seq<char>| !(k == key && f == field) implies #[trigger] value_at(
                after,
                k,
                f,
            ) == value_at(rows, k, f) by {
                lemma_update_other(rows, at, value, k, f);
            }
        }
    } else {
        if value.len() == 0 {
            assert(value_at(after, key, field) =~= value);
        } else {
            let at = rows.len() as int;
            assert(after[at].key == key && after[at].field == field);
            lemma_unique_slot(after, at);
            assert forall|k: Seq<char>, f: Seq<char>| !(k == key && f == field) implies #[trigger] value_at(
                after,
                k,
                f,
            ) == value_at(rows, k, f) by {
                lemma_push_other(rows, Row { key, field, value }, k, f);
            }
        }
    }
}

/// In well-formed rows the row at `i` is the one that a lookup of its key and field finds.
pub proof fn lemma_unique_slot(rows: Seq<Row>, i: int)
    requires
        rows_wf(rows),
        0 <= i < rows.len(),
    ensures
        holds(rows, rows[i].key, rows[i].field),
        slot(rows, rows[i].key, rows[i].field) == i,
        value_at(rows, rows[i].key, rows[i].field) == rows[i].value,
{
    let j = slot(rows, rows[i].key, rows[i].field);
    assert(0 <= j < rows.len() && rows[j].key == rows[i].key && rows[j].field == rows[i].field);
    if j < i {
        assert(false);
    }
    if i < j {
        assert(false);
    }
}

proof fn lemma_remove_other(rows: Seq<Row>, at: int, k: Seq<char>, f: Seq<char>)
    requires
        rows_wf(rows),
        0 <= at < rows.len(),
        !(k == rows[at].key && f == rows[at].field),
    ensures
        rows_wf(rows.remove(at)),
        holds(rows.remove(at), k, f) == holds(rows, k, f),
        value_at(rows.remove(at), k, f) == value_at(rows, k, f),
{
    let after = rows.remove(at);
    assert forall|i: int| 0 <= i < after.len() implies #[trigger] after[i] == rows[if i < at { i } else { i + 1 }] by {}
    if holds(rows, k, f) {
        let i = slot(rows, k, f);
        let j = if i < at { i } else { i - 1 };
        assert(after[j] == rows[i]);
        lemma_unique_slot(after, j);
        lemma_unique_slot(rows, i);
    } else if holds(after, k, f) {
        let j = slot(after, k, f);
        assert(rows[if j < at { j } else { j + 1 }] == after[j]);
    }
}

proof fn lemma_update_other(rows: Seq<Row>, at: int, value: Seq<u8>, k: Seq<char>, f: Seq<char>)
    requires
        rows_wf(rows),
        0 <= at < rows.len(),
        value.len() > 0,
        !(k == rows[at].key && f == rows[at].field),
    ensures
        holds(rows.update(at, Row { key: rows[at].key, field: rows[at].field, value }), k, f) == holds(rows, k, f),
        value_at(rows.update(at, Row { key: rows[at].key, field: rows[at].field, value }), k, f) == value_at(
            rows,
            k,
            f,
        ),
{
    let after = rows.update(at, Row { key: rows[at].key, field: rows[at].field, value });
    assert(rows_wf(after));
    if holds(rows, k, f) {
        let i = slot(rows, k, f);
        assert(after[i] == rows[i]);
        lemma_unique_slot(after, i);
        lemma_unique_slot(rows, i);
    } else if holds(after, k, f) {
        let j = slot(after, k, f);
        assert(rows[j] == after[j]);
    }
}

proof fn lemma_push_other(rows: Seq<Row>, row: Row, k: Seq<char>, f: Seq<char>)
    requires
        rows_wf(rows),
        !holds(rows, row.key, row.field),
        row.value.len() > 0,
        !(k == row.key && f == row.field),
    ensures
        rows_wf(rows.push(row)),
        holds(rows.push(row), k, f) == holds(rows, k, f),
        value_at(rows.push(row), k, f) == value_at(rows, k, f),
{
    let after = rows.push(row);
    assert forall|i: int, j: int| 0 <= i < j < after.len() implies !((#[trigger] after[i]).key == (
    #[trigger] after[j]).key && after[i].field == after[j].field) by {
        if j == rows.len() {
            assert(after[i] == rows[i]);
        }
    }
    if holds(rows, k, f) {
        let i = slot(rows, k, f);
        assert(after[i] == rows[i]);
        lemma_unique_slot(after, i);
        lemma_unique_slot(rows, i);
    } else if holds(after, k, f) {
        let j = slot(after, k, f);
        assert(rows[j] == after[j]);
    }
}


/// The rows that a vector of entries stands for.
pub open spec fn rows_of(entries: Seq<Entry>) -> Seq<Row> {
    Seq::new(entries.len(), |i: int| entries[i]@)
}

/// A copy of some bytes.
pub fn copy_bytes(bytes: &Vec<u8>) -> (r: Vec<u8>)
    ensures
        r@ == bytes@,
{
    let mut r: Vec<u8> = Vec::new();
    let mut i: usize = 0;
    while i < bytes.len()
        invariant
            i <= bytes.len(),
            r@ == bytes@.subrange(0, i as int),
        decreases bytes.len() - i,
    {
        r.push(bytes[i]);
        i = i + 1;
        assert(r@ =~= bytes@.subrange(0, i as int));
    }
    assert(bytes@.subrange(0, bytes.len() as int) =~= bytes@);
    r
}

/// The rows that a query of the ledger found, handed out one by one.
pub struct ResultSetCursor {
    items: Vec<Entry>,
    at: usize,
}

impl ResultSetCursor {
    /// The rows that are still to come.
    pub closed spec fn remaining(&self) -> Seq<Row> {
        if self.at <= self.items@.len() {
            rows_of(self.items@).subrange(self.at as int, self.items@.len() as int)
        } else {
            Seq::empty()
        }
    }

    /// Hands out the next row as key, field and value; `None` when all have been handed out.
    pub fn next_item(&mut self) -> (r: Result<Option<(String, String, Vec<u8>)>, ResultSetCursorError>)
        ensures
            r is Ok,
            old(self).remaining().len() == 0 ==> r == Ok::<Option<(String, String, Vec<u8>)>, ResultSetCursorError>(None)
                && final(self).remaining() == old(self).remaining(),
            old(self).remaining().len() > 0 ==> {
                &&& r matches Ok(Some(item))
                &&& item.0@ == old(self).remaining()[0].key
                &&& item.1@ == old(self).remaining()[0].field
                &&& item.2@ == old(self).remaining()[0].value
                &&& final(self).remaining() == old(self).remaining().drop_first()
            },
    {
        if self.at >= self.items.len() {
            Ok(None)
        } else {
            let entry = &self.items[self.at];
            let item = (entry.key.clone(), entry.field.clone(), copy_bytes(&entry.value));
            self.at = self.at + 1;
            assert(final(self).remaining() =~= old(self).remaining().drop_first());
            Ok(Some(item))
        }
    }
}

/// The ledger of one call to the contract, with the caller's identity, the
/// call's arguments, the uid counter, and what the call has logged and answered.
pub struct Context {
    entries: Vec<Entry>,
    next_id: u64,
    sender: String,
    args: Vec<(String, Vec<u8>)>,
    logs: Vec<String>,
    reply: Option<(bool, Vec<u8>)>,
}

impl Context {
    /// The rows of the ledger, in the ledger's order.
    pub closed spec fn rows(&self) -> Seq<Row> {
        rows_of(self.entries@)
    }

    /// The value under a key and field; no bytes where nothing lies there.
    pub open spec fn value(&self, key: Seq<char>, field: Seq<char>) -> Seq<u8> {
        value_at(self.rows(), key, field)
    }

    /// The uid that `new_uid` gives next.
    pub closed spec fn counter(&self) -> u64 {
        self.next_id
    }

    /// The organization that made the call.
    pub closed spec fn sender(&self) -> Seq<char> {
        self.sender@
    }

    /// The arguments of the call, as names and values.
    pub closed spec fn arguments(&self) -> Seq<(Seq<char>, Seq<u8>)> {
        arguments_of(self.args@)
    }

    /// The messages logged so far.
    pub closed spec fn logged(&self) -> Seq<Seq<char>> {
        Seq::new(self.logs@.len(), |i: int| self.logs@[i]@)
    }

    /// The answer given so far: whether it reports success, and its payload.
    pub closed spec fn answer(&self) -> Option<(bool, Seq<u8>)> {
        match self.reply {
            Some(r) => Some((r.0, r.1@)),
            None => None,
        }
    }

    /// The ledger is well-formed: see `rows_wf`.
    pub open spec fn wf(&self) -> bool {
        rows_wf(self.rows())
    }

    /// The ledger is well-formed, table and index of the object store agree,
    /// and every uid that holds an object was given out by the counter.
    pub open spec fn in_order(&self) -> bool {
        &&& self.wf()
        &&& crate::consistency::consistent(self.rows())
        &&& crate::consistency::below_counter(self.rows(), self.counter())
    }

    /// Everything but the ledger's rows is as in `other`.
    pub open spec fn same_call(&self, other: &Context) -> bool {
        &&& self.counter() == other.counter()
        &&& self.sender() == other.sender()
        &&& self.arguments() == other.arguments()
        &&& self.logged() == other.logged()
        &&& self.answer() == other.answer()
    }

    /// A fresh ledger, as the contract's initialization leaves it: the uid
    /// counter stands at 1 and is written under its key.
    pub fn fresh(sender: String, args: Vec<(String, Vec<u8>)>) -> (ctx: Context)
        ensures
            ctx.wf(),
            ctx.counter() == 1,
            ctx.sender() == sender@,
            ctx.arguments() == arguments_of(args@),
            ctx.rows() == seq![Row { key: counter_key(), field: Seq::<char>::empty(), value: uid_bytes(1) }],
            ctx.logged().len() == 0,
            ctx.answer() is None,
    {
        let mut entries: Vec<Entry> = Vec::new();
        let value = uid_to_be_bytes(1);
        proof {
            crate::codec::lemma_uid_bytes_roundtrip(1);
        }
        entries.push(Entry { key: String::from_str("t0_nextuid"), field: String::new(), value });
        let ctx = Context { entries, next_id: 1, sender, args, logs: Vec::new(), reply: None };
        assert(ctx.arguments() =~= arguments_of(args@));
        assert(ctx.rows() =~= seq![Row { key: counter_key(), field: Seq::<char>::empty(), value: uid_bytes(1) }]);
        assert(ctx.logged() =~= Seq::<Seq<char>>::empty());
        ctx
    }

    /// Takes up a ledger as it was left: the rows are put one by one, so a
    /// later row for the same key and field replaces an earlier one, and the
    /// uid counter is read from under its key. Where that holds no eight
    /// bytes, the ledger was never initialized and the call fails.
    pub fn new(sender: String, args: Vec<(String, Vec<u8>)>, rows: Vec<Entry>) -> (r: Result<Context, ContextError>)
        ensures
            r is Ok <==> value_at(load_rows(rows_of(rows@), rows@.len() as nat), counter_key(), Seq::<char>::empty()).len() == 8,
            r matches Ok(ctx) ==> {
                &&& ctx.wf()
                &&& ctx.rows() == load_rows(rows_of(rows@), rows@.len() as nat)
                &&& ctx.counter() as nat == be_value(ctx.value(counter_key(), Seq::<char>::empty()))
                &&& ctx.sender() == sender@
                &&& ctx.arguments() == arguments_of(args@)
                &&& ctx.logged().len() == 0
                &&& ctx.answer() is None
            },
            r matches Err(e) ==> e is GetStateFromKeyFailed,
    {
        let mut ctx = Context { entries: Vec::new(), next_id: 0, sender, args, logs: Vec::new(), reply: None };
        let mut i: usize = 0;
        assert(ctx.arguments() =~= arguments_of(args@));
        assert(ctx.rows() =~= Seq::<Row>::empty());
        assert(ctx.logged() =~= Seq::<Seq<char>>::empty());
        while i < rows.len()
            invariant
                i <= rows.len(),
                ctx.wf(),
                ctx.rows() == load_rows(rows_of(rows@), i as nat),
                ctx.sender() == sender@,
                ctx.arguments() == arguments_of(args@),
                ctx.logged().len() == 0,
                ctx.answer() is None,
            decreases rows.len() - i,
        {
            let entry = &rows[i];
            let _ = ctx.put_state(entry.key.as_str(), entry.field.as_str(), entry.value.as_slice());
            i = i + 1;
        }
        let stored = ctx.get_state_from_key("t0_nextuid");
        let bytes = match stored {
            Ok(b) => b,
            Err(e) => { return Err(e); },
        };
        match uid_from_be_bytes(&bytes) {
            Some(n) => {
                ctx.next_id = n;
                Ok(ctx)
            },
            None => Err(ContextError::GetStateFromKeyFailed(-1)),
        }
    }

    /// Takes up a ledger for the call that initializes the contract. Where
    /// the rows hold something under the key of the uid counter, the ledger
    /// is taken up as by `new`. Where they hold nothing there, the ledger
    /// was never initialized: the counter stands at 1 and is written under
    /// its key, and the rows are put after it, one by one.
    pub fn begin(sender: String, args: Vec<(String, Vec<u8>)>, rows: Vec<Entry>) -> (r: Result<Context, ContextError>)
        ensures
            holds(rows_of(rows@), counter_key(), Seq::<char>::empty()) ==> (r is Ok <==> value_at(
                load_rows(rows_of(rows@), rows@.len() as nat),
                counter_key(),
                Seq::<char>::empty(),
            ).len() == 8),
            holds(rows_of(rows@), counter_key(), Seq::<char>::empty()) ==> (r matches Ok(ctx) ==> ctx.rows()
                == load_rows(rows_of(rows@), rows@.len() as nat) && ctx.counter() as nat == be_value(
                ctx.value(counter_key(), Seq::<char>::empty()),
            )),
            !holds(rows_of(rows@), counter_key(), Seq::<char>::empty()) ==> (r matches Ok(ctx) && ctx.counter() == 1
                && ctx.rows() == put_rows(
                seq![Row { key: counter_key(), field: Seq::<char>::empty(), value: uid_bytes(1) }],
                rows_of(rows@),
                rows@.len() as nat,
            )),
            r matches Ok(ctx) ==> {
                &&& ctx.wf()
                &&& ctx.sender() == sender@
                &&& ctx.arguments() == arguments_of(args@)
                &&& ctx.logged().len() == 0
                &&& ctx.answer() is None
            },
            r matches Err(e) ==> e is GetStateFromKeyFailed,
    {
        let mut counted = false;
        let mut k: usize = 0;
        while k < rows.len()
            invariant
                k <= rows.len(),
                counted <==> exists|j: int|
                    0 <= j < k && (#[trigger] rows_of(rows@)[j]).key == counter_key() && rows_of(rows@)[j].field
                        == Seq::<char>::empty(),
            decreases rows.len() - k,
        {
            assert(rows_of(rows@)[k as int] == rows@[k as int]@);
            if same_text(rows[k].key.as_str(), "t0_nextuid") && rows[k].field.as_str().unicode_len() == 0 {
                assert(rows@[k as int].field@ =~= Seq::<char>::empty());
                counted = true;
            }
            k = k + 1;
        }
        if counted {
            return Context::new(sender, args, rows);
        }
        let ghost first = seq![Row { key: counter_key(), field: Seq::<char>::empty(), value: uid_bytes(1) }];
        let mut ctx = Context::fresh(sender, args);
        let mut i: usize = 0;
        while i < rows.len()
            invariant
                i <= rows.len(),
                ctx.wf(),
                ctx.counter() == 1,
                ctx.rows() == put_rows(first, rows_of(rows@), i as nat),
                ctx.sender() == sender@,
                ctx.arguments() == arguments_of(args@),
                ctx.logged().len() == 0,
                ctx.answer() is None,
            decreases rows.len() - i,
        {
            let entry = &rows[i];
            let _ = ctx.put_state(entry.key.as_str(), entry.field.as_str(), entry.value.as_slice());
            i = i + 1;
        }
        Ok(ctx)
    }

    /// Writes the uid counter under its key, as a call does when it ends.
    pub fn save_uid(&mut self)
        requires
            old(self).wf(),
        ensures
            final(self).wf(),
            final(self).rows() == put_row(old(self).rows(), counter_key(), Seq::<char>::empty(), uid_bytes(old(self).counter())),
            final(self).same_call(old(self)),
    {
        let value = uid_to_be_bytes(self.next_id);
        proof {
            crate::codec::lemma_uid_bytes_roundtrip(self.next_id);
        }
        let _ = self.put_state_from_key("t0_nextuid", value.as_slice());
    }

    /// A copy of the ledger's rows, in the ledger's order.
    pub fn entries(&self) -> (r: Vec<Entry>)
        ensures
            rows_of(r@) == self.rows(),
    {
        let mut r: Vec<Entry> = Vec::new();
        let mut i: usize = 0;
        while i < self.entries.len()
            invariant
                i <= self.entries.len(),
                r.len() == i,
                forall|j: int| 0 <= j < i ==> (#[trigger] r[j])@ == self.entries[j]@,
            decreases self.entries.len() - i,
        {
            let e = &self.entries[i];
            r.push(Entry { key: e.key.clone(), field: e.field.clone(), value: copy_bytes(&e.value) });
            i = i + 1;
        }
        assert(rows_of(r@) =~= self.rows());
        r
    }

    /// A copy of the ledger and of everything else that the call holds.
    pub fn snapshot(&self) -> (r: Context)
        ensures
            r.rows() == self.rows(),
            r.same_call(self),
    {
        let mut args: Vec<(String, Vec<u8>)> = Vec::new();
        let mut i: usize = 0;
        while i < self.args.len()
            invariant
                i <= self.args.len(),
                args.len() == i,
                forall|j: int| 0 <= j < i ==> (#[trigger] args[j]).0@ == self.args[j].0@ && args[j].1@ == self.args[j].1@,
            decreases self.args.len() - i,
        {
            args.push((self.args[i].0.clone(), copy_bytes(&self.args[i].1)));
            i = i + 1;
        }
        let mut logs: Vec<String> = Vec::new();
        let mut k: usize = 0;
        while k < self.logs.len()
            invariant
                k <= self.logs.len(),
                logs.len() == k,
                forall|j: int| 0 <= j < k ==> (#[trigger] logs[j])@ == self.logs[j]@,
            decreases self.logs.len() - k,
        {
            logs.push(self.logs[k].clone());
            k = k + 1;
        }
        let reply = match &self.reply {
            Some(r) => Some((r.0, copy_bytes(&r.1))),
            None => None,
        };
        let r = Context {
            entries: self.entries(),
            next_id: self.next_id,
            sender: self.sender.clone(),
            args,
            logs,
            reply,
        };
        assert(r.arguments() =~= self.arguments());
        assert(r.logged() =~= self.logged());
        r
    }

    /// The answer given so far: whether it reports success, and its payload.
    pub fn reply(&self) -> (r: Option<(bool, Vec<u8>)>)
        ensures
            match r {
                Some(a) => self.answer() == Some((a.0, a.1@)),
                None => self.answer() is None,
            },
    {
        match &self.reply {
            Some(r) => Some((r.0, copy_bytes(&r.1))),
            None => None,
        }
    }

    /// The messages logged so far.
    pub fn log_lines(&self) -> (r: Vec<String>)
        ensures
            r@.len() == self.logged().len(),
            forall|i: int| 0 <= i < r@.len() ==> (#[trigger] r@[i])@ == self.logged()[i],
    {
        let mut logs: Vec<String> = Vec::new();
        let mut k: usize = 0;
        while k < self.logs.len()
            invariant
                k <= self.logs.len(),
                logs.len() == k,
                forall|j: int| 0 <= j < k ==> (#[trigger] logs[j])@ == self.logs[j]@,
            decreases self.logs.len() - k,
        {
            logs.push(self.logs[k].clone());
            k = k + 1;
        }
        logs
    }

    /// Sets the uid counter back to 1.
    pub fn reinit_uid(&mut self)
        ensures
            final(self).counter() == 1,
            final(self).rows() == old(self).rows(),
            final(self).sender() == old(self).sender(),
            final(self).arguments() == old(self).arguments(),
            final(self).logged() == old(self).logged(),
            final(self).answer() == old(self).answer(),
    {
        self.next_id = 1;
    }

    /// Adds a message to the log.
    pub fn log(&mut self, msg: &str)
        ensures
            final(self).logged() == old(self).logged().push(msg@),
            final(self).rows() == old(self).rows(),
            final(self).counter() == old(self).counter(),
            final(self).sender() == old(self).sender(),
            final(self).arguments() == old(self).arguments(),
            final(self).answer() == old(self).answer(),
    {
        self.logs.push(copy_str(msg));
        assert(final(self).logged() =~= old(self).logged().push(msg@));
    }

    /// Answers the call with success and a payload.
    pub fn ok(&mut self, value: &[u8]) -> (r: Result<(), ContextError>)
        ensures
            r is Ok,
            final(self).answer() == Some((true, value@)),
            final(self).rows() == old(self).rows(),
            final(self).counter() == old(self).counter(),
            final(self).sender() == old(self).sender(),
            final(self).arguments() == old(self).arguments(),
            final(self).logged() == old(self).logged(),
    {
        self.reply = Some((true, vstd::slice::slice_to_vec(value)));
        Ok(())
    }

    /// Answers the call with failure and a message.
    pub fn error(&mut self, body: &str) -> (r: Result<(), ContextError>)
        ensures
            r is Ok,
            final(self).answer() == Some((false, body.spec_bytes())),
            final(self).rows() == old(self).rows(),
            final(self).counter() == old(self).counter(),
            final(self).sender() == old(self).sender(),
            final(self).arguments() == old(self).arguments(),
            final(self).logged() == old(self).logged(),
    {
        self.reply = Some((false, body.as_bytes_vec()));
        Ok(())
    }

    /// The organization that made the call.
    pub fn sender_org_id(&self) -> (r: String)
        ensures
            r@ == self.sender(),
    {
        self.sender.clone()
    }

    /// The organization that made the call.
    pub fn get_sender_org_id(&self) -> (r: String)
        ensures
            r@ == self.sender(),
    {
        self.sender.clone()
    }

    /// The uid that `new_uid` gives next.
    pub fn next_uid(&self) -> (r: u64)
        ensures
            r == self.counter(),
    {
        self.next_id
    }

    /// Gives out the next uid and advances the counter. The counter must not
    /// stand at the last `u64`.
    pub fn new_uid(&mut self) -> (r: u64)
        requires
            old(self).counter() < u64::MAX,
        ensures
            r == old(self).counter(),
            final(self).counter() == r + 1,
            final(self).rows() == old(self).rows(),
            final(self).sender() == old(self).sender(),
            final(self).arguments() == old(self).arguments(),
            final(self).logged() == old(self).logged(),
            final(self).answer() == old(self).answer(),
    {
        let r = self.next_id;
        self.next_id = self.next_id + 1;
        r
    }
}

/// The rows after the first `n` of `rows` have been put, one by one, into a ledger that holds `base`.
pub open spec fn put_rows(base: Seq<Row>, rows: Seq<Row>, n: nat) -> Seq<Row>
    decreases n,
{
    if n == 0 || n > rows.len() {
        base
    } else {
        put_row(put_rows(base, rows, (n - 1) as nat), rows[n - 1].key, rows[n - 1].field, rows[n - 1].value)
    }
}

/// The rows after the first `n` of `rows` have been put, one by one, into an empty ledger.
pub open spec fn load_rows(rows: Seq<Row>, n: nat) -> Seq<Row>
    decreases n,
{
    if n == 0 || n > rows.len() {
        Seq::empty()
    } else {
        put_row(load_rows(rows, (n - 1) as nat), rows[n - 1].key, rows[n - 1].field, rows[n - 1].value)
    }
}


impl Context {
    /// The place of the row under a key and field, if there is one.
    fn find(&self, key: &str, field: &str) -> (r: Option<usize>)
        requires
            self.wf(),
        ensures
            r is Some <==> holds(self.rows(), key@, field@),
            r matches Some(i) ==> i == slot(self.rows(), key@, field@) && i < self.entries@.len(),
    {
        let k = copy_str(key);
        let f = copy_str(field);
        let mut i: usize = 0;
        while i < self.entries.len()
            invariant
                i <= self.entries.len(),
                self.wf(),
                k@ == key@,
                f@ == field@,
                forall|j: int| 0 <= j < i ==> !((#[trigger] self.rows()[j]).key == key@ && self.rows()[j].field == field@),
            decreases self.entries.len() - i,
        {
            if self.entries[i].key == k && self.entries[i].field == f {
                proof {
                    assert(self.rows()[i as int] == self.entries[i as int]@);
                    lemma_unique_slot(self.rows(), i as int);
                }
                return Some(i);
            }
            assert(self.rows()[i as int] == self.entries[i as int]@);
            i = i + 1;
        }
        None
    }

    /// The value under a key and field; no bytes where nothing lies there.
    pub fn get_state(&self, key: &str, field: &str) -> (r: Result<Vec<u8>, ContextError>)
        requires
            self.wf(),
        ensures
            r matches Ok(v) && v@ == self.value(key@, field@),
    {
        match self.find(key, field) {
            Some(i) => {
                assert(self.rows()[i as int] == self.entries[i as int]@);
                Ok(copy_bytes(&self.entries[i].value))
            },
            None => Ok(Vec::new()),
        }
    }

    /// The value under a key and the empty field.
    pub fn get_state_from_key(&self, key: &str) -> (r: Result<Vec<u8>, ContextError>)
        requires
            self.wf(),
        ensures
            r matches Ok(v) && v@ == self.value(key@, Seq::<char>::empty()),
    {
        proof {
            reveal_strlit("");
            assert(""@ =~= Seq::<char>::empty());
        }
        self.get_state(key, "")
    }

    /// Puts a value under a key and field. To put no bytes is to delete.
    pub fn put_state(&mut self, key: &str, field: &str, value: &[u8]) -> (r: Result<(), ContextError>)
        requires
            old(self).wf(),
        ensures
            r is Ok,
            final(self).wf(),
            final(self).rows() == put_row(old(self).rows(), key@, field@, value@),
            final(self).same_call(old(self)),
    {
        proof {
            lemma_put_row(self.rows(), key@, field@, value@);
        }
        if value.len() == 0 {
            return self.delete_state(key, field);
        }
        match self.find(key, field) {
            Some(i) => {
                assert(self.rows()[i as int] == self.entries[i as int]@);
                let entry = Entry { key: copy_str(key), field: copy_str(field), value: vstd::slice::slice_to_vec(value) };
                self.entries[i] = entry;
                assert(final(self).rows() =~= put_row(old(self).rows(), key@, field@, value@));
            },
            None => {
                let entry = Entry { key: copy_str(key), field: copy_str(field), value: vstd::slice::slice_to_vec(value) };
                self.entries.push(entry);
                assert(final(self).rows() =~= put_row(old(self).rows(), key@, field@, value@));
            },
        }
        Ok(())
    }

    /// Puts a value under a key and the empty field.
    pub fn put_state_from_key(&mut self, key: &str, value: &[u8]) -> (r: Result<(), ContextError>)
        requires
            old(self).wf(),
        ensures
            r is Ok,
            final(self).wf(),
            final(self).rows() == put_row(old(self).rows(), key@, Seq::<char>::empty(), value@),
            final(self).same_call(old(self)),
    {
        proof {
            reveal_strlit("");
            assert(""@ =~= Seq::<char>::empty());
        }
        self.put_state(key, "", value)
    }

    /// Takes away what lies under a key and field.
    pub fn delete_state(&mut self, key: &str, field: &str) -> (r: Result<(), ContextError>)
        requires
            old(self).wf(),
        ensures
            r is Ok,
            final(self).wf(),
            final(self).rows() == delete_row(old(self).rows(), key@, field@),
            final(self).same_call(old(self)),
    {
        proof {
            lemma_put_row(self.rows(), key@, field@, Seq::<u8>::empty());
        }
        match self.find(key, field) {
            Some(i) => {
                let _ = self.entries.remove(i);
                assert(final(self).rows() =~= delete_row(old(self).rows(), key@, field@));
            },
            None => {},
        }
        Ok(())
    }

    /// Takes away what lies under a key and the empty field.
    pub fn delete_state_from_key(&mut self, key: &str) -> (r: Result<(), ContextError>)
        requires
            old(self).wf(),
        ensures
            r is Ok,
            final(self).wf(),
            final(self).rows() == delete_row(old(self).rows(), key@, Seq::<char>::empty()),
            final(self).same_call(old(self)),
    {
        proof {
            reveal_strlit("");
            assert(""@ =~= Seq::<char>::empty());
        }
        self.delete_state(key, "")
    }

    /// The rows whose key lies from `start_key` up to, not including, `end_key`, in the ledger's order.
    pub fn iter_range_key(&self, start_key: &str, end_key: &str) -> (r: Result<ResultSetCursor, ContextError>)
        ensures
            r matches Ok(cursor) && cursor.remaining() == self.rows().filter(key_in_range(start_key@, end_key@)),
    {
        let mut items: Vec<Entry> = Vec::new();
        let mut i: usize = 0;
        let ghost pred = key_in_range(start_key@, end_key@);
        proof {
            reveal(Seq::filter);
            assert(self.rows().subrange(0, 0) =~= Seq::<Row>::empty());
        }
        while i < self.entries.len()
            invariant
                i <= self.entries.len(),
                pred == key_in_range(start_key@, end_key@),
                rows_of(items@) == self.rows().subrange(0, i as int).filter(pred),
            decreases self.entries.len() - i,
        {
            let e = &self.entries[i];
            proof {
                self.lemma_filter_step(i as int, pred);
            }
            if !text_before(e.key.as_str(), start_key) && text_before(e.key.as_str(), end_key) {
                items.push(Entry { key: e.key.clone(), field: e.field.clone(), value: copy_bytes(&e.value) });
                assert(rows_of(items@) =~= self.rows().subrange(0, i as int).filter(pred).push(e@));
            }
            i = i + 1;
        }
        assert(self.rows().subrange(0, i as int) =~= self.rows());
        let cursor = ResultSetCursor { items, at: 0 };
        assert(cursor.remaining() =~= rows_of(items@));
        Ok(cursor)
    }

    /// The rows whose key begins with `key_prefix`, in the ledger's order.
    pub fn iter_prefix_key(&self, key_prefix: &str) -> (r: Result<ResultSetCursor, ContextError>)
        ensures
            r matches Ok(cursor) && cursor.remaining() == self.rows().filter(key_has_prefix(key_prefix@)),
    {
        let mut items: Vec<Entry> = Vec::new();
        let mut i: usize = 0;
        let ghost pred = key_has_prefix(key_prefix@);
        proof {
            reveal(Seq::filter);
            assert(self.rows().subrange(0, 0) =~= Seq::<Row>::empty());
        }
        while i < self.entries.len()
            invariant
                i <= self.entries.len(),
                pred == key_has_prefix(key_prefix@),
                rows_of(items@) == self.rows().subrange(0, i as int).filter(pred),
            decreases self.entries.len() - i,
        {
            let e = &self.entries[i];
            proof {
                self.lemma_filter_step(i as int, pred);
            }
            if has_prefix(e.key.as_str(), key_prefix) {
                items.push(Entry { key: e.key.clone(), field: e.field.clone(), value: copy_bytes(&e.value) });
                assert(rows_of(items@) =~= self.rows().subrange(0, i as int).filter(pred).push(e@));
            }
            i = i + 1;
        }
        assert(self.rows().subrange(0, i as int) =~= self.rows());
        let cursor = ResultSetCursor { items, at: 0 };
        assert(cursor.remaining() =~= rows_of(items@));
        Ok(cursor)
    }

    /// The rows under `key` whose field lies from `start_field` up to, not including, `end_field`.
    pub fn iter_range_field(&self, key: &str, start_field: &str, end_field: &str) -> (r: Result<
        ResultSetCursor,
        ContextError,
    >)
        ensures
            r matches Ok(cursor) && cursor.remaining() == self.rows().filter(
                field_in_range(key@, start_field@, end_field@),
            ),
    {
        let mut items: Vec<Entry> = Vec::new();
        let mut i: usize = 0;
        let k = copy_str(key);
        let ghost pred = field_in_range(key@, start_field@, end_field@);
        proof {
            reveal(Seq::filter);
            assert(self.rows().subrange(0, 0) =~= Seq::<Row>::empty());
        }
        while i < self.entries.len()
            invariant
                i <= self.entries.len(),
                k@ == key@,
                pred == field_in_range(key@, start_field@, end_field@),
                rows_of(items@) == self.rows().subrange(0, i as int).filter(pred),
            decreases self.entries.len() - i,
        {
            let e = &self.entries[i];
            proof {
                self.lemma_filter_step(i as int, pred);
            }
            if e.key == k && !text_before(e.field.as_str(), start_field) && text_before(e.field.as_str(), end_field) {
                items.push(Entry { key: e.key.clone(), field: e.field.clone(), value: copy_bytes(&e.value) });
                assert(rows_of(items@) =~= self.rows().subrange(0, i as int).filter(pred).push(e@));
            }
            i = i + 1;
        }
        assert(self.rows().subrange(0, i as int) =~= self.rows());
        let cursor = ResultSetCursor { items, at: 0 };
        assert(cursor.remaining() =~= rows_of(items@));
        Ok(cursor)
    }

    /// The rows under `key` whose field begins with `field_prefix`.
    pub fn iter_prefix_field(&self, key: &str, field_prefix: &str) -> (r: Result<ResultSetCursor, ContextError>)
        ensures
            r matches Ok(cursor) && cursor.remaining() == self.rows().filter(field_has_prefix(key@, field_prefix@)),
    {
        let mut items: Vec<Entry> = Vec::new();
        let mut i: usize = 0;
        let k = copy_str(key);
        let ghost pred = field_has_prefix(key@, field_prefix@);
        proof {
            reveal(Seq::filter);
            assert(self.rows().subrange(0, 0) =~= Seq::<Row>::empty());
        }
        while i < self.entries.len()
            invariant
                i <= self.entries.len(),
                k@ == key@,
                pred == field_has_prefix(key@, field_prefix@),
                rows_of(items@) == self.rows().subrange(0, i as int).filter(pred),
            decreases self.entries.len() - i,
        {
            let e = &self.entries[i];
            proof {
                self.lemma_filter_step(i as int, pred);
            }
            if e.key == k && has_prefix(e.field.as_str(), field_prefix) {
                items.push(Entry { key: e.key.clone(), field: e.field.clone(), value: copy_bytes(&e.value) });
                assert(rows_of(items@) =~= self.rows().subrange(0, i as int).filter(pred).push(e@));
            }
            i = i + 1;
        }
        assert(self.rows().subrange(0, i as int) =~= self.rows());
        let cursor = ResultSetCursor { items, at: 0 };
        assert(cursor.remaining() =~= rows_of(items@));
        Ok(cursor)
    }

    proof fn lemma_filter_step(&self, i: int, pred: spec_fn(Row) -> bool)
        requires
            0 <= i < self.rows().len(),
        ensures
            self.rows()[i] == self.entries@[i]@,
            self.rows().subrange(0, i + 1).filter(pred) == if pred(self.rows()[i]) {
                self.rows().subrange(0, i).filter(pred).push(self.rows()[i])
            } else {
                self.rows().subrange(0, i).filter(pred)
            },
    {
        reveal(Seq::filter);
        let next = self.rows().subrange(0, i + 1);
        assert(next.drop_last() =~= self.rows().subrange(0, i));
        assert(next.last() == self.rows()[i]);
    }

    /// The place of the first argument of a name, if there is one.
    pub open spec fn argument_at(args: Seq<(Seq<char>, Seq<u8>)>, key: Seq<char>) -> Option<int> {
        if exists|i: int| 0 <= i < args.len() && (#[trigger] args[i]).0 == key {
            Some(choose|i: int| 0 <= i < args.len() && (#[trigger] args[i]).0 == key && forall|j: int| 0 <= j < i ==> (#[trigger] args[j]).0 != key)
        } else {
            None
        }
    }

    /// The value of the first argument of that name; `None` where the call has none.
    pub open spec fn argument(&self, key: Seq<char>) -> Option<Seq<u8>> {
        match Self::argument_at(self.arguments(), key) {
            Some(i) => Some(self.arguments()[i].1),
            None => None,
        }
    }

    /// An argument of the call.
    pub fn arg(&self, key: &str) -> (r: Result<Vec<u8>, ContextError>)
        ensures
            match r {
                Ok(v) => self.argument(key@) == Some(v@),
                Err(e) => self.argument(key@) is None && e is GetArgError && e->key@ == key@ && e->msg@
                    == "no such argument"@,
            },
    {
        let k = copy_str(key);
        let mut i: usize = 0;
        while i < self.args.len()
            invariant
                i <= self.args.len(),
                k@ == key@,
                forall|j: int| 0 <= j < i ==> (#[trigger] self.arguments()[j]).0 != key@,
            decreases self.args.len() - i,
        {
            if self.args[i].0 == k {
                proof {
                    let args = self.arguments();
                    assert(args[i as int].0 == key@);
                    let at = choose|a: int|
                        0 <= a < args.len() && (#[trigger] args[a]).0 == key@ && forall|j: int|
                            0 <= j < a ==> (#[trigger] args[j]).0 != key@;
                    assert(at == i) by {
                        if at < i {
                            assert(args[at].0 != key@);
                        }
                        if i < at {
                            assert(args[i as int].0 != key@);
                        }
                    }
                }
                return Ok(copy_bytes(&self.args[i].1));
            }
            i = i + 1;
        }
        Err(ContextError::GetArgError { key: k, msg: String::from_str("no such argument") })
    }

    /// An argument of the call as text; the empty text where the call has no such argument.
    pub open spec fn argument_text(&self, key: Seq<char>) -> Seq<char> {
        match self.argument(key) {
            Some(v) => crate::text::lossy_text(v),
            None => Seq::empty(),
        }
    }

    /// An argument of the call, read as text; the empty text where the call
    /// has no such argument. Bytes that are valid UTF-8 give the text they encode.
    pub fn arg_as_utf8_str(&self, key: &str) -> (r: String)
        ensures
            r@ == self.argument_text(key@),
            self.argument(key@) is Some && vstd::utf8::valid_utf8(self.argument(key@)->0) ==> r@
                == vstd::utf8::decode_utf8(self.argument(key@)->0),
    {
        match self.arg(key) {
            Ok(v) => text_of_bytes(v.as_slice()),
            Err(_) => String::new(),
        }
    }

    /// An argument of the call that is one byte, read as a truth value.
    pub fn arg_bool(&self, key: &str) -> (r: Result<bool, ContextError>)
        ensures
            match r {
                Ok(b) => self.argument(key@) matches Some(v) && v.len() == 1 && b == (v[0] != 0),
                Err(e) => e is GetArgError && e->key@ == key@ && match self.argument(key@) {
                    Some(v) => v.len() != 1 && e->msg@ == "bool need 1 byte, but get "@ + decimal_digits(v.len()),
                    None => e->msg@ == "no such argument"@,
                },
            },
    {
        let out = match self.arg(key) {
            Ok(v) => v,
            Err(e) => { return Err(e); },
        };
        if out.len() != 1 {
            let mut msg = String::from_str("bool need 1 byte, but get ");
            let found = decimal(out.len() as u64);
            msg.append(found.as_str());
            Err(ContextError::GetArgError { key: copy_str(key), msg })
        } else {
            Ok(out[0] != 0)
        }
    }

    /// An argument of the call that is eight bytes, read as a `u64`, most significant byte first.
    pub fn arg_u64(&self, key: &str) -> (r: Result<u64, ContextError>)
        ensures
            match r {
                Ok(n) => self.argument(key@) matches Some(v) && v.len() == 8 && n as nat == be_value(v),
                Err(e) => e is GetArgError && e->key@ == key@ && match self.argument(key@) {
                    Some(v) => v.len() != 8 && e->msg@ == "u64 need 8 bytes, but get "@ + decimal_digits(v.len()),
                    None => e->msg@ == "no such argument"@,
                },
            },
    {
        let out = match self.arg(key) {
            Ok(v) => v,
            Err(e) => { return Err(e); },
        };
        match uid_from_be_bytes(&out) {
            Some(n) => Ok(n),
            None => {
                let mut msg = String::from_str("u64 need 8 bytes, but get ");
                let found = decimal(out.len() as u64);
                msg.append(found.as_str());
                Err(ContextError::GetArgError { key: copy_str(key), msg })
            },
        }
    }
}


impl Context {
    /// Takes away every row whose key begins with `key_prefix`; the other rows keep their order.
    pub fn delete_prefix(&mut self, key_prefix: &str)
        requires
            old(self).wf(),
        ensures
            final(self).wf(),
            final(self).rows() == old(self).rows().filter(key_lacks_prefix(key_prefix@)),
            final(self).same_call(old(self)),
    {
        let ghost pred = key_lacks_prefix(key_prefix@);
        let ghost rows = self.rows();
        let mut kept: Vec<Entry> = Vec::new();
        let ghost mut from: Seq<int> = Seq::empty();
        let mut i: usize = 0;
        proof {
            reveal(Seq::filter);
            assert(rows.subrange(0, 0) =~= Seq::<Row>::empty());
            assert(rows_of(kept@) =~= Seq::<Row>::empty());
        }
        while i < self.entries.len()
            invariant
                i <= self.entries.len(),
                *self == *old(self),
                rows == self.rows(),
                rows_wf(rows),
                pred == key_lacks_prefix(key_prefix@),
                rows_of(kept@) == rows.subrange(0, i as int).filter(pred),
                from.len() == kept@.len(),
                forall|k: int| 0 <= k < from.len() ==> 0 <= #[trigger] from[k] < i && rows_of(kept@)[k] == rows[from[k]],
                forall|a: int, b: int| 0 <= a < b < from.len() ==> from[a] < from[b],
            decreases self.entries.len() - i,
        {
            let e = &self.entries[i];
            proof {
                self.lemma_filter_step(i as int, pred);
            }
            if !has_prefix(e.key.as_str(), key_prefix) {
                let ghost before = rows_of(kept@);
                kept.push(Entry { key: e.key.clone(), field: e.field.clone(), value: copy_bytes(&e.value) });
                proof {
                    assert(rows_of(kept@) =~= before.push(e@));
                    from = from.push(i as int);
                    assert forall|k: int| 0 <= k < from.len() implies 0 <= #[trigger] from[k] < i + 1 && rows_of(kept@)[k]
                        == rows[from[k]] by {
                        if k < before.len() {
                            assert(rows_of(kept@)[k] == before[k]);
                        }
                    }
                }
            }
            i = i + 1;
        }
        proof {
            assert(rows.subrange(0, i as int) =~= rows);
            let after = rows_of(kept@);
            assert forall|a: int, b: int| 0 <= a < b < after.len() implies !((#[trigger] after[a]).key == (
            #[trigger] after[b]).key && after[a].field == after[b].field) by {
                assert(from[a] < from[b]);
                assert(after[a] == rows[from[a]] && after[b] == rows[from[b]]);
            }
            assert forall|k: int| 0 <= k < after.len() implies (#[trigger] after[k]).value.len() > 0 by {
                assert(after[k] == rows[from[k]]);
            }
        }
        self.entries = kept;
    }
}

} // verus!
