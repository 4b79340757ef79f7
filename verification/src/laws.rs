use vstd::prelude::*;
use crate::codec::{index_key_of, lemma_uid_bytes_roundtrip, ns_prefix_of, table_key_of, uid_bytes};
use crate::consistency::{consistent, lemma_key_kinds, lemma_remove_consistent};
use crate::context::{
    delete_row, key_has_prefix, lemma_put_row, lemma_unique_slot, put_row, rows_wf, value_at, Row,
};
use crate::json::{json_decoded, written, JsonView};
use crate::model::{as_uid, delete_result, put_result, slot_field, slot_key, stored, uids_in, uids_of_kinds};
use crate::objects::controller::{
    create_exec_spec, create_support_spec, created, delete_exec_spec, deleted_all, held, name_taken, ActionFault,
};
use crate::objects::dynamic::{
    kind_parsed, lemma_kind_parsed_object, lemma_parsed_is_canonical, text_parsed, DynamicObject, StoreFault,
};
use crate::objects::kinds::Kind;
use crate::objects::parts::{parts_tree, ParseFault, PartsView};

verus! {

/// An object that is written and read again is the same object: where a
/// text reads as the JSON form of an object that reading gives, reading
/// the text as an object gives that object.
pub proof fn lemma_round_trip(obj: DynamicObject, text: Seq<u8>)
    requires
        obj.valid(),
    ensures
        json_decoded(text) == Some(parts_tree(obj@)) ==> text_parsed(text) == Ok::<PartsView, StoreFault>(obj@),
{
}

/// Whatever reads as an object reads, written in its JSON form, as the same object.
pub proof fn lemma_read_write_read(kind: Kind, j: JsonView)
    ensures
        kind_parsed(kind, j) matches Ok(p) ==> kind_parsed(kind, parts_tree(p)) == Ok::<PartsView, ParseFault>(p),
{
    lemma_parsed_is_canonical(kind, j);
}

/// After a successful put the index names the uid of the object under the object's name.
pub proof fn lemma_put_indexed(rows: Seq<Row>, kind: Kind, p: PartsView, text: Seq<u8>)
    requires
        rows_wf(rows),
        put_result(rows, kind, p, Some(text)) is Ok,
    ensures
        value_at(put_result(rows, kind, p, Some(text))->Ok_0, slot_key(p), slot_field(p)) == uid_bytes(p.uid),
        stored(put_result(rows, kind, p, Some(text))->Ok_0, p.uid) == text,
        text.len() > 0,
{
    let tkey = table_key_of(p.uid);
    let none = Seq::<char>::empty();
    lemma_key_kinds(p, p.uid);
    lemma_uid_bytes_roundtrip(p.uid);
    crate::model::lemma_put_stored(rows, kind, p, text);
    if stored(rows, p.uid).len() == 0 {
        let r1 = put_row(rows, tkey, none, text);
        lemma_put_row(rows, tkey, none, text);
        lemma_put_row(r1, slot_key(p), slot_field(p), uid_bytes(p.uid));
    } else {
        let old = text_parsed(stored(rows, p.uid))->Ok_0;
        let r1 = delete_row(rows, slot_key(old), slot_field(old));
        let r2 = put_row(r1, slot_key(p), slot_field(p), uid_bytes(p.uid));
        lemma_put_row(rows, slot_key(old), slot_field(old), Seq::<u8>::empty());
        lemma_put_row(r1, slot_key(p), slot_field(p), uid_bytes(p.uid));
        lemma_put_row(r2, tkey, none, text);
    }
}

/// Once an object is made, making another of the same kind under the same
/// namespace, name and version is refused by the check of whether the
/// action is possible, which changes nothing.
pub proof fn lemma_duplicate_rejected(rows: Seq<Row>, counter: u64, kind: Kind, first: JsonView, second: JsonView)
    requires
        rows_wf(rows),
        create_exec_spec(rows, counter, kind, first) is Ok,
        kind_parsed(kind, first) is Ok,
        kind_parsed(kind, second) matches Ok(q) && q.namespace == kind_parsed(kind, first)->Ok_0.namespace && q.name
            == kind_parsed(kind, first)->Ok_0.name && q.version == kind_parsed(kind, first)->Ok_0.version,
    ensures
        create_support_spec(create_exec_spec(rows, counter, kind, first)->Ok_0.0, kind, second) == Err::<
            (),
            ActionFault,
        >(ActionFault::NotSupport("create"@)),
{
    let p = kind_parsed(kind, first)->Ok_0;
    let q = kind_parsed(kind, second)->Ok_0;
    let made = created(kind, p, counter);
    let text = written(parts_tree(made))->0;
    let after = create_exec_spec(rows, counter, kind, first)->Ok_0.0;
    lemma_parsed_is_canonical(kind, first);
    lemma_put_indexed(rows, kind, made, text);
    lemma_uid_bytes_roundtrip(counter);
    assert(slot_key(made) == index_key_of(
        kind.meta().api_version,
        kind.meta().kind,
        crate::model::or_empty(q.namespace),
        q.name,
    ));
    assert(slot_field(made) == slot_field(q));
    assert(as_uid(uid_bytes(counter)) == Some(counter));
    assert(name_taken(after, kind, q) == Ok::<bool, StoreFault>(true));
}

/// The ledger is consistent. The proofs of this file that do not look into what that says work with this.
#[verifier::opaque]
pub open spec fn in_order(rows: Seq<Row>) -> bool {
    consistent(rows)
}

/// Deleting the object under a uid of a consistent ledger is never refused
/// and leaves the ledger consistent; the uid holds nothing after it, and
/// every other uid holds what it held.
pub proof fn lemma_delete_step(rows: Seq<Row>, uid: u64)
    requires
        in_order(rows),
    ensures
        delete_result(rows, uid) is Ok,
        in_order(delete_result(rows, uid)->Ok_0.0),
        stored(delete_result(rows, uid)->Ok_0.0, uid).len() == 0,
        forall|u: u64| u != uid ==> #[trigger] stored(delete_result(rows, uid)->Ok_0.0, u) == stored(rows, u),
{
    reveal(in_order);
    if stored(rows, uid).len() > 0 {
        let old = text_parsed(stored(rows, uid))->Ok_0;
        lemma_remove_consistent(rows, old, uid);
    }
}

/// A request to the store: to put an object, given its kind, what it
/// holds and the text that it is written as, or to delete what a uid holds.
pub enum Request {
    Put(Kind, PartsView, Seq<u8>),
    Delete(u64),
}

/// The rows after a request. An object is put where its text reads as the
/// object and no other object holds its name, as the handlers see to before
/// they put; a request that is not carried out changes nothing.
pub open spec fn served(rows: Seq<Row>, request: Request) -> Seq<Row> {
    match request {
        Request::Put(kind, p, text) => if text_parsed(text) == Ok::<PartsView, StoreFault>(p)
            && crate::consistency::slot_free(rows, p) {
            match crate::model::put_result(rows, kind, p, Some(text)) {
                Ok(after) => after,
                Err(_) => rows,
            }
        } else {
            rows
        },
        Request::Delete(uid) => match delete_result(rows, uid) {
            Ok(done) => done.0,
            Err(_) => rows,
        },
    }
}

/// The rows after the first `n` of some requests, one by one.
pub open spec fn served_all(rows: Seq<Row>, requests: Seq<Request>, n: nat) -> Seq<Row>
    decreases n,
{
    if n == 0 || n > requests.len() {
        rows
    } else {
        served(served_all(rows, requests, (n - 1) as nat), requests[n - 1])
    }
}

/// Whatever is put and deleted, in whatever order, table and index agree
/// at every point: after any number of requests to a consistent ledger the
/// ledger is consistent, and so a uid holds an object if and only if
/// exactly one entry of the index names it.
pub proof fn lemma_consistent_at_every_point(rows: Seq<Row>, requests: Seq<Request>, n: nat, uid: u64)
    requires
        consistent(rows),
        n <= requests.len(),
    ensures
        consistent(served_all(rows, requests, n)),
        stored(served_all(rows, requests, n), uid).len() > 0 <==> exists|key: Seq<char>, field: Seq<char>|
            crate::consistency::is_index_key(key) && #[trigger] value_at(served_all(rows, requests, n), key, field)
                == uid_bytes(uid),
        forall|k1: Seq<char>, f1: Seq<char>, k2: Seq<char>, f2: Seq<char>|
            crate::consistency::is_index_key(k1) && #[trigger] value_at(served_all(rows, requests, n), k1, f1)
                == uid_bytes(uid) && crate::consistency::is_index_key(k2) && #[trigger] value_at(
                served_all(rows, requests, n),
                k2,
                f2,
            ) == uid_bytes(uid) ==> k1 == k2 && f1 == f2,
    decreases n,
{
    if n > 0 {
        lemma_consistent_at_every_point(rows, requests, (n - 1) as nat, uid);
        let before = served_all(rows, requests, (n - 1) as nat);
        match requests[n - 1] {
            Request::Put(kind, p, text) => {
                if text_parsed(text) == Ok::<PartsView, StoreFault>(p) && crate::consistency::slot_free(before, p)
                    && crate::model::put_result(before, kind, p, Some(text)) is Ok {
                    crate::consistency::lemma_put_consistent(before, kind, p, text);
                }
            },
            Request::Delete(gone) => {
                reveal(in_order);
                lemma_delete_step(before, gone);
            },
        }
    }
    crate::consistency::lemma_index_table_consistency(served_all(rows, requests, n), uid);
}

/// The rows after the objects under the first `n` of some uids are deleted; the rows as they are where a delete is refused.
pub open spec fn after_deletes(rows: Seq<Row>, uids: Seq<u64>, n: nat) -> Seq<Row> {
    match deleted_all(rows, uids, n) {
        Ok(after) => after,
        Err(_) => rows,
    }
}

/// Deleting the objects under some uids of a consistent ledger is never
/// refused and leaves the ledger consistent; the uids hold nothing after
/// it, and every other uid holds what it held.
pub proof fn lemma_deleted_all(rows: Seq<Row>, uids: Seq<u64>, n: nat)
    requires
        in_order(rows),
        n <= uids.len(),
    ensures
        deleted_all(rows, uids, n) is Ok,
        in_order(after_deletes(rows, uids, n)),
        forall|i: int| 0 <= i < n ==> stored(after_deletes(rows, uids, n), #[trigger] uids[i]).len() == 0,
        forall|u: u64|
            (forall|i: int| 0 <= i < n ==> uids[i] != u) ==> #[trigger] stored(after_deletes(rows, uids, n), u)
                == stored(rows, u),
    decreases n,
{
    if n > 0 {
        lemma_deleted_all(rows, uids, (n - 1) as nat);
        let before = after_deletes(rows, uids, (n - 1) as nat);
        let uid = uids[n - 1];
        lemma_delete_step(before, uid);
        let after = delete_result(before, uid)->Ok_0.0;
        assert(deleted_all(rows, uids, n) == Ok::<Seq<Row>, StoreFault>(after));
        assert(after_deletes(rows, uids, n) == after);
        assert forall|i: int| 0 <= i < n implies stored(after, #[trigger] uids[i]).len() == 0 by {
            if uids[i] != uid {
                assert(stored(after, uids[i]) == stored(before, uids[i]));
            }
        }
        assert forall|u: u64| (forall|i: int| 0 <= i < n ==> uids[i] != u) implies #[trigger] stored(after, u) == stored(
            rows,
            u,
        ) by {
            assert(uids[n - 1] != u);
            assert(stored(after, u) == stored(before, u));
            assert(forall|i: int| 0 <= i < n - 1 ==> uids[i] != u);
        }
    }
}

/// In a consistent ledger every row of the index holds a uid, so a scan of the index reads a uid from every row it finds.
pub proof fn lemma_scan_reads(rows: Seq<Row>, prefix: Seq<char>)
    requires
        consistent(rows),
        "i1c_"@.is_prefix_of(prefix),
    ensures
        uids_in(rows.filter(key_has_prefix(prefix))) is Some,
{
    let pred = key_has_prefix(prefix);
    let found = rows.filter(pred);
    reveal_strlit("i1c_");
    assert("i1c_"@.len() == 4);
    assert forall|i: int| 0 <= i < found.len() implies as_uid((#[trigger] found[i]).value) is Some by {
        rows.lemma_filter_pred(pred, i);
        assert(found.contains(found[i]));
        rows.lemma_filter_contains_rev(pred, found[i]);
        let at = choose|at: int| 0 <= at < rows.len() && rows[at] == found[i];
        lemma_unique_slot(rows, at);
        let key = rows[at].key;
        assert(prefix.is_prefix_of(key));
        assert(prefix =~= key.subrange(0, prefix.len() as int));
        assert("i1c_"@ =~= prefix.subrange(0, 4));
        assert("i1c_"@ =~= key.subrange(0, 4));
        assert(crate::consistency::is_index_key(key));
        let uid = choose|uid: u64|
            value_at(rows, key, rows[at].field) == uid_bytes(uid) && #[trigger] crate::consistency::resolves(
                rows,
                uid,
                key,
                rows[at].field,
            );
        lemma_uid_bytes_roundtrip(uid);
    }
}

/// In a consistent ledger the scan of a namespace is never refused.
pub proof fn lemma_scans_succeed(rows: Seq<Row>, namespace: Seq<char>, n: nat)
    requires
        consistent(rows),
        n <= 7,
    ensures
        uids_of_kinds(rows, namespace, n) is Some,
    decreases n,
{
    if n > 0 {
        lemma_scans_succeed(rows, namespace, (n - 1) as nat);
        let kind = Kind::at(n - 1);
        let prefix = ns_prefix_of(kind.meta().api_version, kind.meta().kind, namespace);
        reveal_strlit("i1c_");
        assert("i1c_"@ =~= prefix.subrange(0, 4));
        lemma_scan_reads(rows, prefix);
    }
}

/// The uids found for more kinds hold those found for fewer.
proof fn lemma_uids_of_kinds_grow(rows: Seq<Row>, namespace: Seq<char>, n: nat, m: nat, uid: u64)
    requires
        n <= m,
        uids_of_kinds(rows, namespace, m) is Some,
        uids_of_kinds(rows, namespace, n) matches Some(found) && found.contains(uid),
    ensures
        uids_of_kinds(rows, namespace, m)->0.contains(uid),
    decreases m,
{
    if n < m {
        lemma_uids_of_kinds_grow(rows, namespace, n, (m - 1) as nat, uid);
        let before = uids_of_kinds(rows, namespace, (m - 1) as nat)->0;
        let all = uids_of_kinds(rows, namespace, m)->0;
        let i = choose|i: int| 0 <= i < before.len() && before[i] == uid;
        assert(all[i] == uid);
    }
}

/// In a consistent ledger the scan of a namespace finds every object that
/// names the namespace.
pub proof fn lemma_scan_finds(rows: Seq<Row>, namespace: Seq<char>, uid: u64)
    requires
        consistent(rows),
        stored(rows, uid).len() > 0,
        text_parsed(stored(rows, uid)) matches Ok(p) && p.namespace == Some(namespace),
        uids_of_kinds(rows, namespace, 7) is Some,
    ensures
        uids_of_kinds(rows, namespace, 7)->0.contains(uid),
{
    let p = text_parsed(stored(rows, uid))->Ok_0;
    let j = json_decoded(stored(rows, uid))->0;
    let meta = crate::objects::kinds::type_meta_of(j)->0;
    let kind = Kind::of(meta)->0;
    lemma_parsed_is_canonical(kind, j);
    lemma_uid_bytes_roundtrip(uid);
    let key = slot_key(p);
    let field = slot_field(p);
    let at = crate::context::slot(rows, key, field);
    assert(rows[at].key == key && rows[at].field == field);
    lemma_unique_slot(rows, at);
    assert(rows[at].value == uid_bytes(uid));
    let n: nat = if kind is Namespace {
        1
    } else if kind is Proposal {
        2
    } else if kind is GlobalProposal {
        3
    } else if kind is DataDeclare {
        4
    } else if kind is FunctionDeclare {
        5
    } else if kind is Contract {
        6
    } else {
        7
    };
    assert(Kind::at(n - 1) == kind);
    let prefix = ns_prefix_of(kind.meta().api_version, kind.meta().kind, namespace);
    assert(key =~= prefix + p.name);
    assert(prefix =~= key.subrange(0, prefix.len() as int));
    let pred = key_has_prefix(prefix);
    assert(pred(rows[at]));
    rows.lemma_filter_contains(pred, at);
    let found = rows.filter(pred);
    let k = choose|k: int| 0 <= k < found.len() && found[k] == rows[at];
    if uids_of_kinds(rows, namespace, n) is None {
        crate::model::lemma_uids_of_kinds_fault(rows, namespace, n, 7);
    }
    let some = uids_in(found)->0;
    assert(as_uid(found[k].value) == Some(uid));
    assert(some[k] == uid);
    let before = uids_of_kinds(rows, namespace, (n - 1) as nat)->0;
    let upto = uids_of_kinds(rows, namespace, n)->0;
    assert(upto[before.len() + k] == uid);
    lemma_uids_of_kinds_grow(rows, namespace, n, 7, uid);
}

/// No object of the ledger names a namespace that holds the delimiter of the keys.
pub open spec fn plain_namespaces(rows: Seq<Row>) -> bool {
    forall|uid: u64|
        text_parsed(#[trigger] stored(rows, uid)) matches Ok(p) ==> crate::codec::no_delimiter(
            crate::model::or_empty(p.namespace),
        )
}

/// A uid holds an object that names the namespace.
pub open spec fn lies_in(rows: Seq<Row>, uid: u64, namespace: Seq<char>) -> bool {
    stored(rows, uid).len() > 0 && match text_parsed(stored(rows, uid)) {
        Ok(p) => p.namespace == Some(namespace),
        Err(_) => false,
    }
}

/// A uid that the scan of a namespace finds was found for one of the kinds.
proof fn lemma_found_for_kind(rows: Seq<Row>, namespace: Seq<char>, n: nat, uid: u64) -> (m: nat)
    requires
        uids_of_kinds(rows, namespace, n) matches Some(found) && found.contains(uid),
    ensures
        1 <= m <= n,
        uids_in(
            rows.filter(key_has_prefix(ns_prefix_of(Kind::at(m - 1).meta().api_version, Kind::at(m - 1).meta().kind, namespace))),
        ) matches Some(list) && list.contains(uid),
    decreases n,
{
    let found = uids_of_kinds(rows, namespace, n)->0;
    if n == 0 {
        assert(false);
        0
    } else {
        let before = uids_of_kinds(rows, namespace, (n - 1) as nat)->0;
        let kind = Kind::at(n - 1);
        let list = uids_in(rows.filter(key_has_prefix(ns_prefix_of(kind.meta().api_version, kind.meta().kind, namespace))))->0;
        let i = choose|i: int| 0 <= i < found.len() && found[i] == uid;
        if i < before.len() {
            assert(before[i] == uid);
            lemma_found_for_kind(rows, namespace, (n - 1) as nat, uid)
        } else {
            assert(list[i - before.len()] == uid);
            n
        }
    }
}

/// In a consistent ledger whose objects name no namespace that holds the
/// delimiter, the scan of a namespace finds nothing but objects that name
/// the namespace.
pub proof fn lemma_scan_names(rows: Seq<Row>, namespace: Seq<char>, uid: u64)
    requires
        consistent(rows),
        plain_namespaces(rows),
        crate::codec::no_delimiter(namespace),
        namespace.len() > 0,
        uids_of_kinds(rows, namespace, 7) matches Some(found) && found.contains(uid),
    ensures
        lies_in(rows, uid, namespace),
{
    let m = lemma_found_for_kind(rows, namespace, 7, uid);
    let kind = Kind::at(m - 1);
    let prefix = ns_prefix_of(kind.meta().api_version, kind.meta().kind, namespace);
    let pred = key_has_prefix(prefix);
    let found = rows.filter(pred);
    let list = uids_in(found)->0;
    let k = choose|k: int| 0 <= k < list.len() && list[k] == uid;
    assert(as_uid(found[k].value) == Some(uid));
    rows.lemma_filter_pred(pred, k);
    assert(found.contains(found[k]));
    rows.lemma_filter_contains_rev(pred, found[k]);
    let at = choose|at: int| 0 <= at < rows.len() && rows[at] == found[k];
    lemma_unique_slot(rows, at);
    let key = rows[at].key;
    let field = rows[at].field;
    assert(prefix.is_prefix_of(key));
    reveal_strlit("i1c_");
    assert("i1c_"@.len() == 4);
    assert(prefix =~= key.subrange(0, prefix.len() as int));
    assert("i1c_"@ =~= prefix.subrange(0, 4));
    assert("i1c_"@ =~= key.subrange(0, 4));
    assert(crate::consistency::is_index_key(key));
    let named = choose|named: u64|
        value_at(rows, key, field) == uid_bytes(named) && #[trigger] crate::consistency::resolves(rows, named, key, field);
    lemma_uid_bytes_roundtrip(named);
    assert(named == uid);
    let p = text_parsed(stored(rows, uid))->Ok_0;
    let j = json_decoded(stored(rows, uid))->0;
    let meta = crate::objects::kinds::type_meta_of(j)->0;
    let held_kind = Kind::of(meta)->0;
    lemma_parsed_is_canonical(held_kind, j);
    crate::objects::kinds::lemma_kind_names_plain(kind);
    crate::objects::kinds::lemma_kind_names_plain(held_kind);
    assert(crate::codec::no_delimiter(crate::model::or_empty(p.namespace)));
    crate::codec::lemma_prefix_names_namespace(
        crate::objects::kinds::core_api_version(),
        kind.name(),
        namespace,
        p.kind,
        crate::model::or_empty(p.namespace),
        p.name,
    );
}

/// Deleting a namespace spares what does not lie in it: in a consistent
/// ledger whose objects name no namespace that holds the delimiter, every
/// uid but that of the namespace, and but those of the objects that name
/// it, holds after the delete what it held before.
pub proof fn lemma_cascade_spares(rows: Seq<Row>, uid: u64, other: u64)
    requires
        consistent(rows),
        plain_namespaces(rows),
        held(rows, Kind::Namespace, uid) matches Some(Ok(ns)) && !lies_in(rows, other, ns.name),
        other != uid,
    ensures
        delete_exec_spec(rows, Kind::Namespace, uid) is Ok,
        stored(delete_exec_spec(rows, Kind::Namespace, uid)->Ok_0.0, other) == stored(rows, other),
{
    let ns = held(rows, Kind::Namespace, uid)->0->Ok_0;
    lemma_kind_parsed_object(Kind::Namespace, json_decoded(stored(rows, uid))->0);
    lemma_parsed_is_canonical(Kind::Namespace, json_decoded(stored(rows, uid))->0);
    crate::utils::validate::lemma_valid_name_plain(ns.name);
    lemma_scans_succeed(rows, ns.name, 7);
    let uids = uids_of_kinds(rows, ns.name, 7)->0;
    if uids.contains(other) {
        lemma_scan_names(rows, ns.name, other);
    }
    reveal(in_order);
    lemma_deleted_all(rows, uids, uids.len());
    let cleared = after_deletes(rows, uids, uids.len());
    assert(forall|i: int| 0 <= i < uids.len() ==> uids[i] != other);
    assert(stored(cleared, other) == stored(rows, other));
    lemma_delete_step(cleared, uid);
}

/// The uids that the index names under the name of the namespace that a uid holds.
pub open spec fn named_under(rows: Seq<Row>, uid: u64) -> Seq<u64> {
    match held(rows, Kind::Namespace, uid) {
        Some(Ok(ns)) => match uids_of_kinds(rows, ns.name, 7) {
            Some(uids) => uids,
            None => Seq::empty(),
        },
        _ => Seq::empty(),
    }
}

/// Deleting a namespace deletes every object that names the namespace,
/// then the namespace itself: in a consistent ledger the delete is carried
/// out, and after it neither the uid of the namespace nor the uid of any
/// object that named it holds an object. Every other uid, but for those
/// that the index names under the name of the namespace, holds what it
/// held. The ledger stays consistent.
pub proof fn lemma_cascade_delete(rows: Seq<Row>, uid: u64, inside: u64)
    requires
        consistent(rows),
        held(rows, Kind::Namespace, uid) matches Some(Ok(ns)) && text_parsed(stored(rows, inside)) matches Ok(p)
            && p.namespace == Some(ns.name),
        stored(rows, inside).len() > 0,
    ensures
        delete_exec_spec(rows, Kind::Namespace, uid) is Ok,
        consistent(delete_exec_spec(rows, Kind::Namespace, uid)->Ok_0.0),
        stored(delete_exec_spec(rows, Kind::Namespace, uid)->Ok_0.0, uid).len() == 0,
        stored(delete_exec_spec(rows, Kind::Namespace, uid)->Ok_0.0, inside).len() == 0,
        named_under(rows, uid).contains(inside),
        forall|u: u64|
            u != uid && !named_under(rows, uid).contains(u) ==> #[trigger] stored(
                delete_exec_spec(rows, Kind::Namespace, uid)->Ok_0.0,
                u,
            ) == stored(rows, u),
{
    let ns = held(rows, Kind::Namespace, uid)->0->Ok_0;
    lemma_kind_parsed_object(Kind::Namespace, json_decoded(stored(rows, uid))->0);
    assert(ns.uid == uid);
    lemma_scans_succeed(rows, ns.name, 7);
    let uids = uids_of_kinds(rows, ns.name, 7)->0;
    lemma_scan_finds(rows, ns.name, inside);
    reveal(in_order);
    lemma_deleted_all(rows, uids, uids.len());
    let cleared = after_deletes(rows, uids, uids.len());
    let i = choose|i: int| 0 <= i < uids.len() && uids[i] == inside;
    assert(stored(cleared, uids[i]).len() == 0);
    lemma_delete_step(cleared, uid);
    let after = delete_result(cleared, uid)->Ok_0.0;
    if inside != uid {
        assert(stored(after, inside) == stored(cleared, inside));
    }
    assert(named_under(rows, uid) == uids);
    assert forall|u: u64| u != uid && !uids.contains(u) implies #[trigger] stored(after, u) == stored(rows, u) by {
        assert(forall|i: int| 0 <= i < uids.len() ==> uids[i] != u);
        assert(stored(cleared, u) == stored(rows, u));
        assert(stored(after, u) == stored(cleared, u));
    }
}

/// In a consistent ledger an object that is there is deleted when asked:
/// the store refuses nothing on the way. Where the object is no namespace,
/// every other uid holds what it held.
pub proof fn lemma_delete_carried_out(rows: Seq<Row>, kind: Kind, uid: u64)
    requires
        consistent(rows),
        held(rows, kind, uid) matches Some(Ok(_)),
    ensures
        delete_exec_spec(rows, kind, uid) is Ok,
        consistent(delete_exec_spec(rows, kind, uid)->Ok_0.0),
        stored(delete_exec_spec(rows, kind, uid)->Ok_0.0, uid).len() == 0,
        !(kind is Namespace) ==> forall|u: u64|
            u != uid ==> #[trigger] stored(delete_exec_spec(rows, kind, uid)->Ok_0.0, u) == stored(rows, u),
{
    let p = held(rows, kind, uid)->0->Ok_0;
    lemma_kind_parsed_object(kind, json_decoded(stored(rows, uid))->0);
    assert(p.uid == uid);
    reveal(in_order);
    if kind is Namespace {
        lemma_scans_succeed(rows, p.name, 7);
        let uids = uids_of_kinds(rows, p.name, 7)->0;
        lemma_deleted_all(rows, uids, uids.len());
        let cleared = after_deletes(rows, uids, uids.len());
        lemma_delete_step(cleared, uid);
    } else {
        lemma_delete_step(rows, uid);
    }
}

} // verus!
