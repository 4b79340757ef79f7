use vstd::prelude::*;
use vstd::string::*;
use crate::codec::{
    be_value, index_key_of, ns_prefix_of, table_key_of, type_prefix_of, uid_bytes, uid_from_be_bytes,
    uid_to_be_bytes,
};
use crate::context::{
    delete_row, field_has_prefix, key_has_prefix, lemma_put_row, put_row, rows_wf, value_at, Context,
    ResultSetCursor, Row,
};
use crate::errors::ChainModelError;
use crate::json::written;
use crate::objects::dynamic::{store_fault, text_parsed, DynamicObject, StoreFault};
use crate::objects::kinds::Kind;
use crate::objects::meta::{TypeMeta, TypeMetaView};
use crate::objects::parts::{parts_tree, PartsView};
use crate::text::{decimal, decimal_digits};

verus! {

/// The object store: a table of objects by uid and an index of uids by
/// name, both kept in the ledger of a call.
pub struct ChainModel {
    pub context: Context,
}

/// The text, or the empty text where there is none.
pub open spec fn or_empty(t: Option<Seq<char>>) -> Seq<char> {
    match t {
        Some(s) => s,
        None => Seq::empty(),
    }
}

/// The text stored for a uid in the object table; no bytes where the uid holds no object.
pub open spec fn stored(rows: Seq<Row>, uid: u64) -> Seq<u8> {
    value_at(rows, table_key_of(uid), Seq::empty())
}

/// The key under which an object is indexed.
pub open spec fn slot_key(p: PartsView) -> Seq<char> {
    index_key_of(p.api_version, p.kind, or_empty(p.namespace), p.name)
}

/// The field under which an object is indexed: its version, or the empty field.
pub open spec fn slot_field(p: PartsView) -> Seq<char> {
    or_empty(p.version)
}

/// The uid that eight bytes stand for; `None` for any other number of bytes.
pub open spec fn as_uid(bytes: Seq<u8>) -> Option<u64> {
    if bytes.len() == 8 {
        Some(be_value(bytes) as u64)
    } else {
        None
    }
}

/// The rows after an object is stored under a uid that held none: the text
/// goes into the table, the uid into the index.
pub open spec fn inserted(rows: Seq<Row>, p: PartsView, text: Seq<u8>) -> Seq<Row> {
    put_row(put_row(rows, table_key_of(p.uid), Seq::empty(), text), slot_key(p), slot_field(p), uid_bytes(p.uid))
}

/// The rows after an object takes the place of another under the same uid:
/// the old index entry goes, the new one comes, and the text in the table is replaced.
pub open spec fn replaced(rows: Seq<Row>, old: PartsView, p: PartsView, text: Seq<u8>) -> Seq<Row> {
    put_row(
        put_row(delete_row(rows, slot_key(old), slot_field(old)), slot_key(p), slot_field(p), uid_bytes(p.uid)),
        table_key_of(p.uid),
        Seq::empty(),
        text,
    )
}

/// The rows after the object under a uid is deleted, with its index entry.
pub open spec fn removed(rows: Seq<Row>, old: PartsView, uid: u64) -> Seq<Row> {
    delete_row(delete_row(rows, table_key_of(uid), Seq::empty()), slot_key(old), slot_field(old))
}

/// What putting an object of a kind does, given the text that the object is
/// written as: the rows after it, or why it is refused. A refused put
/// changes nothing.
pub open spec fn put_result(rows: Seq<Row>, kind: Kind, p: PartsView, text: Option<Seq<u8>>) -> Result<
    Seq<Row>,
    StoreFault,
> {
    match text {
        Some(t) => if t.len() == 0 {
            Err(StoreFault::Json)
        } else if stored(rows, p.uid).len() == 0 {
            Ok(inserted(rows, p, t))
        } else {
            match text_parsed(stored(rows, p.uid)) {
                Ok(old) => if old.kind != kind.name() {
                    Err(StoreFault::MismatchedKind(p.uid, old.kind, kind.name()))
                } else {
                    Ok(replaced(rows, old, p, t))
                },
                Err(fault) => Err(fault),
            }
        },
        None => Err(StoreFault::Json),
    }
}

/// What deleting the object under a uid does: the rows after it and the
/// object that was deleted, if there was one, or why the delete is refused.
pub open spec fn delete_result(rows: Seq<Row>, uid: u64) -> Result<(Seq<Row>, Option<PartsView>), StoreFault> {
    if stored(rows, uid).len() == 0 {
        Ok((rows, None))
    } else {
        match text_parsed(stored(rows, uid)) {
            Ok(old) => Ok((removed(rows, old, uid), Some(old))),
            Err(fault) => Err(fault),
        }
    }
}

/// Some bytes as numbers with a comma and a blank between each two.
pub open spec fn listed_bytes(bytes: Seq<u8>) -> Seq<char>
    decreases bytes.len(),
{
    if bytes.len() == 0 {
        Seq::empty()
    } else if bytes.len() == 1 {
        decimal_digits(bytes[0] as nat)
    } else {
        listed_bytes(bytes.drop_last()) + ", "@ + decimal_digits(bytes.last() as nat)
    }
}

/// What is said of an index entry that is no uid: the bytes that it holds, as a list in brackets.
pub open spec fn bad_uid_text(entry: Seq<u8>) -> Seq<char> {
    "invalid uid from object_name_index, error content: ["@ + listed_bytes(entry) + "]"@
}

/// What is said of a uid that the index names and the table does not hold.
pub open spec fn missing_text(uid: u64) -> Seq<char> {
    "index error, uid "@ + decimal_digits(uid as nat) + " is empty in object table"@
}

/// What is said of an index entry that names no stored object.
pub open spec fn broken_entry_text(entry: Seq<u8>) -> Seq<char> {
    match as_uid(entry) {
        Some(uid) => missing_text(uid),
        None => bad_uid_text(entry),
    }
}

/// The error for an index entry that is no uid.
fn bad_uid(bytes: &Vec<u8>) -> (e: ChainModelError)
    ensures
        e matches ChainModelError::StateError(msg) && msg@ == bad_uid_text(bytes@),
{
    let mut msg = String::from_str("invalid uid from object_name_index, error content: [");
    let ghost head = msg@;
    let mut i: usize = 0;
    assert(bytes@.subrange(0, 0) =~= Seq::<u8>::empty());
    assert(msg@ =~= head + listed_bytes(bytes@.subrange(0, 0)));
    while i < bytes.len()
        invariant
            i <= bytes.len(),
            head == "invalid uid from object_name_index, error content: ["@,
            msg@ == head + listed_bytes(bytes@.subrange(0, i as int)),
        decreases bytes.len() - i,
    {
        let ghost before = bytes@.subrange(0, i as int);
        let ghost next = bytes@.subrange(0, i + 1);
        if i > 0 {
            msg.append(", ");
        }
        let digits = decimal(bytes[i] as u64);
        msg.append(digits.as_str());
        proof {
            assert(next.drop_last() =~= before);
            assert(next.last() == bytes@[i as int]);
            if i == 0 {
                assert(before.len() == 0);
                assert(msg@ =~= head + listed_bytes(next));
            } else {
                assert(msg@ =~= head + listed_bytes(next));
            }
        }
        i = i + 1;
    }
    assert(bytes@.subrange(0, i as int) =~= bytes@);
    msg.append("]");
    assert(msg@ =~= bad_uid_text(bytes@));
    ChainModelError::StateError(msg)
}

/// The error for a uid that the index names and the table does not hold.
fn missing(uid: u64) -> (e: ChainModelError)
    ensures
        e matches ChainModelError::StateError(msg) && msg@ == missing_text(uid),
{
    let mut msg = String::from_str("index error, uid ");
    let digits = decimal(uid);
    msg.append(digits.as_str());
    msg.append(" is empty in object table");
    ChainModelError::StateError(msg)
}

/// The text of the object that the index names for a key and field: `None`
/// where the index names none; a fault where it names no uid, or one that
/// holds no object.
pub open spec fn named_text(rows: Seq<Row>, key: Seq<char>, field: Seq<char>) -> Result<Option<Seq<u8>>, StoreFault> {
    let entry = value_at(rows, key, field);
    if entry.len() == 0 {
        Ok(None)
    } else {
        match as_uid(entry) {
            Some(uid) => if stored(rows, uid).len() == 0 {
                Err(StoreFault::State)
            } else {
                Ok(Some(stored(rows, uid)))
            },
            None => Err(StoreFault::State),
        }
    }
}

/// The uids that some index rows hold; `None` where a row holds no uid.
pub open spec fn uids_in(found: Seq<Row>) -> Option<Seq<u64>> {
    if forall|i: int| 0 <= i < found.len() ==> as_uid((#[trigger] found[i]).value) is Some {
        Some(Seq::new(found.len(), |i: int| as_uid(found[i].value)->0))
    } else {
        None
    }
}

/// The texts stored for some uids; `None` where a uid holds no object.
pub open spec fn texts_at(rows: Seq<Row>, uids: Seq<u64>) -> Option<Seq<Seq<u8>>> {
    if forall|i: int| 0 <= i < uids.len() ==> stored(rows, #[trigger] uids[i]).len() > 0 {
        Some(Seq::new(uids.len(), |i: int| stored(rows, uids[i])))
    } else {
        None
    }
}

/// Some texts, one after the other, with a comma between each two.
pub open spec fn joined(texts: Seq<Seq<u8>>) -> Seq<u8>
    decreases texts.len(),
{
    if texts.len() == 0 {
        Seq::empty()
    } else if texts.len() == 1 {
        texts[0]
    } else {
        joined(texts.drop_last()) + seq![44u8] + texts.last()
    }
}

/// The JSON array of some JSON texts.
pub open spec fn json_array(texts: Seq<Seq<u8>>) -> Seq<u8> {
    seq![91u8] + joined(texts) + seq![93u8]
}

/// What a lookup by namespace and name gives: nothing where the index has
/// no entry under the key; the one object where it has one entry and that
/// under the empty field; else the JSON array of all objects found, in the
/// order of the ledger.
pub open spec fn listed_text(rows: Seq<Row>, key: Seq<char>) -> Result<Option<Seq<u8>>, StoreFault> {
    let found = rows.filter(field_has_prefix(key, Seq::empty()));
    match uids_in(found) {
        Some(uids) => if uids.len() == 0 {
            Ok(None)
        } else {
            match texts_at(rows, uids) {
                Some(texts) => if uids.len() == 1 && found[0].field.len() == 0 {
                    Ok(Some(texts[0]))
                } else {
                    Ok(Some(json_array(texts)))
                },
                None => Err(StoreFault::State),
            }
        },
        None => Err(StoreFault::State),
    }
}

/// The prefix of the index keys that a lookup by kind scans: that of the
/// kind, or that of the kind in a namespace where one is given.
pub open spec fn scan_prefix(meta: TypeMetaView, namespace: Seq<char>) -> Seq<char> {
    if namespace.len() == 0 {
        type_prefix_of(meta.api_version, meta.kind)
    } else {
        ns_prefix_of(meta.api_version, meta.kind, namespace)
    }
}

/// The uids found under the index prefixes of the first `n` kinds in a namespace, kind by kind.
pub open spec fn uids_of_kinds(rows: Seq<Row>, namespace: Seq<char>, n: nat) -> Option<Seq<u64>>
    decreases n,
{
    if n == 0 {
        Some(Seq::empty())
    } else {
        let kind = Kind::at(n - 1);
        let found = rows.filter(key_has_prefix(ns_prefix_of(kind.meta().api_version, kind.meta().kind, namespace)));
        match (uids_of_kinds(rows, namespace, (n - 1) as nat), uids_in(found)) {
            (Some(before), Some(uids)) => Some(before + uids),
            _ => None,
        }
    }
}

impl ChainModel {
    /// The rows of the ledger.
    pub open spec fn rows(&self) -> Seq<Row> {
        self.context.rows()
    }

    /// The store is in order: the ledger is well-formed, table and index
    /// agree, and every uid that holds an object was given out by the counter.
    pub open spec fn wf(&self) -> bool {
        self.context.in_order()
    }

    /// The store over the ledger of a call.
    pub fn new(ctx: Context) -> (m: ChainModel)
        ensures
            m.context == ctx,
    {
        ChainModel { context: ctx }
    }

    /// The store over the ledger of a contract that has just been initialized.
    pub fn fresh(sender: String, args: Vec<(String, Vec<u8>)>) -> (m: ChainModel)
        ensures
            m.wf(),
            m.context.counter() == 1,
            m.context.sender() == sender@,
            forall|uid: u64| (#[trigger] stored(m.rows(), uid)).len() == 0,
    {
        proof {
            crate::consistency::lemma_initial_store();
        }
        ChainModel { context: Context::fresh(sender, args) }
    }

    /// Gives the ledger back.
    pub fn into_context(self) -> (ctx: Context)
        ensures
            ctx == self.context,
    {
        self.context
    }

    /// Gives out the next uid. The counter must not stand at the last `u64`.
    /// In a store that is in order the uid holds no object, and never has.
    pub fn new_uid(&mut self) -> (r: u64)
        requires
            old(self).context.counter() < u64::MAX,
        ensures
            r == old(self).context.counter(),
            final(self).context.counter() == r + 1,
            old(self).wf() ==> final(self).wf() && stored(final(self).rows(), r).len() == 0,
            final(self).rows() == old(self).rows(),
            final(self).context.sender() == old(self).context.sender(),
            final(self).context.arguments() == old(self).context.arguments(),
            final(self).context.logged() == old(self).context.logged(),
            final(self).context.answer() == old(self).context.answer(),
    {
        self.context.new_uid()
    }

    /// The ledger of the call.
    pub fn ctx(&self) -> (r: &Context)
        ensures
            *r == self.context,
    {
        &self.context
    }

    /// The ledger of the call, to be changed.
    pub fn ctx_mut(&mut self) -> (r: &mut Context)
        ensures
            *r == old(self).context,
            final(self).context == *final(r),
    {
        &mut self.context
    }

    /// Reads a uid from eight bytes, most significant first.
    pub fn be_uid_from_vec(be_bytes: Vec<u8>) -> (r: Result<u64, ChainModelError>)
        ensures
            match r {
                Ok(uid) => as_uid(be_bytes@) == Some(uid),
                Err(e) => as_uid(be_bytes@) is None && e is StateError && e->StateError_0@ == bad_uid_text(
                    be_bytes@,
                ),
            },
    {
        match uid_from_be_bytes(&be_bytes) {
            Some(uid) => Ok(uid),
            None => Err(bad_uid(&be_bytes)),
        }
    }

    /// Escapes an api version for use in a key.
    pub fn convert_api_version(api_version: &str) -> (r: String)
        ensures
            r@ == crate::codec::escaped_api_version(api_version@),
    {
        crate::codec::convert_api_version(api_version)
    }

    /// The key of the object table for a uid.
    pub fn object_table_key(uid: u64) -> (key: String)
        ensures
            key@ == table_key_of(uid),
    {
        crate::codec::object_table_key(uid)
    }

    /// The key of the index for a kind, a namespace and a name.
    pub fn object_index_key(type_meta: &TypeMeta, namespace: &str, name: &str) -> (key: String)
        ensures
            key@ == index_key_of(type_meta@.api_version, type_meta@.kind, namespace@, name@),
    {
        crate::codec::object_index_key(type_meta.api_version.as_str(), type_meta.kind.as_str(), namespace, name)
    }

    /// The prefix of the index keys of a kind in a namespace.
    pub fn ns_index_prefix(type_meta: &TypeMeta, namespace: &str) -> (key: String)
        ensures
            key@ == ns_prefix_of(type_meta@.api_version, type_meta@.kind, namespace@),
    {
        crate::codec::ns_index_prefix(type_meta.api_version.as_str(), type_meta.kind.as_str(), namespace)
    }

    /// The prefix of the index keys of a kind.
    pub fn type_prefix(type_meta: &TypeMeta) -> (key: String)
        ensures
            key@ == type_prefix_of(type_meta@.api_version, type_meta@.kind),
    {
        crate::codec::type_prefix(type_meta.api_version.as_str(), type_meta.kind.as_str())
    }

    /// The key of the index for an object.
    fn object_index_key_by_obj(o: &DynamicObject) -> (key: String)
        ensures
            key@ == slot_key(o@),
    {
        let namespace = match o.namespace() {
            Some(ns) => ns,
            None => "",
        };
        proof {
            reveal_strlit("");
            assert(""@ =~= Seq::<char>::empty());
        }
        Self::object_index_key(o.type_meta(), namespace, o.name())
    }

    /// Adds the index entry of an object.
    fn add_index_key(&mut self, o: &DynamicObject) -> (r: Result<(), ChainModelError>)
        requires
            old(self).context.wf(),
        ensures
            r is Ok,
            final(self).context.wf(),
            final(self).rows() == put_row(old(self).rows(), slot_key(o@), slot_field(o@), uid_bytes(o@.uid)),
            final(self).context.same_call(&old(self).context),
    {
        let encoded_uid = uid_to_be_bytes(o.uid());
        let index_key = Self::object_index_key_by_obj(o);
        match o.version() {
            Some(v) => {
                let _ = self.context.put_state(index_key.as_str(), v, encoded_uid.as_slice());
            },
            None => {
                let _ = self.context.put_state_from_key(index_key.as_str(), encoded_uid.as_slice());
            },
        }
        Ok(())
    }

    /// Takes the index entry of an object away.
    fn delete_index_key(&mut self, o: &DynamicObject) -> (r: Result<(), ChainModelError>)
        requires
            old(self).context.wf(),
        ensures
            r is Ok,
            final(self).context.wf(),
            final(self).rows() == delete_row(old(self).rows(), slot_key(o@), slot_field(o@)),
            final(self).context.same_call(&old(self).context),
    {
        let index_key = Self::object_index_key_by_obj(o);
        match o.version() {
            Some(v) => {
                let _ = self.context.delete_state(index_key.as_str(), v);
            },
            None => {
                let _ = self.context.delete_state_from_key(index_key.as_str());
            },
        }
        Ok(())
    }

    /// Puts an object into the table under its uid and keeps the index in
    /// step. Where the uid holds an object already, that must be of the same
    /// kind; its index entry goes and that of the new object comes.
    pub fn put_object(&mut self, obj: &DynamicObject) -> (r: Result<(), ChainModelError>)
        requires
            old(self).context.wf(),
            obj.wf(),
        ensures
            final(self).context.wf(),
            final(self).context.same_call(&old(self).context),
            match put_result(old(self).rows(), obj.spec_kind(), obj@, written(parts_tree(obj@))) {
                Ok(rows) => r is Ok && final(self).rows() == rows,
                Err(fault) => r matches Err(e) && store_fault(e) == fault && final(self).rows() == old(self).rows(),
            },
            old(self).wf() && obj.valid() && crate::consistency::slot_free(old(self).rows(), obj@) && obj@.uid
                < old(self).context.counter() ==> final(self).wf(),
            r is Ok && obj.valid() ==> text_parsed(stored(final(self).rows(), obj@.uid)) == Ok::<PartsView, StoreFault>(obj@)
                && stored(final(self).rows(), obj@.uid).len() > 0,
    {
        proof {
            if obj.valid() {
                match written(parts_tree(obj@)) {
                    Some(text) => {
                        if put_result(self.rows(), obj.spec_kind(), obj@, Some(text)) is Ok {
                            lemma_put_stored(self.rows(), obj.spec_kind(), obj@, text);
                        }
                    },
                    None => {},
                }
            }
        }
        let uid = obj.uid();
        let key = Self::object_table_key(uid);
        let json_bytes = match obj.to_json() {
            Ok(b) => b,
            Err(msg) => { return Err(ChainModelError::JsonError(msg)); },
        };
        if json_bytes.len() == 0 {
            return Err(ChainModelError::JsonError(String::from_str("empty text")));
        }
        proof {
            if self.wf() && obj.valid() && crate::consistency::slot_free(self.rows(), obj@) && obj@.uid
                < self.context.counter() && put_result(self.rows(), obj.spec_kind(), obj@, Some(json_bytes@)) is Ok {
                crate::consistency::lemma_put_consistent(self.rows(), obj.spec_kind(), obj@, json_bytes@);
            }
        }
        let value = match self.context.get_state_from_key(key.as_str()) {
            Ok(v) => v,
            Err(e) => { return Err(ChainModelError::ContextError(e)); },
        };
        if value.len() == 0 {
            let _ = self.context.put_state_from_key(key.as_str(), json_bytes.as_slice());
            let _ = self.add_index_key(obj);
        } else {
            let old_obj = match DynamicObject::parse(value.as_slice()) {
                Ok(o) => o,
                Err(e) => { return Err(e); },
            };
            if !crate::text::same_text(old_obj.kind(), obj.kind()) {
                return Err(
                    ChainModelError::MismatchedKind {
                        uid,
                        old_kind: String::from_str(old_obj.kind()),
                        new_kind: String::from_str(obj.kind()),
                    },
                );
            }
            let _ = self.delete_index_key(&old_obj);
            let _ = self.add_index_key(obj);
            let _ = self.context.put_state_from_key(key.as_str(), json_bytes.as_slice());
        }
        Ok(())
    }

    /// Whether no other object is indexed under the name of this one: the
    /// index holds nothing there, or the uid of the object itself.
    pub fn slot_is_free(&self, obj: &DynamicObject) -> (r: bool)
        requires
            self.context.wf(),
        ensures
            r == crate::consistency::slot_free(self.rows(), obj@),
    {
        let index_key = Self::object_index_key_by_obj(obj);
        proof {
            reveal_strlit("");
            assert(""@ =~= Seq::<char>::empty());
        }
        let field = match obj.version() {
            Some(v) => v,
            None => "",
        };
        let entry = match self.context.get_state(index_key.as_str(), field) {
            Ok(v) => v,
            Err(_) => { return false; },
        };
        if entry.len() == 0 {
            return true;
        }
        let own = uid_to_be_bytes(obj.uid());
        same_bytes(&entry, &own)
    }

    /// The text stored for a uid.
    pub fn get_raw_object_by_uid(&self, uid: u64) -> (r: Result<Option<Vec<u8>>, ChainModelError>)
        requires
            self.context.wf(),
        ensures
            match r {
                Ok(Some(text)) => text@ == stored(self.rows(), uid) && text@.len() > 0,
                Ok(None) => stored(self.rows(), uid).len() == 0,
                Err(_) => false,
            },
    {
        let key = Self::object_table_key(uid);
        let out = match self.context.get_state_from_key(key.as_str()) {
            Ok(v) => v,
            Err(e) => { return Err(ChainModelError::ContextError(e)); },
        };
        if out.len() == 0 {
            return Ok(None);
        }
        Ok(Some(out))
    }

    /// The object stored for a uid.
    pub fn get_object_by_uid(&self, uid: u64) -> (r: Result<Option<DynamicObject>, ChainModelError>)
        requires
            self.context.wf(),
        ensures
            match r {
                Ok(Some(o)) => stored(self.rows(), uid).len() > 0 && text_parsed(stored(self.rows(), uid)) == Ok::<
                    PartsView,
                    StoreFault,
                >(o@) && o.valid(),
                Ok(None) => stored(self.rows(), uid).len() == 0,
                Err(e) => stored(self.rows(), uid).len() > 0 && text_parsed(stored(self.rows(), uid)) == Err::<
                    PartsView,
                    StoreFault,
                >(store_fault(e)),
            },
    {
        match self.get_raw_object_by_uid(uid) {
            Ok(Some(raw)) => match DynamicObject::parse(raw.as_slice()) {
                Ok(o) => Ok(Some(o)),
                Err(e) => Err(e),
            },
            Ok(None) => Ok(None),
            Err(e) => Err(e),
        }
    }

    /// The text of the object of a type that the index names for a name, a
    /// namespace and a version; the empty namespace and the empty version
    /// where none is given.
    pub fn get_raw_object_by_name_version(
        &self,
        type_meta: &TypeMeta,
        name: &str,
        namespace: Option<&str>,
        version: Option<&str>,
    ) -> (r: Result<Option<Vec<u8>>, ChainModelError>)
        requires
            self.context.wf(),
        ensures
            match named_text(
                self.rows(),
                index_key_of(type_meta@.api_version, type_meta@.kind, or_empty(opt_str(namespace)), name@),
                or_empty(opt_str(version)),
            ) {
                Ok(Some(text)) => r matches Ok(Some(t)) && t@ == text && text.len() > 0,
                Ok(None) => r matches Ok(None),
                Err(fault) => r matches Err(e) && store_fault(e) == fault && e is StateError && e->StateError_0@
                    == broken_entry_text(
                    value_at(
                        self.rows(),
                        index_key_of(type_meta@.api_version, type_meta@.kind, or_empty(opt_str(namespace)), name@),
                        or_empty(opt_str(version)),
                    ),
                ),
            },
    {
        proof {
            reveal_strlit("");
            assert(""@ =~= Seq::<char>::empty());
        }
        let ns = match namespace {
            Some(n) => n,
            None => "",
        };
        let field = match version {
            Some(v) => v,
            None => "",
        };
        let index_key = Self::object_index_key(type_meta, ns, name);
        let raw_uid = match self.context.get_state(index_key.as_str(), field) {
            Ok(v) => v,
            Err(e) => { return Err(ChainModelError::ContextError(e)); },
        };
        if raw_uid.len() == 0 {
            return Ok(None);
        }
        let uid = match Self::be_uid_from_vec(raw_uid) {
            Ok(u) => u,
            Err(e) => { return Err(e); },
        };
        match self.get_raw_object_by_uid(uid) {
            Ok(Some(out)) => Ok(Some(out)),
            Ok(None) => Err(missing(uid)),
            Err(e) => Err(e),
        }
    }

    /// The object of a type that the index names for a name, a namespace and a version.
    pub fn get_object_by_name_version(
        &self,
        type_meta: &TypeMeta,
        name: &str,
        namespace: Option<&str>,
        version: Option<&str>,
    ) -> (r: Result<Option<DynamicObject>, ChainModelError>)
        requires
            self.context.wf(),
        ensures
            match named_text(
                self.rows(),
                index_key_of(type_meta@.api_version, type_meta@.kind, or_empty(opt_str(namespace)), name@),
                or_empty(opt_str(version)),
            ) {
                Ok(Some(text)) => match text_parsed(text) {
                    Ok(p) => r matches Ok(Some(o)) && o@ == p && o.valid(),
                    Err(fault) => r matches Err(e) && store_fault(e) == fault,
                },
                Ok(None) => r matches Ok(None),
                Err(fault) => r matches Err(e) && store_fault(e) == fault,
            },
    {
        match self.get_raw_object_by_name_version(type_meta, name, namespace, version) {
            Ok(Some(raw)) => match DynamicObject::parse(raw.as_slice()) {
                Ok(o) => Ok(Some(o)),
                Err(e) => Err(e),
            },
            Ok(None) => Ok(None),
            Err(e) => Err(e),
        }
    }
}

/// The characters of a string slice that may be missing.
pub open spec fn opt_str(s: Option<&str>) -> Option<Seq<char>> {
    match s {
        Some(t) => Some(t@),
        None => None,
    }
}

/// Appends a text to a list of texts joined by commas.
pub proof fn lemma_joined_push(texts: Seq<Seq<u8>>, text: Seq<u8>)
    ensures
        joined(texts.push(text)) == if texts.len() == 0 {
            text
        } else {
            joined(texts) + seq![44u8] + text
        },
{
    let all = texts.push(text);
    assert(all.drop_last() =~= texts);
    assert(all.last() == text);
    if texts.len() == 0 {
        assert(all[0] == text);
    }
}

/// Reads the uids that the rows of a cursor hold, to the end of the cursor.
fn drain_uids(cursor: &mut ResultSetCursor, uids: &mut Vec<u64>) -> (r: Result<bool, ChainModelError>)
    ensures
        match uids_in(old(cursor).remaining()) {
            Some(found) => r matches Ok(empty_field) && final(uids)@ == old(uids)@ + found && (empty_field <==> exists|i: int|
                0 <= i < old(cursor).remaining().len() && (#[trigger] old(cursor).remaining()[i]).field.len() == 0),
            None => r matches Err(e) && store_fault(e) == StoreFault::State,
        },
{
    let ghost all = cursor.remaining();
    let ghost before = uids@;
    let ghost mut seen: int = 0;
    let mut empty_field = false;
    loop
        invariant
            all == old(cursor).remaining(),
            before == old(uids)@,
            0 <= seen <= all.len(),
            cursor.remaining() == all.subrange(seen, all.len() as int),
            forall|i: int| 0 <= i < seen ==> as_uid((#[trigger] all[i]).value) is Some,
            uids@.len() == before.len() + seen,
            forall|i: int| 0 <= i < before.len() ==> uids@[i] == before[i],
            forall|i: int| 0 <= i < seen ==> uids@[before.len() + i] == as_uid(all[i].value)->0,
            empty_field <==> exists|i: int| 0 <= i < seen && (#[trigger] all[i]).field.len() == 0,
        decreases all.len() - seen,
    {
        let item = match cursor.next_item() {
            Ok(i) => i,
            Err(e) => { return Err(ChainModelError::ResultSetError(e)); },
        };
        match item {
            Some((_, field, v)) => {
                assert(all.subrange(seen, all.len() as int)[0] == all[seen]);
                let uid = match ChainModel::be_uid_from_vec(v) {
                    Ok(u) => u,
                    Err(e) => {
                        assert(as_uid(all[seen].value) is None);
                        return Err(e);
                    },
                };
                uids.push(uid);
                if field.as_str().unicode_len() == 0 {
                    empty_field = true;
                }
                proof {
                    assert(all.subrange(seen, all.len() as int).drop_first() =~= all.subrange(
                        seen + 1,
                        all.len() as int,
                    ));
                    seen = seen + 1;
                }
            },
            None => {
                assert(seen == all.len());
                assert(uids@ =~= before + uids_in(all)->0);
                return Ok(empty_field);
            },
        }
    }
}

impl ChainModel {
    /// The texts of the objects under some uids, as a JSON array; a fault where a uid holds no object.
    pub fn get_raw_objects(&self, uids: &Vec<u64>) -> (r: Result<Vec<u8>, ChainModelError>)
        requires
            self.context.wf(),
        ensures
            match texts_at(self.rows(), uids@) {
                Some(texts) => r matches Ok(text) && text@ == json_array(texts),
                None => r matches Err(e) && store_fault(e) == StoreFault::State,
            },
    {
        let mut ret: Vec<u8> = Vec::new();
        ret.push(91u8);
        let mut i: usize = 0;
        let ghost mut texts: Seq<Seq<u8>> = Seq::empty();
        assert(ret@ =~= seq![91u8] + joined(texts));
        while i < uids.len()
            invariant
                i <= uids.len(),
                self.context.wf(),
                texts.len() == i,
                forall|n: int| 0 <= n < i ==> stored(self.rows(), #[trigger] uids@[n]).len() > 0,
                forall|n: int| 0 <= n < i ==> (#[trigger] texts[n]) == stored(self.rows(), uids@[n]),
                ret@ == seq![91u8] + joined(texts),
            decreases uids.len() - i,
        {
            let mut out = match self.get_raw_object_by_uid(uids[i]) {
                Ok(Some(o)) => o,
                Ok(None) => {
                    assert(stored(self.rows(), uids@[i as int]).len() == 0);
                    return Err(missing(uids[i]));
                },
                Err(e) => { return Err(e); },
            };
            proof {
                lemma_joined_push(texts, out@);
            }
            if i > 0 {
                ret.push(44u8);
            }
            ret.append(&mut out);
            proof {
                let text = stored(self.rows(), uids@[i as int]);
                assert(ret@ =~= seq![91u8] + joined(texts.push(text)));
                texts = texts.push(text);
            }
            i = i + 1;
        }
        ret.push(93u8);
        proof {
            assert(texts_at(self.rows(), uids@) is Some);
            assert(texts =~= texts_at(self.rows(), uids@)->0);
            assert(ret@ =~= json_array(texts));
        }
        Ok(ret)
    }

    /// The objects of a type that the index names for a namespace and a
    /// name, whatever their version: nothing where there is none; the one
    /// object where there is one and it has no version; else the JSON array
    /// of all of them, in the order of the ledger.
    pub fn get_raw_object_by_ns_name(&self, type_meta: &TypeMeta, name: &str, namespace: Option<&str>) -> (r: Result<
        Option<Vec<u8>>,
        ChainModelError,
    >)
        requires
            self.context.wf(),
        ensures
            match listed_text(
                self.rows(),
                index_key_of(type_meta@.api_version, type_meta@.kind, or_empty(opt_str(namespace)), name@),
            ) {
                Ok(Some(text)) => r matches Ok(Some(t)) && t@ == text,
                Ok(None) => r matches Ok(None),
                Err(fault) => r matches Err(e) && store_fault(e) == fault,
            },
    {
        proof {
            reveal_strlit("");
            assert(""@ =~= Seq::<char>::empty());
        }
        let ns = match namespace {
            Some(n) => n,
            None => "",
        };
        let index_key = Self::object_index_key(type_meta, ns, name);
        let mut iter = match self.context.iter_prefix_field(index_key.as_str(), "") {
            Ok(c) => c,
            Err(e) => { return Err(ChainModelError::ContextError(e)); },
        };
        let ghost found = iter.remaining();
        let mut uids: Vec<u64> = Vec::new();
        let has_empty_field = match drain_uids(&mut iter, &mut uids) {
            Ok(b) => b,
            Err(e) => { return Err(e); },
        };
        assert(uids@ =~= uids_in(found)->0);
        if uids.len() == 0 {
            Ok(None)
        } else if uids.len() == 1 && has_empty_field {
            match self.get_raw_object_by_uid(uids[0]) {
                Ok(Some(out)) => Ok(Some(out)),
                Ok(None) => Err(missing(uids[0])),
                Err(e) => Err(e),
            }
        } else {
            match self.get_raw_objects(&uids) {
                Ok(text) => Ok(Some(text)),
                Err(e) => Err(e),
            }
        }
    }

    /// Deletes the object under a uid, with its index entry, and gives it
    /// back; `None`, and nothing changed, where the uid holds no object.
    /// Where the stored text does not read as an object, the delete is
    /// refused and nothing is changed.
    pub fn delete_object_by_uid(&mut self, uid: u64) -> (r: Result<Option<DynamicObject>, ChainModelError>)
        requires
            old(self).context.wf(),
        ensures
            final(self).context.wf(),
            final(self).context.same_call(&old(self).context),
            match delete_result(old(self).rows(), uid) {
                Ok((rows, Some(p))) => r matches Ok(Some(o)) && o@ == p && o.valid() && final(self).rows() == rows,
                Ok((rows, None)) => r matches Ok(None) && final(self).rows() == rows,
                Err(fault) => r matches Err(e) && store_fault(e) == fault && final(self).rows() == old(self).rows(),
            },
            old(self).wf() ==> final(self).wf() && r is Ok && stored(final(self).rows(), uid).len() == 0 && forall|
                other: u64,
            |
                other != uid ==> #[trigger] stored(final(self).rows(), other) == stored(old(self).rows(), other),
    {
        proof {
            if self.wf() && stored(self.rows(), uid).len() > 0 {
                let p = text_parsed(stored(self.rows(), uid))->Ok_0;
                crate::consistency::lemma_remove_consistent(self.rows(), p, uid);
            }
        }
        let key = Self::object_table_key(uid);
        let out = match self.context.get_state_from_key(key.as_str()) {
            Ok(v) => v,
            Err(e) => { return Err(ChainModelError::ContextError(e)); },
        };
        if out.len() == 0 {
            Ok(None)
        } else {
            let ret = match DynamicObject::parse(out.as_slice()) {
                Ok(o) => o,
                Err(e) => { return Err(e); },
            };
            let _ = self.context.delete_state_from_key(key.as_str());
            let _ = self.delete_index_key(&ret);
            Ok(Some(ret))
        }
    }

    /// The uids that the index holds for every kind in a namespace, kind by
    /// kind in the order of registration, each kind in the order of the ledger.
    pub fn get_uid_by_ns(&self, namespace: &str) -> (r: Result<Vec<u64>, ChainModelError>)
        ensures
            match uids_of_kinds(self.rows(), namespace@, 7) {
                Some(uids) => r matches Ok(v) && v@ == uids,
                None => r matches Err(e) && store_fault(e) == StoreFault::State,
            },
    {
        let mut uids: Vec<u64> = Vec::new();
        let kinds = Kind::all();
        let mut i: usize = 0;
        while i < 7
            invariant
                i <= 7,
                kinds@.len() == 7,
                forall|n: int| 0 <= n < 7 ==> kinds@[n] == Kind::at(n),
                uids_of_kinds(self.rows(), namespace@, i as nat) == Some(uids@),
            decreases 7 - i,
        {
            let meta = kinds[i].type_meta();
            let prefix = Self::ns_index_prefix(&meta, namespace);
            let mut range = match self.context.iter_prefix_key(prefix.as_str()) {
                Ok(c) => c,
                Err(e) => { return Err(ChainModelError::ContextError(e)); },
            };
            match drain_uids(&mut range, &mut uids) {
                Ok(_) => {},
                Err(e) => {
                    proof {
                        lemma_uids_of_kinds_fault(self.rows(), namespace@, (i + 1) as nat, 7);
                    }
                    return Err(e);
                },
            }
            i = i + 1;
        }
        Ok(uids)
    }

    /// The uids that the index holds for a type, in the order of the ledger;
    /// those of one namespace where the namespace is not empty.
    pub fn get_uid_by_type(&self, type_meta: &TypeMeta, namespace: &str) -> (r: Result<Vec<u64>, ChainModelError>)
        ensures
            match uids_in(self.rows().filter(key_has_prefix(scan_prefix(type_meta@, namespace@)))) {
                Some(uids) => r matches Ok(v) && v@ == uids,
                None => r matches Err(e) && store_fault(e) == StoreFault::State,
            },
    {
        let mut ret: Vec<u64> = Vec::new();
        let key_prefix = if namespace.unicode_len() == 0 {
            Self::type_prefix(type_meta)
        } else {
            Self::ns_index_prefix(type_meta, namespace)
        };
        let mut range = match self.context.iter_prefix_key(key_prefix.as_str()) {
            Ok(c) => c,
            Err(e) => { return Err(ChainModelError::ContextError(e)); },
        };
        match drain_uids(&mut range, &mut ret) {
            Ok(_) => {},
            Err(e) => { return Err(e); },
        }
        assert(ret@ =~= uids_in(self.rows().filter(key_has_prefix(scan_prefix(type_meta@, namespace@))))->0);
        Ok(ret)
    }
}

/// Where the uids of the first kinds cannot be read, those of more kinds cannot be read either.
pub proof fn lemma_uids_of_kinds_fault(rows: Seq<Row>, namespace: Seq<char>, n: nat, m: nat)
    requires
        n <= m,
        uids_of_kinds(rows, namespace, n) is None,
    ensures
        uids_of_kinds(rows, namespace, m) is None,
    decreases m,
{
    if n < m {
        lemma_uids_of_kinds_fault(rows, namespace, n, (m - 1) as nat);
    }
}

/// After a successful put the uid holds the text that was put.
pub proof fn lemma_put_stored(rows: Seq<Row>, kind: Kind, p: PartsView, text: Seq<u8>)
    requires
        rows_wf(rows),
        put_result(rows, kind, p, Some(text)) is Ok,
    ensures
        stored(put_result(rows, kind, p, Some(text))->Ok_0, p.uid) == text,
        text.len() > 0,
{
    let tkey = table_key_of(p.uid);
    let none = Seq::<char>::empty();
    crate::consistency::lemma_key_kinds(p, p.uid);
    crate::codec::lemma_uid_bytes_roundtrip(p.uid);
    if stored(rows, p.uid).len() == 0 {
        let r1 = put_row(rows, tkey, none, text);
        lemma_put_row(rows, tkey, none, text);
        lemma_put_row(r1, slot_key(p), slot_field(p), uid_bytes(p.uid));
    } else {
        let old = text_parsed(stored(rows, p.uid))->Ok_0;
        let r1 = delete_row(rows, slot_key(old), slot_field(old));
        let r2 = put_row(r1, slot_key(p), slot_field(p), uid_bytes(p.uid));
        lemma_put_row(rows, slot_key(old), slot_field(old), Seq::<u8>::empty());
        lemma_put_row(r1, slot_key(p), slot_field(p), uid_bytes(p.uid));
        lemma_put_row(r2, tkey, none, text);
    }
}

/// Whether two byte strings are the same.
pub fn same_bytes(a: &Vec<u8>, b: &Vec<u8>) -> (r: bool)
    ensures
        r == (a@ == b@),
{
    if a.len() != b.len() {
        return false;
    }
    let mut i: usize = 0;
    while i < a.len()
        invariant
            i <= a.len(),
            a.len() == b.len(),
            forall|n: int| 0 <= n < i ==> a@[n] == b@[n],
        decreases a.len() - i,
    {
        if a[i] != b[i] {
            return false;
        }
        i = i + 1;
    }
    assert(a@ =~= b@);
    true
}

} // verus!
