use vstd::prelude::*;
use vstd::string::*;
use crate::codec::{pad_left, uid_bytes, uid_to_be_bytes};
use crate::context::{put_row, Context};
use crate::json::written;
use crate::model::or_empty;
use crate::objects::base::BaseObject;
use crate::objects::dynamic::DynamicObject;
use crate::objects::parts::{parts_tree, PartsView};
use crate::text::{decimal, decimal_digits, push_char};

verus! {

/// The key of the plain table for a uid: `t1c_` and the uid in decimal, filled with zeros to eleven digits.
pub open spec fn plain_table_key(uid: u64) -> Seq<char> {
    "t1c_"@ + pad_left(decimal_digits(uid as nat), 11, '0')
}

/// The key of the plain index for an object: `i1c_`, the namespace, empty
/// for an object that lies in none, and the name, with `_` between them.
pub open spec fn plain_index_key(p: PartsView) -> Seq<char> {
    "i1c_"@ + or_empty(p.namespace) + "_"@ + p.name
}

/// The eight bytes of a uid, least significant first.
pub open spec fn uid_le_bytes(uid: u64) -> Seq<u8> {
    uid_bytes(uid).reverse()
}

/// The key of the plain table for an object.
pub fn table_key<O: BaseObject>(obj: &O) -> (key: String)
    ensures
        key@ == plain_table_key(obj@.uid),
{
    plain_key(obj.uid())
}

/// The key of the plain index for an object.
pub fn index_key<O: BaseObject>(obj: &O) -> (key: String)
    ensures
        key@ == plain_index_key(obj@),
{
    let mut key = String::from_str("i1c_");
    match obj.namespace() {
        Some(ns) => {
            key.append(ns);
        },
        None => {
            assert(key@ + Seq::<char>::empty() =~= key@);
        },
    }
    key.append("_");
    key.append(obj.name());
    key
}

/// A uid as eight bytes, least significant first.
pub fn uid_to_le_bytes(uid: u64) -> (bytes: Vec<u8>)
    ensures
        bytes@ == uid_le_bytes(uid),
{
    let be = uid_to_be_bytes(uid);
    let mut bytes: Vec<u8> = Vec::new();
    let mut i: usize = be.len();
    while i > 0
        invariant
            i <= be.len(),
            bytes@.len() == be.len() - i,
            forall|k: int| 0 <= k < bytes@.len() ==> bytes@[k] == be@[be.len() - 1 - k],
        decreases i,
    {
        i = i - 1;
        bytes.push(be[i]);
    }
    assert(bytes@ =~= be@.reverse());
    bytes
}

/// Puts an object into the plain table under its uid and answers with its
/// text. Where the object cannot be written, nothing is put or answered.
pub fn insert_table(ctx: &mut Context, obj: &DynamicObject) -> (r: Result<(), String>)
    requires
        old(ctx).wf(),
        obj.wf(),
    ensures
        final(ctx).wf(),
        final(ctx).counter() == old(ctx).counter(),
        match written(parts_tree(obj@)) {
            Some(text) => r is Ok && final(ctx).rows() == put_row(
                old(ctx).rows(),
                plain_table_key(obj@.uid),
                Seq::<char>::empty(),
                text,
            ) && final(ctx).answer() == Some((true, text)),
            None => r is Err && final(ctx).rows() == old(ctx).rows() && final(ctx).answer() == old(ctx).answer(),
        },
{
    let value = match obj.to_json() {
        Ok(v) => v,
        Err(msg) => { return Err(msg); },
    };
    let key = plain_key(obj.uid());
    let _ = ctx.put_state_from_key(key.as_str(), value.as_slice());
    let _ = ctx.ok(value.as_slice());
    Ok(())
}

/// The key of the plain table for a uid.
fn plain_key(uid: u64) -> (key: String)
    ensures
        key@ == plain_table_key(uid),
{
    let digits = decimal(uid);
    let n = digits.as_str().unicode_len();
    let mut key = String::from_str("t1c_");
    let mut i: usize = n;
    while i < 11
        invariant
            n <= i,
            n < 11 ==> i <= 11,
            n >= 11 ==> i == n,
            key@ == "t1c_"@ + Seq::new((i - n) as nat, |j: int| '0'),
        decreases 11 - i,
    {
        push_char(&mut key, '0');
        i = i + 1;
        assert(key@ =~= "t1c_"@ + Seq::new((i - n) as nat, |j: int| '0'));
    }
    key.append(digits.as_str());
    proof {
        if n >= 11 {
            assert(Seq::new(0nat, |j: int| '0') =~= Seq::<char>::empty());
            assert(key@ =~= "t1c_"@ + digits@);
        } else {
            assert(key@ =~= "t1c_"@ + (Seq::new((11 - n) as nat, |j: int| '0') + digits@));
        }
    }
    key
}

/// Puts the uid of an object into the plain index, under the object's
/// version as the field, and answers with the uid's bytes.
pub fn insert_index(ctx: &mut Context, obj: &DynamicObject)
    requires
        old(ctx).wf(),
    ensures
        final(ctx).wf(),
        final(ctx).counter() == old(ctx).counter(),
        final(ctx).rows() == put_row(
            old(ctx).rows(),
            plain_index_key(obj@),
            or_empty(obj@.version),
            uid_le_bytes(obj@.uid),
        ),
        final(ctx).answer() == Some((true, uid_le_bytes(obj@.uid))),
{
    let mut key = String::from_str("i1c_");
    match obj.namespace() {
        Some(ns) => {
            key.append(ns);
        },
        None => {
            assert(key@ + Seq::<char>::empty() =~= key@);
        },
    }
    key.append("_");
    key.append(obj.name());
    proof {
        reveal_strlit("");
        assert(""@ =~= Seq::<char>::empty());
    }
    let version = match obj.version() {
        Some(v) => v,
        None => "",
    };
    let uid = uid_to_le_bytes(obj.uid());
    let _ = ctx.put_state(key.as_str(), version, uid.as_slice());
    let _ = ctx.ok(uid.as_slice());
}

} // verus!
