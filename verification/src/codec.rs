use vstd::prelude::*;
use vstd::string::*;
use crate::text::push_char;

verus! {

/// The digit of base 62 that stands for `d`: `0` to `9`, then `A` to `Z`, then `a` to `z`.
pub open spec fn base62_char(d: nat) -> char {
    if d < 10 {
        ((d + 48) as u8) as char
    } else if d < 36 {
        ((d + 55) as u8) as char
    } else {
        ((d + 61) as u8) as char
    }
}

/// The number a digit of base 62 stands for; 0 for any other character.
pub open spec fn base62_digit_value(c: char) -> nat {
    let n = c as u32;
    if 48 <= n <= 57 {
        (n - 48) as nat
    } else if 65 <= n <= 90 {
        (n - 55) as nat
    } else if 97 <= n <= 122 {
        (n - 61) as nat
    } else {
        0
    }
}

/// `n` written in base 62, most significant digit first, without leading zeros
/// (`0` itself is the one digit `0`).
pub open spec fn base62_digits(n: nat) -> Seq<char>
    decreases n,
{
    if n < 62 {
        seq![base62_char(n)]
    } else {
        base62_digits(n / 62).push(base62_char(n % 62))
    }
}

/// The number that a string of base 62 digits stands for.
pub open spec fn base62_value(s: Seq<char>) -> nat
    decreases s.len(),
{
    if s.len() == 0 {
        0
    } else {
        base62_value(s.drop_last()) * 62 + base62_digit_value(s.last())
    }
}

/// `s`, with as many `fill` characters put before it as it takes to reach `width`.
pub open spec fn pad_left(s: Seq<char>, width: nat, fill: char) -> Seq<char> {
    if s.len() >= width {
        s
    } else {
        Seq::new((width - s.len()) as nat, |i: int| fill) + s
    }
}

pub proof fn lemma_base62_digit_roundtrip(d: nat)
    requires
        d < 62,
    ensures
        base62_digit_value(base62_char(d)) == d,
{
}

/// Reading back the digits of a number gives the number.
pub proof fn lemma_base62_roundtrip(n: nat)
    ensures
        base62_value(base62_digits(n)) == n,
        base62_digits(n).len() >= 1,
    decreases n,
{
    if n < 62 {
        lemma_base62_digit_roundtrip(n);
        let s = base62_digits(n);
        assert(s.drop_last() =~= Seq::<char>::empty());
        assert(base62_value(s.drop_last()) == 0);
    } else {
        lemma_base62_roundtrip(n / 62);
        lemma_base62_digit_roundtrip(n % 62);
        let s = base62_digits(n);
        assert(s.drop_last() =~= base62_digits(n / 62));
    }
}

/// Leading zeros do not change the number that a digit string stands for.
pub proof fn lemma_base62_padding(s: Seq<char>, k: nat)
    ensures
        base62_value(Seq::new(k, |i: int| '0') + s) == base62_value(s),
    decreases s.len(), k,
{
    let zeros = Seq::new(k, |i: int| '0');
    if s.len() == 0 {
        assert(zeros + s =~= zeros);
        if k > 0 {
            let fewer = Seq::new((k - 1) as nat, |i: int| '0');
            assert(zeros.drop_last() =~= fewer + s);
            lemma_base62_padding(s, (k - 1) as nat);
        }
    } else {
        assert((zeros + s).drop_last() =~= zeros + s.drop_last());
        lemma_base62_padding(s.drop_last(), k);
    }
}

/// A `u64` has at most eleven digits in base 62.
pub proof fn lemma_base62_width(n: nat)
    requires
        n <= u64::MAX,
    ensures
        1 <= base62_digits(n).len() <= 11,
{
    reveal_with_fuel(base62_digits, 12);
}


/// The text that `base62::encode` of the outside crate gives for a `u64`.
///
/// Trusted: the body calls `base62::encode`. Its documentation says that it
/// encodes an unsigned integer in base 62 with the standard digit order
/// (0 to 9, then A to Z, then a to z); `base62_digits` states that.
#[verifier::external_body]
pub(crate) fn base62_encode(n: u64) -> (s: String)
    ensures
        s@ == base62_digits(n as nat),
{
    base62::encode(n)
}

/// The key under which the object with this uid lies in the object table.
pub open spec fn table_key_of(uid: u64) -> Seq<char> {
    "t1c_"@ + pad_left(base62_digits(uid as nat), 11, '0')
}

/// An api version with every `/` turned into `_`, the delimiter of the keys.
pub open spec fn escaped_api_version(api_version: Seq<char>) -> Seq<char> {
    Seq::new(api_version.len(), |i: int| if api_version[i] == '/' { '_' } else { api_version[i] })
}

/// The prefix of the index keys of every object of one kind.
pub open spec fn type_prefix_of(api_version: Seq<char>, kind: Seq<char>) -> Seq<char> {
    "i1c_"@ + escaped_api_version(api_version) + "_"@ + kind + "_"@
}

/// The prefix of the index keys of the objects of one kind in one namespace.
pub open spec fn ns_prefix_of(api_version: Seq<char>, kind: Seq<char>, namespace: Seq<char>) -> Seq<char> {
    type_prefix_of(api_version, kind) + namespace + "_"@
}

/// The key under which an object's name is indexed; its version is the field under that key.
pub open spec fn index_key_of(
    api_version: Seq<char>,
    kind: Seq<char>,
    namespace: Seq<char>,
    name: Seq<char>,
) -> Seq<char> {
    ns_prefix_of(api_version, kind, namespace) + name
}

/// The eight bytes of a uid, most significant first.
pub open spec fn uid_bytes(uid: u64) -> Seq<u8> {
    Seq::new(8, |i: int| ((uid as nat / pow256((7 - i) as nat)) % 256) as u8)
}

/// 256 to the power `e`.
pub open spec fn pow256(e: nat) -> nat
    decreases e,
{
    if e == 0 {
        1
    } else {
        256 * pow256((e - 1) as nat)
    }
}

/// The number that a sequence of bytes stands for, most significant byte first.
pub open spec fn be_value(s: Seq<u8>) -> nat
    decreases s.len(),
{
    if s.len() == 0 {
        0
    } else {
        be_value(s.drop_last()) * 256 + s.last() as nat
    }
}

/// Escapes an api version for use in a key.
pub fn convert_api_version(api_version: &str) -> (r: String)
    ensures
        r@ == escaped_api_version(api_version@),
{
    let mut r = String::new();
    for c in it: api_version.chars()
        invariant
            it.seq() == api_version@,
            r@.len() == it.index(),
            forall|i: int| 0 <= i < r@.len() ==> r@[i] == (if api_version@[i] == '/' { '_' } else { api_version@[i] }),
    {
        push_char(&mut r, if c == '/' { '_' } else { c });
    }
    assert(r@ =~= escaped_api_version(api_version@));
    r
}

/// Builds the table key of a uid: `t1c_` and eleven digits of base 62.
pub fn object_table_key(uid: u64) -> (key: String)
    ensures
        key@ == table_key_of(uid),
        key@.len() == 15,
{
    proof {
        lemma_base62_width(uid as nat);
        reveal_strlit("t1c_");
    }
    let digits = base62_encode(uid);
    let n = digits.as_str().unicode_len();
    let mut key = String::from_str("t1c_");
    let mut i: usize = n;
    while i < 11
        invariant
            n <= i,
            n < 11 ==> i <= 11,
            n >= 11 ==> i == n,
            key@ == "t1c_"@ + Seq::new((i - n) as nat, |j: int| '0'),
        decreases 11 - i,
    {
        push_char(&mut key, '0');
        i = i + 1;
        assert(key@ =~= "t1c_"@ + Seq::new((i - n) as nat, |j: int| '0'));
    }
    key.append(digits.as_str());
    proof {
        if n >= 11 {
            assert(Seq::new(0nat, |j: int| '0') =~= Seq::<char>::empty());
            assert(key@ =~= "t1c_"@ + digits@);
        } else {
            assert(key@ =~= "t1c_"@ + (Seq::new((11 - n) as nat, |j: int| '0') + digits@));
        }
    }
    key
}

/// Builds the prefix of the index keys of one kind.
pub fn type_prefix(api_version: &str, kind: &str) -> (key: String)
    ensures
        key@ == type_prefix_of(api_version@, kind@),
{
    let mut key = String::from_str("i1c_");
    let escaped = convert_api_version(api_version);
    key.append(escaped.as_str());
    key.append("_");
    key.append(kind);
    key.append("_");
    key
}

/// Builds the prefix of the index keys of one kind in one namespace.
pub fn ns_index_prefix(api_version: &str, kind: &str, namespace: &str) -> (key: String)
    ensures
        key@ == ns_prefix_of(api_version@, kind@, namespace@),
{
    let mut key = type_prefix(api_version, kind);
    key.append(namespace);
    key.append("_");
    key
}

/// Builds the index key of a name.
pub fn object_index_key(api_version: &str, kind: &str, namespace: &str, name: &str) -> (key: String)
    ensures
        key@ == index_key_of(api_version@, kind@, namespace@, name@),
{
    let mut key = ns_index_prefix(api_version, kind, namespace);
    key.append(name);
    key
}

/// Writes a uid as eight bytes, most significant first.
pub fn uid_to_be_bytes(uid: u64) -> (bytes: Vec<u8>)
    ensures
        bytes@ == uid_bytes(uid),
{
    let mut bytes: Vec<u8> = Vec::new();
    let mut i: usize = 0;
    let mut divisor: u64 = 0x0100_0000_0000_0000;
    proof {
        reveal_with_fuel(pow256, 9);
    }
    while i < 8
        invariant
            i <= 8,
            bytes@.len() == i,
            i < 8 ==> divisor as nat == pow256((7 - i) as nat),
            i < 8 ==> divisor > 0,
            forall|j: int| 0 <= j < i ==> bytes@[j] == #[trigger] uid_bytes(uid)[j],
        decreases 8 - i,
    {
        let b: u8 = ((uid / divisor) % 256) as u8;
        bytes.push(b);
        proof {
            reveal_with_fuel(pow256, 9);
        }
        if i < 7 {
            divisor = divisor / 256;
        }
        i = i + 1;
    }
    assert(bytes@ =~= uid_bytes(uid));
    bytes
}

/// Reads a uid back from its eight bytes; `None` for any other length.
pub fn uid_from_be_bytes(bytes: &Vec<u8>) -> (r: Option<u64>)
    ensures
        r is Some <==> bytes@.len() == 8,
        r matches Some(uid) ==> uid as nat == be_value(bytes@),
{
    if bytes.len() != 8 {
        return None;
    }
    let mut acc: u64 = 0;
    let mut i: usize = 0;
    proof {
        reveal_with_fuel(pow256, 9);
        assert(bytes@.subrange(0, 0) =~= Seq::<u8>::empty());
    }
    while i < 8
        invariant
            i <= 8,
            bytes@.len() == 8,
            acc as nat == be_value(bytes@.subrange(0, i as int)),
            (acc as nat) < pow256(i as nat),
        decreases 8 - i,
    {
        proof {
            reveal_with_fuel(pow256, 9);
            let next = bytes@.subrange(0, i + 1);
            assert(next.drop_last() =~= bytes@.subrange(0, i as int));
            assert(next.last() == bytes@[i as int]);
        }
        acc = acc * 256 + bytes[i] as u64;
        i = i + 1;
    }
    assert(bytes@.subrange(0, 8) =~= bytes@);
    Some(acc)
}


/// Two uids with the same table key are the same uid.
pub proof fn lemma_table_key_injective(a: u64, b: u64)
    requires
        table_key_of(a) == table_key_of(b),
    ensures
        a == b,
{
    let pa = pad_left(base62_digits(a as nat), 11, '0');
    let pb = pad_left(base62_digits(b as nat), 11, '0');
    let head = "t1c_"@;
    assert(pa =~= (head + pa).subrange(head.len() as int, (head + pa).len() as int));
    assert(pb =~= (head + pb).subrange(head.len() as int, (head + pb).len() as int));
    lemma_padded_value(a as nat);
    lemma_padded_value(b as nat);
}

proof fn lemma_padded_value(n: nat)
    ensures
        base62_value(pad_left(base62_digits(n), 11, '0')) == n,
{
    let d = base62_digits(n);
    lemma_base62_roundtrip(n);
    if d.len() < 11 {
        lemma_base62_padding(d, (11 - d.len()) as nat);
    }
}

/// The first character of every table key is `t`; that of every index key and index prefix is `i`.
pub proof fn lemma_key_heads(uid: u64, api_version: Seq<char>, kind: Seq<char>, namespace: Seq<char>, name: Seq<char>)
    ensures
        table_key_of(uid).len() > 0 && table_key_of(uid)[0] == 't',
        type_prefix_of(api_version, kind).len() > 0 && type_prefix_of(api_version, kind)[0] == 'i',
        ns_prefix_of(api_version, kind, namespace).len() > 0 && ns_prefix_of(api_version, kind, namespace)[0] == 'i',
        index_key_of(api_version, kind, namespace, name).len() > 0 && index_key_of(api_version, kind, namespace, name)[0] == 'i',
{
    reveal_strlit("t1c_");
    reveal_strlit("i1c_");
}

proof fn lemma_pow256_positive(e: nat)
    ensures
        pow256(e) > 0,
    decreases e,
{
    if e > 0 {
        lemma_pow256_positive((e - 1) as nat);
    }
}

proof fn lemma_uid_bytes_prefix(uid: u64, k: nat)
    requires
        k <= 8,
    ensures
        be_value(uid_bytes(uid).subrange(0, k as int)) == uid as nat / pow256((8 - k) as nat),
    decreases k,
{
    let s = uid_bytes(uid);
    let n = uid as nat;
    if k == 0 {
        reveal_with_fuel(pow256, 9);
        assert(s.subrange(0, 0) =~= Seq::<u8>::empty());
        assert(pow256(8) == 0x1_0000_0000_0000_0000);
        assert(n / 0x1_0000_0000_0000_0000 == 0);
        assert(be_value(s.subrange(0, 0)) == 0);
    } else {
        lemma_uid_bytes_prefix(uid, (k - 1) as nat);
        let m = pow256((8 - k) as nat);
        lemma_pow256_positive((8 - k) as nat);
        let part = s.subrange(0, k as int);
        assert(part.drop_last() =~= s.subrange(0, k - 1));
        assert(part.last() == s[k - 1]);
        assert(pow256((8 - (k - 1)) as nat) == 256 * m);
        assert(s[k - 1] as nat == (n / m) % 256);
        vstd::arithmetic::div_mod::lemma_div_denominator(n as int, m as int, 256);
        let q = (n as int) / (m as int);
        assert((m as int) * 256 == 256 * m);
        assert((n as int) / ((256 * m) as int) == q / 256);
        assert(be_value(part.drop_last()) as int == q / 256);
        assert(part.last() as int == q % 256);
        assert(be_value(part) as int == (q / 256) * 256 + q % 256);
        assert(q == (q / 256) * 256 + q % 256);
    }
}

/// Reading back the eight bytes of a uid gives the uid.
pub proof fn lemma_uid_bytes_roundtrip(uid: u64)
    ensures
        uid_bytes(uid).len() == 8,
        be_value(uid_bytes(uid)) == uid as nat,
{
    lemma_uid_bytes_prefix(uid, 8);
    assert(uid_bytes(uid).subrange(0, 8) =~= uid_bytes(uid));
    assert(pow256(0) == 1);
    assert(uid as nat / 1 == uid as nat);
}

/// A uid is never written as no bytes at all, so its index entry is never taken for an absent one.
pub proof fn lemma_uid_bytes_distinct(a: u64, b: u64)
    requires
        uid_bytes(a) == uid_bytes(b),
    ensures
        a == b,
{
    lemma_uid_bytes_roundtrip(a);
    lemma_uid_bytes_roundtrip(b);
}


/// The delimiter of the keys does not occur in a text.
pub open spec fn no_delimiter(s: Seq<char>) -> bool {
    forall|i: int| 0 <= i < s.len() ==> #[trigger] s[i] != '_'
}

/// An api version that the escaping leaves as it is, and in which the delimiter does not occur.
pub open spec fn plain_api_version(s: Seq<char>) -> bool {
    forall|i: int| 0 <= i < s.len() ==> #[trigger] s[i] != '_' && s[i] != '/'
}

proof fn lemma_split(x: Seq<char>, r: Seq<char>, y: Seq<char>, q: Seq<char>)
    requires
        no_delimiter(x),
        no_delimiter(y),
        x + seq!['_'] + r == y + seq!['_'] + q,
    ensures
        x == y,
        r == q,
{
    let s = x + seq!['_'] + r;
    let t = y + seq!['_'] + q;
    assert(s[x.len() as int] == '_');
    assert(t[y.len() as int] == '_');
    if x.len() < y.len() {
        assert(t[x.len() as int] == y[x.len() as int]);
    }
    if y.len() < x.len() {
        assert(s[y.len() as int] == x[y.len() as int]);
    }
    assert(x =~= s.subrange(0, x.len() as int));
    assert(y =~= t.subrange(0, y.len() as int));
    assert(r =~= s.subrange(x.len() as int + 1, s.len() as int));
    assert(q =~= t.subrange(y.len() as int + 1, t.len() as int));
}

/// Index keys do not collide: two keys are the same only where the api
/// version, the kind, the namespace and the name are the same, as long as
/// the delimiter occurs in none of the first three and `/` not in the api versions.
/// A key of the index that begins with the prefix of a kind and a
/// namespace is a key of that kind and namespace, where neither kinds nor
/// namespaces hold the delimiter.
pub proof fn lemma_prefix_names_namespace(
    api: Seq<char>,
    kind: Seq<char>,
    namespace: Seq<char>,
    key_kind: Seq<char>,
    key_namespace: Seq<char>,
    key_name: Seq<char>,
)
    requires
        no_delimiter(kind),
        no_delimiter(key_kind),
        no_delimiter(namespace),
        no_delimiter(key_namespace),
        ns_prefix_of(api, kind, namespace).is_prefix_of(index_key_of(api, key_kind, key_namespace, key_name)),
    ensures
        kind == key_kind,
        namespace == key_namespace,
{
    reveal_strlit("i1c_");
    reveal_strlit("_");
    let bar = seq!['_'];
    assert("_"@ =~= bar);
    let head = "i1c_"@ + escaped_api_version(api) + bar;
    let key = index_key_of(api, key_kind, key_namespace, key_name);
    let prefix = ns_prefix_of(api, kind, namespace);
    let rest = key.subrange(prefix.len() as int, key.len() as int);
    assert(key =~= prefix + rest);
    let a = kind + bar + (namespace + bar + rest);
    let b = key_kind + bar + (key_namespace + bar + key_name);
    assert(prefix + rest =~= head + a);
    assert(key =~= head + b);
    assert(a =~= (head + a).subrange(head.len() as int, (head + a).len() as int));
    assert(b =~= (head + b).subrange(head.len() as int, (head + b).len() as int));
    lemma_split(kind, namespace + bar + rest, key_kind, key_namespace + bar + key_name);
    lemma_split(namespace, rest, key_namespace, key_name);
}

pub proof fn lemma_index_key_injective(
    api1: Seq<char>,
    kind1: Seq<char>,
    namespace1: Seq<char>,
    name1: Seq<char>,
    api2: Seq<char>,
    kind2: Seq<char>,
    namespace2: Seq<char>,
    name2: Seq<char>,
)
    requires
        plain_api_version(api1),
        plain_api_version(api2),
        no_delimiter(kind1),
        no_delimiter(kind2),
        no_delimiter(namespace1),
        no_delimiter(namespace2),
        index_key_of(api1, kind1, namespace1, name1) == index_key_of(api2, kind2, namespace2, name2),
    ensures
        api1 == api2,
        kind1 == kind2,
        namespace1 == namespace2,
        name1 == name2,
{
    reveal_strlit("i1c_");
    reveal_strlit("_");
    let head = "i1c_"@;
    let bar = seq!['_'];
    assert("_"@ =~= bar);
    assert(escaped_api_version(api1) =~= api1);
    assert(escaped_api_version(api2) =~= api2);
    let k1 = index_key_of(api1, kind1, namespace1, name1);
    let k2 = index_key_of(api2, kind2, namespace2, name2);
    let r1 = api1 + bar + (kind1 + bar + (namespace1 + bar + name1));
    let r2 = api2 + bar + (kind2 + bar + (namespace2 + bar + name2));
    assert(k1 =~= head + r1);
    assert(k2 =~= head + r2);
    assert(r1 =~= (head + r1).subrange(4, (head + r1).len() as int));
    assert(r2 =~= (head + r2).subrange(4, (head + r2).len() as int));
    lemma_split(api1, kind1 + bar + (namespace1 + bar + name1), api2, kind2 + bar + (namespace2 + bar + name2));
    lemma_split(kind1, namespace1 + bar + name1, kind2, namespace2 + bar + name2);
    lemma_split(namespace1, name1, namespace2, name2);
}

} // verus!
