use vstd::prelude::*;

verus! {

/// A character that may occur in a name: a lower-case letter, a digit or a hyphen.
pub open spec fn is_name_char(c: char) -> bool {
    ('a' <= c && c <= 'z') || ('0' <= c && c <= '9') || c == '-'
}

/// The naming grammar of stored objects, after the labels of RFC 1035:
/// 1 to 63 characters, each a lower-case letter, a digit or a hyphen; the
/// first a letter; the last no hyphen.
pub open spec fn valid_name(s: Seq<char>) -> bool {
    &&& 1 <= s.len() <= 63
    &&& forall|i: int| 0 <= i < s.len() ==> is_name_char(#[trigger] s[i])
    &&& 'a' <= s[0] && s[0] <= 'z'
    &&& s[s.len() - 1] != '-'
}

/// A name that follows the grammar holds no delimiter of the keys.
pub proof fn lemma_valid_name_plain(s: Seq<char>)
    requires
        valid_name(s),
    ensures
        crate::codec::no_delimiter(s),
        s.len() > 0,
{
    assert forall|i: int| 0 <= i < s.len() implies #[trigger] s[i] != '_' by {
        assert(is_name_char(s[i]));
    }
}

/// Decides the naming grammar.
pub fn is_valid_rfc_1035(name: &str) -> (ok: bool)
    ensures
        ok == valid_name(name@),
{
    let mut count: usize = 0;
    let mut first: char = '-';
    let mut last: char = '-';
    for c in it: name.chars()
        invariant
            it.seq() == name@,
            count == it.index(),
            count <= 63,
            forall|i: int| 0 <= i < count ==> is_name_char(#[trigger] name@[i]),
            count > 0 ==> first == name@[0] && last == name@[count - 1],
    {
        let allowed = ('a' <= c && c <= 'z') || ('0' <= c && c <= '9') || c == '-';
        if !allowed || count == 63 {
            return false;
        }
        if count == 0 {
            first = c;
        }
        last = c;
        count = count + 1;
    }
    count > 0 && 'a' <= first && first <= 'z' && last != '-'
}

} // verus!
