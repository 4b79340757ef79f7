use vstd::prelude::*;
use crate::json::{distinct_keys, lemma_object_view, Json, JsonView};
use crate::text::{
    copy_str, lemma_precedes_irreflexive, lemma_precedes_total, lemma_precedes_transitive, precedes, text_before,
};

verus! {

/// Some pair has this key.
pub open spec fn has_key(pairs: Seq<(Seq<char>, Seq<char>)>, key: Seq<char>) -> bool {
    exists|i: int| 0 <= i < pairs.len() && (#[trigger] pairs[i]).0 == key
}

/// The place of a pair with this key.
pub open spec fn key_slot(pairs: Seq<(Seq<char>, Seq<char>)>, key: Seq<char>) -> int {
    choose|i: int| 0 <= i < pairs.len() && (#[trigger] pairs[i]).0 == key
}

/// No two pairs have the same key.
pub open spec fn unique_keys(pairs: Seq<(Seq<char>, Seq<char>)>) -> bool {
    forall|i: int, j: int| 0 <= i < j < pairs.len() ==> (#[trigger] pairs[i]).0 != (#[trigger] pairs[j]).0
}

/// The keys grow from pair to pair in the order of strings.
pub open spec fn keys_grow(pairs: Seq<(Seq<char>, Seq<char>)>) -> bool {
    forall|i: int, j: int| 0 <= i < j < pairs.len() ==> precedes((#[trigger] pairs[i]).0, (#[trigger] pairs[j]).0)
}

/// The pairs are in the order of their keys, and so no two have the same key.
pub open spec fn sorted_keys(pairs: Seq<(Seq<char>, Seq<char>)>) -> bool {
    keys_grow(pairs) && unique_keys(pairs)
}

/// Where the keys grow, no two pairs have the same key.
pub proof fn lemma_growing_keys_differ(pairs: Seq<(Seq<char>, Seq<char>)>)
    requires
        keys_grow(pairs),
    ensures
        unique_keys(pairs),
{
    assert forall|i: int, j: int| 0 <= i < j < pairs.len() implies (#[trigger] pairs[i]).0 != (#[trigger] pairs[j]).0 by {
        lemma_precedes_irreflexive(pairs[i].0);
    }
}

/// The place of `key` among pairs in the order of their keys: the number of pairs whose key comes before it.
pub open spec fn place(pairs: Seq<(Seq<char>, Seq<char>)>, key: Seq<char>) -> int
    decreases pairs.len(),
{
    if pairs.len() == 0 {
        0
    } else if precedes(pairs.last().0, key) {
        pairs.len() as int
    } else {
        place(pairs.drop_last(), key)
    }
}

/// The keys before the place of `key` come before it, and those from its place on do not.
pub proof fn lemma_place(pairs: Seq<(Seq<char>, Seq<char>)>, key: Seq<char>)
    requires
        keys_grow(pairs),
    ensures
        0 <= place(pairs, key) <= pairs.len(),
        forall|i: int| 0 <= i < place(pairs, key) ==> precedes((#[trigger] pairs[i]).0, key),
        forall|i: int| place(pairs, key) <= i < pairs.len() ==> !precedes((#[trigger] pairs[i]).0, key),
    decreases pairs.len(),
{
    if pairs.len() > 0 {
        let last = pairs.len() - 1;
        if precedes(pairs.last().0, key) {
            assert forall|i: int| 0 <= i < pairs.len() implies precedes((#[trigger] pairs[i]).0, key) by {
                if i < last {
                    assert(precedes(pairs[i].0, pairs[last].0));
                    lemma_precedes_transitive(pairs[i].0, pairs[last].0, key);
                }
            }
        } else {
            let front = pairs.drop_last();
            assert forall|i: int, j: int| 0 <= i < j < front.len() implies precedes(
                (#[trigger] front[i]).0,
                (#[trigger] front[j]).0,
            ) by {
                assert(front[i] == pairs[i] && front[j] == pairs[j]);
            }
            lemma_place(front, key);
            assert forall|i: int| 0 <= i < place(pairs, key) implies precedes((#[trigger] pairs[i]).0, key) by {
                assert(front[i] == pairs[i]);
            }
            assert forall|i: int| place(pairs, key) <= i < pairs.len() implies !precedes((#[trigger] pairs[i]).0, key) by {
                if i < last {
                    assert(front[i] == pairs[i]);
                }
            }
        }
    }
}

/// The pairs after `value` is set under `key`: an existing pair keeps its
/// place, a new one goes to its place in the order of the keys.
pub open spec fn with_pair(pairs: Seq<(Seq<char>, Seq<char>)>, key: Seq<char>, value: Seq<char>) -> Seq<
    (Seq<char>, Seq<char>),
> {
    if has_key(pairs, key) {
        pairs.update(key_slot(pairs, key), (key, value))
    } else {
        pairs.insert(place(pairs, key), (key, value))
    }
}

/// The first `n` of some pairs, set one by one: they come to stand in the order of their keys.
pub open spec fn gathered(pairs: Seq<(Seq<char>, Seq<char>)>, n: nat) -> Seq<(Seq<char>, Seq<char>)>
    decreases n,
{
    if n == 0 || n > pairs.len() {
        Seq::empty()
    } else {
        with_pair(gathered(pairs, (n - 1) as nat), pairs[n - 1].0, pairs[n - 1].1)
    }
}

/// The map that an object of strings stands for: its members in the order
/// of their keys; `None` for anything else, and for an object that has a key twice.
pub open spec fn text_map(tree: JsonView) -> Option<Seq<(Seq<char>, Seq<char>)>> {
    match tree.text_pairs() {
        Some(pairs) => Some(gathered(pairs, pairs.len())),
        None => None,
    }
}

/// The pairs after the pair under `key`, if any, is taken away.
pub open spec fn without_key(pairs: Seq<(Seq<char>, Seq<char>)>, key: Seq<char>) -> Seq<(Seq<char>, Seq<char>)> {
    if has_key(pairs, key) {
        pairs.remove(key_slot(pairs, key))
    } else {
        pairs
    }
}

/// What setting a pair does to the keys.
pub proof fn lemma_with_pair(pairs: Seq<(Seq<char>, Seq<char>)>, key: Seq<char>, value: Seq<char>)
    requires
        sorted_keys(pairs),
    ensures
        sorted_keys(with_pair(pairs, key, value)),
        forall|k: Seq<char>| #[trigger] has_key(with_pair(pairs, key, value), k) == (k == key || has_key(pairs, k)),
{
    let after = with_pair(pairs, key, value);
    if has_key(pairs, key) {
        let at = key_slot(pairs, key);
        assert forall|k: Seq<char>| #[trigger] has_key(after, k) == (k == key || has_key(pairs, k)) by {
            if has_key(after, k) {
                let i = key_slot(after, k);
                if i != at {
                    assert(pairs[i].0 == k);
                }
            }
            if k == key {
                assert(after[at].0 == k);
            } else if has_key(pairs, k) {
                let i = key_slot(pairs, k);
                assert(after[i].0 == k);
            }
        }
        assert forall|i: int, j: int| 0 <= i < j < after.len() implies precedes(
            (#[trigger] after[i]).0,
            (#[trigger] after[j]).0,
        ) by {
            assert(after[i].0 == pairs[i].0 && after[j].0 == pairs[j].0);
        }
    } else {
        let at = place(pairs, key);
        lemma_place(pairs, key);
        assert forall|i: int| 0 <= i < after.len() implies #[trigger] after[i] == (if i < at {
            pairs[i]
        } else if i == at {
            (key, value)
        } else {
            pairs[i - 1]
        }) by {}
        assert forall|k: Seq<char>| #[trigger] has_key(after, k) == (k == key || has_key(pairs, k)) by {
            if has_key(after, k) {
                let i = key_slot(after, k);
                if i < at {
                    assert(pairs[i].0 == k);
                } else if i > at {
                    assert(pairs[i - 1].0 == k);
                }
            }
            if k == key {
                assert(after[at].0 == k);
            } else if has_key(pairs, k) {
                let i = key_slot(pairs, k);
                if i < at {
                    assert(after[i].0 == k);
                } else {
                    assert(after[i + 1].0 == k);
                }
            }
        }
        assert forall|i: int, j: int| 0 <= i < j < after.len() implies precedes(
            (#[trigger] after[i]).0,
            (#[trigger] after[j]).0,
        ) by {
            if j == at {
                assert(precedes(pairs[i].0, key));
            } else if i == at {
                let other = pairs[j - 1];
                assert(!precedes(other.0, key));
                assert(other.0 != key);
                lemma_precedes_total(key, other.0);
            } else {
                let a = if i < at { i } else { i - 1 };
                let b = if j < at { j } else { j - 1 };
                assert(after[i] == pairs[a] && after[j] == pairs[b]);
                assert(precedes(pairs[a].0, pairs[b].0));
            }
        }
        lemma_growing_keys_differ(after);
    }
}

/// What taking a key away does to the keys.
pub proof fn lemma_without_key(pairs: Seq<(Seq<char>, Seq<char>)>, key: Seq<char>)
    requires
        sorted_keys(pairs),
    ensures
        sorted_keys(without_key(pairs, key)),
        forall|k: Seq<char>| #[trigger] has_key(without_key(pairs, key), k) == (k != key && has_key(pairs, k)),
{
    let after = without_key(pairs, key);
    if has_key(pairs, key) {
        let at = key_slot(pairs, key);
        assert forall|i: int| 0 <= i < after.len() implies #[trigger] after[i] == pairs[if i < at { i } else { i + 1 }] by {}
        assert forall|i: int, j: int| 0 <= i < j < after.len() implies precedes(
            (#[trigger] after[i]).0,
            (#[trigger] after[j]).0,
        ) by {
            let a = if i < at { i } else { i + 1 };
            let b = if j < at { j } else { j + 1 };
            assert(after[i] == pairs[a] && after[j] == pairs[b]);
            assert(precedes(pairs[a].0, pairs[b].0));
        }
        lemma_growing_keys_differ(after);
        assert forall|k: Seq<char>| #[trigger] has_key(after, k) == (k != key && has_key(pairs, k)) by {
            if has_key(after, k) {
                let i = key_slot(after, k);
                let j = if i < at { i } else { i + 1 };
                assert(pairs[j].0 == k);
                assert(j != at);
            }
            if k != key && has_key(pairs, k) {
                let i = key_slot(pairs, k);
                let j = if i < at { i } else { i - 1 };
                assert(after[j].0 == k);
            }
        }
    }
}

/// Pairs that stand in the order of their keys stay as they are when they are set one by one.
pub proof fn lemma_gathered_sorted(pairs: Seq<(Seq<char>, Seq<char>)>, n: nat)
    requires
        sorted_keys(pairs),
        n <= pairs.len(),
    ensures
        gathered(pairs, n) == pairs.subrange(0, n as int),
    decreases n,
{
    if n == 0 {
        assert(pairs.subrange(0, 0) =~= Seq::<(Seq<char>, Seq<char>)>::empty());
    } else {
        lemma_gathered_sorted(pairs, (n - 1) as nat);
        let front = pairs.subrange(0, n - 1);
        let key = pairs[n - 1].0;
        if has_key(front, key) {
            let i = key_slot(front, key);
            assert(front[i] == pairs[i]);
            assert(pairs[i].0 != pairs[n - 1].0);
        }
        if front.len() > 0 {
            assert(front.last() == pairs[n - 2]);
            assert(precedes(pairs[n - 2].0, pairs[n - 1].0));
        }
        assert(place(front, key) == front.len());
        assert(front.insert(front.len() as int, pairs[n - 1]) =~= pairs.subrange(0, n as int));
    }
}

/// What is gathered of some pairs stands in the order of its keys and has the keys of the pairs.
pub proof fn lemma_gathered(pairs: Seq<(Seq<char>, Seq<char>)>, n: nat)
    requires
        n <= pairs.len(),
    ensures
        sorted_keys(gathered(pairs, n)),
        forall|k: Seq<char>| #[trigger] has_key(gathered(pairs, n), k) == has_key(pairs.subrange(0, n as int), k),
    decreases n,
{
    let now = gathered(pairs, n);
    let upto = pairs.subrange(0, n as int);
    if n == 0 {
        assert forall|k: Seq<char>| #[trigger] has_key(now, k) == has_key(upto, k) by {}
    } else {
        lemma_gathered(pairs, (n - 1) as nat);
        let before = gathered(pairs, (n - 1) as nat);
        let front = pairs.subrange(0, n - 1);
        lemma_with_pair(before, pairs[n - 1].0, pairs[n - 1].1);
        assert forall|k: Seq<char>| #[trigger] has_key(now, k) == has_key(upto, k) by {
            if has_key(upto, k) {
                let i = key_slot(upto, k);
                if i < n - 1 {
                    assert(front[i].0 == k);
                }
            }
            if has_key(front, k) {
                let i = key_slot(front, k);
                assert(upto[i].0 == k);
            }
            if k == pairs[n - 1].0 {
                assert(upto[n - 1].0 == k);
            }
        }
    }
}

/// The map that an object of strings stands for is in the order of its keys.
pub proof fn lemma_text_map_sorted(tree: JsonView)
    ensures
        text_map(tree) matches Some(m) ==> sorted_keys(m),
{
    if let Some(pairs) = tree.text_pairs() {
        lemma_gathered(pairs, pairs.len());
    }
}

/// Reading back an object of strings gives the pairs.
pub proof fn lemma_text_pairs_roundtrip(pairs: Seq<(Seq<char>, Seq<char>)>)
    requires
        sorted_keys(pairs),
    ensures
        JsonView::of_text_pairs(pairs).text_pairs() == Some(pairs),
        text_map(JsonView::of_text_pairs(pairs)) == Some(pairs),
        JsonView::of_text_pairs(pairs).well_formed(),
{
    let tree = JsonView::of_text_pairs(pairs);
    assert(distinct_keys(tree.members()->0));
    assert(tree.text_pairs()->0 =~= pairs);
    reveal_with_fuel(JsonView::well_formed, 2);
    lemma_gathered_sorted(pairs, pairs.len());
    assert(pairs.subrange(0, pairs.len() as int) =~= pairs);
}

/// A map from strings to strings that keeps its pairs in the order of their keys.
#[derive(Debug)]
pub struct TextMap {
    entries: Vec<(String, String)>,
}

impl View for TextMap {
    type V = Seq<(Seq<char>, Seq<char>)>;

    closed spec fn view(&self) -> Seq<(Seq<char>, Seq<char>)> {
        Seq::new(self.entries@.len(), |i: int| (self.entries@[i].0@, self.entries@[i].1@))
    }
}

impl TextMap {
    /// The pairs stand in the order of their keys, and so no key occurs twice.
    pub open spec fn wf(&self) -> bool {
        sorted_keys(self@)
    }

    /// The map without pairs.
    pub fn new() -> (m: TextMap)
        ensures
            m@ == Seq::<(Seq<char>, Seq<char>)>::empty(),
            m.wf(),
    {
        let m = TextMap { entries: Vec::new() };
        assert(m@ =~= Seq::<(Seq<char>, Seq<char>)>::empty());
        m
    }

    /// The number of pairs.
    pub fn len(&self) -> (n: usize)
        ensures
            n == self@.len(),
    {
        self.entries.len()
    }

    /// The key of the pair at `i`.
    pub fn key_at(&self, i: usize) -> (k: &String)
        requires
            i < self@.len(),
        ensures
            k@ == self@[i as int].0,
    {
        &self.entries[i].0
    }

    /// The value of the pair at `i`.
    pub fn value_at(&self, i: usize) -> (v: &String)
        requires
            i < self@.len(),
        ensures
            v@ == self@[i as int].1,
    {
        &self.entries[i].1
    }

    fn find(&self, key: &str) -> (r: Option<usize>)
        ensures
            r is Some <==> has_key(self@, key@),
            r matches Some(i) ==> i < self@.len() && self@[i as int].0 == key@ && forall|j: int|
                0 <= j < i ==> (#[trigger] self@[j]).0 != key@,
    {
        let k = copy_str(key);
        let mut i: usize = 0;
        while i < self.entries.len()
            invariant
                i <= self.entries.len(),
                k@ == key@,
                forall|j: int| 0 <= j < i ==> (#[trigger] self@[j]).0 != key@,
            decreases self.entries.len() - i,
        {
            if self.entries[i].0 == k {
                assert(self@[i as int].0 == key@);
                return Some(i);
            }
            assert(self@[i as int].0 != key@);
            i = i + 1;
        }
        None
    }

    /// The place of a key among the pairs.
    fn place_of(&self, key: &str) -> (r: usize)
        requires
            self.wf(),
        ensures
            r == place(self@, key@),
            r <= self@.len(),
    {
        proof {
            lemma_place(self@, key@);
        }
        let mut i: usize = self.entries.len();
        let mut found = false;
        assert(self@.subrange(0, i as int) =~= self@);
        while i > 0 && !found
            invariant
                i <= self.entries.len(),
                place(self@, key@) == place(self@.subrange(0, i as int), key@),
                found ==> i > 0 && precedes(self@[i - 1].0, key@),
            decreases i, (if found { 0int } else { 1int }),
        {
            let ghost front = self@.subrange(0, i as int);
            assert(front.last() == self@[i - 1]);
            if text_before(self.entries[i - 1].0.as_str(), key) {
                found = true;
            } else {
                assert(front.drop_last() =~= self@.subrange(0, i - 1));
                i = i - 1;
            }
        }
        proof {
            let front = self@.subrange(0, i as int);
            if found {
                assert(front.last() == self@[i - 1]);
            }
        }
        i
    }

    /// Whether a pair has this key.
    pub fn contains_key(&self, key: &str) -> (r: bool)
        ensures
            r == has_key(self@, key@),
    {
        self.find(key).is_some()
    }

    /// Sets `value` under `key`.
    pub fn insert(&mut self, key: String, value: String)
        requires
            old(self).wf(),
        ensures
            final(self).wf(),
            final(self)@ == with_pair(old(self)@, key@, value@),
    {
        proof {
            lemma_with_pair(self@, key@, value@);
        }
        match self.find(key.as_str()) {
            Some(i) => {
                proof {
                    let at = key_slot(self@, key@);
                    if at < i {
                        assert(self@[at].0 != key@);
                    }
                    if i < at {
                        assert(self@[i as int].0 != self@[at].0);
                    }
                }
                self.entries[i] = (key, value);
                assert(final(self)@ =~= with_pair(old(self)@, key@, value@));
            },
            None => {
                let at = self.place_of(key.as_str());
                self.entries.insert(at, (key, value));
                assert(final(self)@ =~= with_pair(old(self)@, key@, value@));
            },
        }
    }

    /// Takes the pair under `key` away; tells whether there was one.
    pub fn remove(&mut self, key: &str) -> (r: bool)
        requires
            old(self).wf(),
        ensures
            final(self).wf(),
            r == has_key(old(self)@, key@),
            final(self)@ == without_key(old(self)@, key@),
    {
        proof {
            lemma_without_key(self@, key@);
        }
        match self.find(key) {
            Some(i) => {
                proof {
                    let at = key_slot(self@, key@);
                    if at < i {
                        assert(self@[at].0 != key@);
                    }
                    if i < at {
                        assert(self@[i as int].0 != self@[at].0);
                    }
                }
                let _ = self.entries.remove(i);
                assert(final(self)@ =~= without_key(old(self)@, key@));
                true
            },
            None => false,
        }
    }

    /// A copy of the map.
    pub fn copy(&self) -> (r: TextMap)
        ensures
            r@ == self@,
    {
        let mut entries: Vec<(String, String)> = Vec::new();
        let mut i: usize = 0;
        while i < self.entries.len()
            invariant
                i <= self.entries.len(),
                entries.len() == i,
                forall|j: int| 0 <= j < i ==> (#[trigger] entries[j]).0@ == self.entries[j].0@ && entries[j].1@ == self.entries[j].1@,
            decreases self.entries.len() - i,
        {
            entries.push((self.entries[i].0.clone(), self.entries[i].1.clone()));
            i = i + 1;
        }
        let r = TextMap { entries };
        assert(r@ =~= self@);
        r
    }

    /// The object that holds the pairs as strings.
    pub fn to_json(&self) -> (r: Json)
        ensures
            r@ == JsonView::of_text_pairs(self@),
            self.wf() ==> r@.well_formed() && r@.text_pairs() == Some(self@) && text_map(r@) == Some(self@),
    {
        let mut members: Vec<(String, Json)> = Vec::new();
        let mut i: usize = 0;
        while i < self.entries.len()
            invariant
                i <= self.entries.len(),
                members.len() == i,
                forall|j: int| 0 <= j < i ==> (#[trigger] members[j]).0@ == self.entries[j].0@ && members[j].1@ == JsonView::Text(self.entries[j].1@),
            decreases self.entries.len() - i,
        {
            members.push((self.entries[i].0.clone(), Json::Text(self.entries[i].1.clone())));
            i = i + 1;
        }
        let r = Json::object(members);
        proof {
            assert(r@.members()->0 =~= JsonView::of_text_pairs(self@).members()->0);
            if self.wf() {
                lemma_text_pairs_roundtrip(self@);
            }
        }
        r
    }

    /// Reads an object of strings in which no key occurs twice: the pairs
    /// come to stand in the order of their keys.
    pub fn from_json(j: &Json) -> (r: Option<TextMap>)
        ensures
            match r {
                Some(m) => text_map(j@) == Some(m@) && m.wf(),
                None => text_map(j@) is None,
            },
    {
        match j {
            Json::Object(members) => {
                proof {
                    lemma_object_view(*members);
                }
                let mut m = TextMap::new();
                let ghost mut read: Seq<(Seq<char>, Seq<char>)> = Seq::empty();
                let mut i: usize = 0;
                while i < members.len()
                    invariant
                        i <= members.len(),
                        read.len() == i,
                        unique_keys(read),
                        m@ == gathered(read, i as nat),
                        m.wf(),
                        j@.members() is Some,
                        j@.members()->0.len() == members.len(),
                        forall|n: int| 0 <= n < members.len() ==> (#[trigger] j@.members()->0[n]) == (members[n].0@, members[n].1@),
                        forall|n: int| 0 <= n < i ==> (#[trigger] j@.members()->0[n]) == (read[n].0, JsonView::Text(read[n].1)),
                    decreases members.len() - i,
                {
                    match &members[i].1 {
                        Json::Text(s) => {
                            proof {
                                lemma_gathered(read, i as nat);
                                assert(read.subrange(0, i as int) =~= read);
                            }
                            if m.contains_key(members[i].0.as_str()) {
                                proof {
                                    let at = key_slot(read, members[i as int].0@);
                                    assert(j@.members()->0[at].0 == j@.members()->0[i as int].0);
                                }
                                return None;
                            }
                            let ghost before = read;
                            proof {
                                read = read.push((members[i as int].0@, s@));
                                lemma_gathered_prefix(before, read, i as nat);
                                assert forall|a: int, b: int| 0 <= a < b < read.len() implies (#[trigger] read[a]).0 != (
                                #[trigger] read[b]).0 by {
                                    assert(read[a] == before[a]);
                                    if b < i {
                                        assert(read[b] == before[b]);
                                    } else {
                                        assert(before[a].0 != members[i as int].0@);
                                    }
                                }
                            }
                            m.insert(members[i].0.clone(), s.clone());
                        },
                        _ => {
                            assert(!(j@.members()->0[i as int].1 is Text));
                            return None;
                        },
                    }
                    i = i + 1;
                }
                proof {
                    let ms = j@.members()->0;
                    lemma_gathered(read, i as nat);
                    assert(read.subrange(0, i as int) =~= read);
                    lemma_growing_keys_differ(m@);
                    assert forall|a: int, b: int| 0 <= a < b < ms.len() implies ms[a].0 != ms[b].0 by {
                        assert(ms[a].0 == read[a].0);
                        assert(ms[b].0 == read[b].0);
                    }
                    assert(j@.text_pairs()->0 =~= read);
                }
                Some(m)
            },
            _ => None,
        }
    }
}

/// What is gathered of the first pairs does not depend on those that follow.
pub proof fn lemma_gathered_prefix(a: Seq<(Seq<char>, Seq<char>)>, b: Seq<(Seq<char>, Seq<char>)>, n: nat)
    requires
        n <= a.len() <= b.len(),
        forall|i: int| 0 <= i < a.len() ==> a[i] == b[i],
    ensures
        gathered(a, n) == gathered(b, n),
    decreases n,
{
    if n > 0 {
        lemma_gathered_prefix(a, b, (n - 1) as nat);
    }
}

} // verus!
