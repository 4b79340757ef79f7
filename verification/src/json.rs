use vstd::prelude::*;
use crate::text::same_text;

verus! {

/// `serde_json::Value`, the JSON document of the outside crate. It is
/// carried from the reader to `lift` and from `lower` to the writer; the
/// library never looks into it.
#[verifier::external_type_specification]
#[verifier::external_body]
pub struct ExValue(serde_json::Value);

/// `serde_json::Number`, a JSON number of the outside crate. The library
/// asks it for its value as a `u64` and otherwise carries it as it is.
#[verifier::external_type_specification]
#[verifier::external_body]
pub struct ExNumber(serde_json::Number);

/// `serde_json::Error`, what the outside crate reports. The library turns it into its message.
#[verifier::external_type_specification]
#[verifier::external_body]
pub struct ExJsonError(serde_json::Error);

/// A JSON document as a mathematical tree. An object keeps its members in
/// the order in which they are written.
pub enum JsonView {
    Null,
    Bool(bool),
    /// A number that is a `u64`.
    Unsigned(u64),
    /// Any other number.
    Number(serde_json::Number),
    Text(Seq<char>),
    Array(Seq<JsonView>),
    Object(Seq<(Seq<char>, JsonView)>),
}

/// A JSON document held by the library as plain values.
#[derive(Debug)]
pub enum Json {
    Null,
    Bool(bool),
    Number(serde_json::Number),
    Text(String),
    Array(Vec<Json>),
    Object(Vec<(String, Json)>),
}

/// The tree that a document stands for.
pub open spec fn tree_of(j: Json) -> JsonView
    decreases j, 0nat,
{
    match j {
        Json::Null => JsonView::Null,
        Json::Bool(b) => JsonView::Bool(b),
        Json::Number(n) => match number_as_u64(n) {
            Some(u) => JsonView::Unsigned(u),
            None => JsonView::Number(n),
        },
        Json::Text(s) => JsonView::Text(s@),
        Json::Array(items) => JsonView::Array(trees_of(items, items@.len())),
        Json::Object(members) => JsonView::Object(members_of(members, members@.len())),
    }
}

/// The trees of the first `n` items.
pub open spec fn trees_of(items: Vec<Json>, n: nat) -> Seq<JsonView>
    decreases items, n,
{
    if n == 0 || n > items@.len() {
        Seq::empty()
    } else {
        trees_of(items, (n - 1) as nat).push(tree_of(items@[n - 1]))
    }
}

/// The first `n` members, each with the tree of its value.
pub open spec fn members_of(members: Vec<(String, Json)>, n: nat) -> Seq<(Seq<char>, JsonView)>
    decreases members, n,
{
    if n == 0 || n > members@.len() {
        Seq::empty()
    } else {
        members_of(members, (n - 1) as nat).push((members@[n - 1].0@, tree_of(members@[n - 1].1)))
    }
}

impl View for Json {
    type V = JsonView;

    open spec fn view(&self) -> JsonView {
        tree_of(*self)
    }
}

/// The first member of `members` under `key`, if there is one.
pub open spec fn lookup(members: Seq<(Seq<char>, JsonView)>, key: Seq<char>) -> Option<JsonView>
    decreases members.len(),
{
    if members.len() == 0 {
        None
    } else if members[0].0 == key {
        Some(members[0].1)
    } else {
        lookup(members.drop_first(), key)
    }
}

/// No two members have the same key.
pub open spec fn distinct_keys(members: Seq<(Seq<char>, JsonView)>) -> bool {
    forall|i: int, j: int| 0 <= i < j < members.len() ==> members[i].0 != members[j].0
}

impl JsonView {
    /// The member of an object under `key`; `None` for a missing member and for anything but an object.
    pub open spec fn field(self, key: Seq<char>) -> Option<JsonView> {
        match self {
            JsonView::Object(members) => lookup(members, key),
            _ => None,
        }
    }

    /// The characters of a string; `None` for anything else.
    pub open spec fn text(self) -> Option<Seq<char>> {
        match self {
            JsonView::Text(s) => Some(s),
            _ => None,
        }
    }

    /// The value of a number that is a `u64`; `None` for any other number and for anything but a number.
    pub open spec fn unsigned(self) -> Option<u64> {
        match self {
            JsonView::Unsigned(n) => Some(n),
            _ => None,
        }
    }

    /// The items of an array; `None` for anything else.
    pub open spec fn items(self) -> Option<Seq<JsonView>> {
        match self {
            JsonView::Array(items) => Some(items),
            _ => None,
        }
    }

    /// The members of an object; `None` for anything else.
    pub open spec fn members(self) -> Option<Seq<(Seq<char>, JsonView)>> {
        match self {
            JsonView::Object(members) => Some(members),
            _ => None,
        }
    }

    /// Arrays and objects lie in one another no more than `budget` deep.
    pub open spec fn fits(self, budget: nat) -> bool
        decreases self,
    {
        match self {
            JsonView::Array(items) => budget > 0 && forall|i: int|
                0 <= i < items.len() ==> (#[trigger] items[i]).fits((budget - 1) as nat),
            JsonView::Object(members) => budget > 0 && forall|i: int|
                0 <= i < members.len() ==> (#[trigger] members[i]).1.fits((budget - 1) as nat),
            _ => true,
        }
    }

    /// In every object of the tree, no key occurs twice.
    pub open spec fn well_formed(self) -> bool
        decreases self,
    {
        match self {
            JsonView::Array(items) => forall|i: int| 0 <= i < items.len() ==> (#[trigger] items[i]).well_formed(),
            JsonView::Object(members) => {
                &&& distinct_keys(members)
                &&& forall|i: int| 0 <= i < members.len() ==> (#[trigger] members[i]).1.well_formed()
            },
            _ => true,
        }
    }
}

/// What a `serde_json::Value` holds, as a tree.
pub uninterp spec fn value_tree(v: serde_json::Value) -> JsonView;

/// The value of a `serde_json::Number` as a `u64`, where it is one.
pub uninterp spec fn number_as_u64(n: serde_json::Number) -> Option<u64>;

/// The tree that `serde_json` reads from a text; `None` where it reports an error.
pub uninterp spec fn json_decoded(text: Seq<u8>) -> Option<JsonView>;

/// The compact text that `serde_json` writes for a tree; `None` where it reports an error.
pub uninterp spec fn json_encoded(tree: JsonView) -> Option<Seq<u8>>;

/// How deep arrays and objects may lie in one another in a text that `serde_json` reads.
pub const MAX_DEPTH: usize = 127;

/// The text that a tree is stored as: that which `serde_json` writes for
/// it, where the tree is not too deep to be read again.
pub open spec fn written(tree: JsonView) -> Option<Seq<u8>> {
    if tree.fits(MAX_DEPTH as nat) {
        json_encoded(tree)
    } else {
        None
    }
}

/// Reads a JSON text into a `serde_json::Value`.
///
/// Trusted: the body calls `serde_json::from_slice`. The contract gives the
/// outcome its name, `json_decoded`, and adds what the type `Value` shows:
/// a map of it holds each key once.
#[verifier::external_body]
fn value_from_slice(text: &[u8]) -> (r: Result<serde_json::Value, serde_json::Error>)
    ensures
        r is Ok <==> json_decoded(text@) is Some,
        r matches Ok(v) ==> json_decoded(text@) == Some(value_tree(v)) && value_tree(v).well_formed(),
{
    serde_json::from_slice::<serde_json::Value>(text)
}

/// Writes a `serde_json::Value` as compact JSON text.
///
/// Trusted: the body calls `serde_json::to_vec`. The contract gives the
/// outcome its name, `json_encoded`, and claims that `serde_json` reads its
/// own output back as the value it was written from, where arrays and
/// objects lie in one another no deeper than its reader follows them.
#[verifier::external_body]
fn value_to_vec(v: &serde_json::Value) -> (r: Result<Vec<u8>, serde_json::Error>)
    ensures
        r is Ok <==> json_encoded(value_tree(*v)) is Some,
        r matches Ok(text) ==> json_encoded(value_tree(*v)) == Some(text@),
        r matches Ok(text) ==> (value_tree(*v).fits(MAX_DEPTH as nat) ==> json_decoded(text@) == Some(value_tree(*v))),
{
    serde_json::to_vec(v)
}

/// The message of a `serde_json::Error`.
///
/// Trusted: the body calls `to_string` on the error; nothing is claimed of the text.
#[verifier::external_body]
fn error_text(e: &serde_json::Error) -> (r: String) {
    e.to_string()
}

/// Turns a `serde_json::Value` into the library's tree.
///
/// Trusted: the body tells the variants of `Value` apart and moves what
/// each holds; the contract says that the tree holds what the value held.
#[verifier::external_body]
fn lift(v: &serde_json::Value) -> (j: Json)
    ensures
        j@ == value_tree(*v),
{
    match v {
        serde_json::Value::Null => Json::Null,
        serde_json::Value::Bool(b) => Json::Bool(*b),
        serde_json::Value::Number(n) => Json::Number(n.clone()),
        serde_json::Value::String(s) => Json::Text(s.clone()),
        serde_json::Value::Array(a) => Json::Array(a.iter().map(lift).collect()),
        serde_json::Value::Object(o) => Json::Object(o.iter().map(|(k, v)| (k.clone(), lift(v))).collect()),
    }
}

/// Turns the library's tree into a `serde_json::Value`.
///
/// Trusted: the body builds the variant of `Value` for each node. A map of
/// `Value` keeps one entry for each key, so the value holds what the tree
/// holds only where no object of the tree has a key twice.
#[verifier::external_body]
fn lower(j: &Json) -> (v: serde_json::Value)
    ensures
        j@.well_formed() ==> value_tree(v) == j@,
{
    match j {
        Json::Null => serde_json::Value::Null,
        Json::Bool(b) => serde_json::Value::Bool(*b),
        Json::Number(n) => serde_json::Value::Number(n.clone()),
        Json::Text(s) => serde_json::Value::String(s.clone()),
        Json::Array(a) => serde_json::Value::Array(a.iter().map(lower).collect()),
        Json::Object(o) => serde_json::Value::Object(o.iter().map(|(k, v)| (k.clone(), lower(v))).collect()),
    }
}

/// The value of a number as a `u64`.
///
/// Trusted: the body calls `serde_json::Number::as_u64`; the contract names its result.
#[verifier::external_body]
fn number_to_u64(n: &serde_json::Number) -> (r: Option<u64>)
    ensures
        r == number_as_u64(*n),
{
    n.as_u64()
}

/// The number that stands for a `u64`.
///
/// Trusted: the body calls `serde_json::Number::from`; the contract says
/// that `as_u64` gives the `u64` back.
#[verifier::external_body]
fn number_from_u64(n: u64) -> (r: serde_json::Number)
    ensures
        number_as_u64(r) == Some(n),
{
    serde_json::Number::from(n)
}

/// A copy of a number.
///
/// Trusted: the body calls `clone` of `serde_json::Number`; the copy is the same number.
#[verifier::external_body]
fn number_copy(n: &serde_json::Number) -> (r: serde_json::Number)
    ensures
        r == *n,
{
    n.clone()
}

/// `lookup` finds the member at `i` where no earlier member has the key.
pub proof fn lemma_lookup_found(members: Seq<(Seq<char>, JsonView)>, key: Seq<char>, i: int)
    requires
        0 <= i < members.len(),
        members[i].0 == key,
        forall|j: int| 0 <= j < i ==> (#[trigger] members[j]).0 != key,
    ensures
        lookup(members, key) == Some(members[i].1),
    decreases i,
{
    if i > 0 {
        let rest = members.drop_first();
        assert(forall|j: int| 0 <= j < i - 1 ==> (#[trigger] rest[j]) == members[j + 1]);
        lemma_lookup_found(rest, key, i - 1);
    }
}

/// `lookup` finds nothing where no member has the key.
pub proof fn lemma_lookup_missing(members: Seq<(Seq<char>, JsonView)>, key: Seq<char>)
    requires
        forall|j: int| 0 <= j < members.len() ==> (#[trigger] members[j]).0 != key,
    ensures
        lookup(members, key) is None,
    decreases members.len(),
{
    if members.len() > 0 {
        let rest = members.drop_first();
        assert(forall|j: int| 0 <= j < rest.len() ==> (#[trigger] rest[j]) == members[j + 1]);
        lemma_lookup_missing(rest, key);
    }
}

/// What `lookup` finds is one of the members, so parts of a well-formed tree are well-formed.
pub proof fn lemma_lookup_member(members: Seq<(Seq<char>, JsonView)>, key: Seq<char>)
    ensures
        lookup(members, key) matches Some(v) ==> exists|i: int|
            0 <= i < members.len() && (#[trigger] members[i]) == (key, v),
    decreases members.len(),
{
    if members.len() > 0 && members[0].0 != key {
        let rest = members.drop_first();
        lemma_lookup_member(rest, key);
        if let Some(v) = lookup(rest, key) {
            let i = choose|i: int| 0 <= i < rest.len() && (#[trigger] rest[i]) == (key, v);
            assert(members[i + 1] == (key, v));
        }
    } else if members.len() > 0 {
        assert(members[0] == (key, members[0].1));
    }
}

proof fn lemma_members_of(members: Vec<(String, Json)>, n: nat)
    requires
        n <= members@.len(),
    ensures
        members_of(members, n).len() == n,
        forall|j: int| 0 <= j < n ==> (#[trigger] members_of(members, n)[j]) == (members@[j].0@, members@[j].1@),
    decreases n,
{
    if n > 0 {
        lemma_members_of(members, (n - 1) as nat);
    }
}

proof fn lemma_trees_of(items: Vec<Json>, n: nat)
    requires
        n <= items@.len(),
    ensures
        trees_of(items, n).len() == n,
        forall|j: int| 0 <= j < n ==> (#[trigger] trees_of(items, n)[j]) == items@[j]@,
    decreases n,
{
    if n > 0 {
        lemma_trees_of(items, (n - 1) as nat);
    }
}

/// The view of an object, member by member.
pub proof fn lemma_object_view(members: Vec<(String, Json)>)
    ensures
        Json::Object(members)@.members() is Some,
        Json::Object(members)@.members()->0.len() == members@.len(),
        forall|j: int|
            0 <= j < members@.len() ==> (#[trigger] Json::Object(members)@.members()->0[j]) == (
                members@[j].0@,
                members@[j].1@,
            ),
{
    lemma_members_of(members, members@.len());
}

/// The view of an array, item by item.
pub proof fn lemma_array_view(items: Vec<Json>)
    ensures
        Json::Array(items)@.items() is Some,
        Json::Array(items)@.items()->0.len() == items@.len(),
        forall|j: int| 0 <= j < items@.len() ==> (#[trigger] Json::Array(items)@.items()->0[j]) == items@[j]@,
{
    lemma_trees_of(items, items@.len());
}

impl Json {
    /// Reads a JSON text.
    pub fn parse(text: &[u8]) -> (r: Result<Json, String>)
        ensures
            r is Ok <==> json_decoded(text@) is Some,
            r matches Ok(j) ==> json_decoded(text@) == Some(j@) && j@.well_formed(),
    {
        match value_from_slice(text) {
            Ok(v) => Ok(lift(&v)),
            Err(e) => Err(error_text(&e)),
        }
    }

    /// Whether arrays and objects lie in one another no more than `budget` deep.
    pub fn fits(&self, budget: usize) -> (r: bool)
        ensures
            r == self@.fits(budget as nat),
        decreases self,
    {
        match self {
            Json::Array(items) => {
                proof {
                    lemma_array_view(*items);
                }
                if budget == 0 {
                    return false;
                }
                let mut i: usize = 0;
                while i < items.len()
                    invariant
                        i <= items.len(),
                        budget > 0,
                        *self == Json::Array(*items),
                        forall|n: int| 0 <= n < i ==> (#[trigger] items@[n])@.fits((budget - 1) as nat),
                    decreases items.len() - i,
                {
                    assert(decreases_to!(*items => items@[i as int]));
                    assert(decreases_to!(*self => self->Array_0));
                    if !items[i].fits(budget - 1) {
                        proof {
                            lemma_array_view(*items);
                            assert(self@.items()->0[i as int] == items@[i as int]@);
                        }
                        return false;
                    }
                    i = i + 1;
                }
                proof {
                    lemma_array_view(*items);
                    assert forall|n: int| 0 <= n < self@.items()->0.len() implies (#[trigger] self@.items()->0[n]).fits(
                        (budget - 1) as nat,
                    ) by {
                        assert(self@.items()->0[n] == items@[n]@);
                    }
                }
                true
            },
            Json::Object(members) => {
                proof {
                    lemma_object_view(*members);
                }
                if budget == 0 {
                    return false;
                }
                let mut i: usize = 0;
                while i < members.len()
                    invariant
                        i <= members.len(),
                        budget > 0,
                        *self == Json::Object(*members),
                        forall|n: int| 0 <= n < i ==> (#[trigger] members@[n]).1@.fits((budget - 1) as nat),
                    decreases members.len() - i,
                {
                    assert(decreases_to!(*members => members@[i as int]));
                    assert(decreases_to!(*self => self->Object_0));
                    assert(decreases_to!(members@[i as int] => members@[i as int].1));
                    if !members[i].1.fits(budget - 1) {
                        proof {
                            lemma_object_view(*members);
                            assert(self@.members()->0[i as int] == (members@[i as int].0@, members@[i as int].1@));
                        }
                        return false;
                    }
                    i = i + 1;
                }
                proof {
                    lemma_object_view(*members);
                    assert forall|n: int| 0 <= n < self@.members()->0.len() implies (#[trigger] self@.members()->0[n]).1.fits(
                        (budget - 1) as nat,
                    ) by {
                        assert(self@.members()->0[n] == (members@[n].0@, members@[n].1@));
                    }
                }
                true
            },
            _ => true,
        }
    }

    /// Writes the tree as compact JSON text. Of a tree in which an object
    /// has a key twice nothing is said.
    pub fn to_vec(&self) -> (r: Result<Vec<u8>, String>)
        ensures
            self@.well_formed() ==> (r is Ok <==> json_encoded(self@) is Some),
            self@.well_formed() ==> (r matches Ok(text) ==> json_encoded(self@) == Some(text@)),
            self@.well_formed() && self@.fits(MAX_DEPTH as nat) ==> (r matches Ok(text) ==> json_decoded(text@)
                == Some(self@)),
    {
        let v = lower(self);
        match value_to_vec(&v) {
            Ok(text) => Ok(text),
            Err(e) => Err(error_text(&e)),
        }
    }

    /// Writes the tree as the text that it is stored as: the write is
    /// refused where the tree is too deep to be read again. Of a tree in
    /// which an object has a key twice nothing is said.
    pub fn write(&self) -> (r: Result<Vec<u8>, String>)
        ensures
            self@.well_formed() ==> (r is Ok <==> written(self@) is Some),
            self@.well_formed() ==> (r matches Ok(text) ==> written(self@) == Some(text@) && json_decoded(text@)
                == Some(self@)),
    {
        if !self.fits(MAX_DEPTH) {
            return Err(crate::text::copy_str("the document is too deep"));
        }
        self.to_vec()
    }

    /// The member of an object under `key`.
    pub fn get(&self, key: &str) -> (r: Option<&Json>)
        ensures
            match r {
                Some(j) => self@.field(key@) == Some(j@),
                None => self@.field(key@) is None,
            },
    {
        match self {
            Json::Object(members) => {
                let mut i: usize = 0;
                proof {
                    lemma_object_view(*members);
                }
                while i < members.len()
                    invariant
                        i <= members.len(),
                        self@.members() is Some,
                        self@.members()->0.len() == members.len(),
                        forall|j: int| 0 <= j < members.len() ==> (#[trigger] self@.members()->0[j]) == (members[j].0@, members[j].1@),
                        forall|j: int| 0 <= j < i ==> (#[trigger] self@.members()->0[j]).0 != key@,
                    decreases members.len() - i,
                {
                    if same_text(members[i].0.as_str(), key) {
                        proof {
                            lemma_lookup_found(self@.members()->0, key@, i as int);
                        }
                        return Some(&members[i].1);
                    }
                    i = i + 1;
                }
                proof {
                    lemma_lookup_missing(self@.members()->0, key@);
                }
                None
            },
            _ => None,
        }
    }

    /// The characters of a string.
    pub fn as_str(&self) -> (r: Option<&str>)
        ensures
            match r {
                Some(s) => self@.text() == Some(s@),
                None => self@.text() is None,
            },
    {
        match self {
            Json::Text(s) => Some(s.as_str()),
            _ => None,
        }
    }

    /// The value of a number that is a `u64`.
    pub fn as_u64(&self) -> (r: Option<u64>)
        ensures
            r == self@.unsigned(),
    {
        match self {
            Json::Number(n) => number_to_u64(n),
            _ => None,
        }
    }

    /// The number that stands for `n`.
    pub fn from_u64(n: u64) -> (r: Json)
        ensures
            r@ == JsonView::Unsigned(n),
    {
        Json::Number(number_from_u64(n))
    }

    /// The string that holds the characters of `s`.
    pub fn from_text(s: &str) -> (r: Json)
        ensures
            r@ == JsonView::Text(s@),
            r@.well_formed(),
    {
        Json::Text(crate::text::copy_str(s))
    }

    /// A copy of the tree.
    pub fn copy(&self) -> (r: Json)
        ensures
            r@ == self@,
        decreases self,
    {
        match self {
            Json::Null => Json::Null,
            Json::Bool(b) => Json::Bool(*b),
            Json::Number(n) => Json::Number(number_copy(n)),
            Json::Text(s) => Json::Text(s.clone()),
            Json::Array(items) => {
                let mut out: Vec<Json> = Vec::new();
                let mut i: usize = 0;
                while i < items.len()
                    invariant
                        i <= items.len(),
                        out.len() == i,
                        *self == Json::Array(*items),
                        forall|j: int| 0 <= j < i ==> (#[trigger] out[j])@ == items[j]@,
                    decreases items.len() - i,
                {
                    assert(decreases_to!(*items => items@[i as int]));
                    assert(decreases_to!(*self => self->Array_0));
                    out.push(items[i].copy());
                    i = i + 1;
                }
                let r = Json::Array(out);
                proof {
                    lemma_array_view(*items);
                    lemma_array_view(out);
                    assert(r@.items()->0 =~= self@.items()->0);
                }
                r
            },
            Json::Object(members) => {
                let mut out: Vec<(String, Json)> = Vec::new();
                let mut i: usize = 0;
                while i < members.len()
                    invariant
                        i <= members.len(),
                        out.len() == i,
                        *self == Json::Object(*members),
                        forall|j: int| 0 <= j < i ==> (#[trigger] out[j]).0@ == members[j].0@ && out[j].1@ == members[j].1@,
                    decreases members.len() - i,
                {
                    assert(decreases_to!(*members => members@[i as int]));
                    assert(decreases_to!(*self => self->Object_0));
                    assert(decreases_to!(members@[i as int] => members@[i as int].1));
                    out.push((members[i].0.clone(), members[i].1.copy()));
                    i = i + 1;
                }
                let r = Json::Object(out);
                proof {
                    lemma_object_view(*members);
                    lemma_object_view(out);
                    assert(r@.members()->0 =~= self@.members()->0);
                }
                r
            },
        }
    }
}


/// The character sequences of some strings.
pub open spec fn texts_of(v: Seq<String>) -> Seq<Seq<char>> {
    Seq::new(v.len(), |i: int| v[i]@)
}

impl JsonView {
    /// The member under `key`, unless it is missing or `null`.
    pub open spec fn present(self, key: Seq<char>) -> Option<JsonView> {
        match self.field(key) {
            Some(JsonView::Null) => None,
            other => other,
        }
    }

    /// The string under `key`.
    pub open spec fn text_at(self, key: Seq<char>) -> Option<Seq<char>> {
        match self.field(key) {
            Some(v) => v.text(),
            None => None,
        }
    }

    /// The strings of an array of strings; `None` for anything else.
    pub open spec fn texts(self) -> Option<Seq<Seq<char>>> {
        match self {
            JsonView::Array(items) => if forall|i: int| 0 <= i < items.len() ==> (#[trigger] items[i]) is Text {
                Some(Seq::new(items.len(), |i: int| items[i]->Text_0))
            } else {
                None
            },
            _ => None,
        }
    }

    /// The array of the given strings.
    pub open spec fn of_texts(texts: Seq<Seq<char>>) -> JsonView {
        JsonView::Array(Seq::new(texts.len(), |i: int| JsonView::Text(texts[i])))
    }

    /// The members of an object of strings, in order; `None` for anything
    /// else, and for an object that has a key twice.
    pub open spec fn text_pairs(self) -> Option<Seq<(Seq<char>, Seq<char>)>> {
        match self {
            JsonView::Object(members) => if distinct_keys(members) && forall|i: int| 0 <= i < members.len() ==> (#[trigger] members[i]).1 is Text {
                Some(Seq::new(members.len(), |i: int| (members[i].0, members[i].1->Text_0)))
            } else {
                None
            },
            _ => None,
        }
    }

    /// The object of the given strings.
    pub open spec fn of_text_pairs(pairs: Seq<(Seq<char>, Seq<char>)>) -> JsonView {
        JsonView::Object(Seq::new(pairs.len(), |i: int| (pairs[i].0, JsonView::Text(pairs[i].1))))
    }

    /// The members of an object of `u64` numbers, in order; `None` for
    /// anything else, and for an object that has a key twice.
    pub open spec fn uid_pairs(self) -> Option<Seq<(Seq<char>, u64)>> {
        match self {
            JsonView::Object(members) => if distinct_keys(members) && forall|i: int| 0 <= i < members.len() ==> (#[trigger] members[i]).1.unsigned() is Some {
                Some(Seq::new(members.len(), |i: int| (members[i].0, members[i].1.unsigned()->0)))
            } else {
                None
            },
            _ => None,
        }
    }

    /// The object of the given numbers.
    pub open spec fn of_uid_pairs(pairs: Seq<(Seq<char>, u64)>) -> JsonView {
        JsonView::Object(Seq::new(pairs.len(), |i: int| (pairs[i].0, JsonView::Unsigned(pairs[i].1))))
    }
}

/// Reading back an array of strings gives the strings.
pub proof fn lemma_texts_roundtrip(texts: Seq<Seq<char>>)
    ensures
        JsonView::of_texts(texts).texts() == Some(texts),
        JsonView::of_texts(texts).well_formed(),
{
    let tree = JsonView::of_texts(texts);
    assert(tree.texts()->0 =~= texts);
    reveal_with_fuel(JsonView::well_formed, 2);
}

impl Json {
    /// The object with the given members.
    pub fn object(members: Vec<(String, Json)>) -> (r: Json)
        ensures
            r@.members() is Some,
            r@.members()->0.len() == members@.len(),
            forall|j: int| 0 <= j < members@.len() ==> (#[trigger] r@.members()->0[j]) == (members@[j].0@, members@[j].1@),
    {
        proof {
            lemma_object_view(members);
        }
        Json::Object(members)
    }

    /// The member under `key`, unless it is missing or `null`.
    pub fn get_present(&self, key: &str) -> (r: Option<&Json>)
        ensures
            match r {
                Some(j) => self@.present(key@) == Some(j@),
                None => self@.present(key@) is None,
            },
    {
        match self.get(key) {
            Some(Json::Null) => None,
            other => other,
        }
    }

    /// A copy of the string under `key`.
    pub fn get_text(&self, key: &str) -> (r: Option<String>)
        ensures
            match r {
                Some(s) => self@.text_at(key@) == Some(s@),
                None => self@.text_at(key@) is None,
            },
    {
        match self.get(key) {
            Some(v) => match v.as_str() {
                Some(s) => Some(crate::text::copy_str(s)),
                None => None,
            },
            None => None,
        }
    }

    /// The strings of an array of strings.
    pub fn texts(&self) -> (r: Option<Vec<String>>)
        ensures
            match r {
                Some(v) => self@.texts() == Some(texts_of(v@)),
                None => self@.texts() is None,
            },
    {
        match self {
            Json::Array(items) => {
                proof {
                    lemma_array_view(*items);
                }
                let mut out: Vec<String> = Vec::new();
                let mut i: usize = 0;
                while i < items.len()
                    invariant
                        i <= items.len(),
                        out.len() == i,
                        self@.items() is Some,
                        self@.items()->0.len() == items.len(),
                        forall|j: int| 0 <= j < items.len() ==> (#[trigger] self@.items()->0[j]) == items[j]@,
                        forall|j: int| 0 <= j < i ==> (#[trigger] self@.items()->0[j]) == JsonView::Text(out[j]@),
                    decreases items.len() - i,
                {
                    match &items[i] {
                        Json::Text(s) => {
                            out.push(s.clone());
                        },
                        _ => {
                            assert(!(self@.items()->0[i as int] is Text));
                            return None;
                        },
                    }
                    i = i + 1;
                }
                assert(self@.texts()->0 =~= texts_of(out@));
                Some(out)
            },
            _ => None,
        }
    }

    /// The array of the given strings.
    pub fn from_texts(texts: &Vec<String>) -> (r: Json)
        ensures
            r@ == JsonView::of_texts(texts_of(texts@)),
            r@.well_formed(),
    {
        let mut out: Vec<Json> = Vec::new();
        let mut i: usize = 0;
        while i < texts.len()
            invariant
                i <= texts.len(),
                out.len() == i,
                forall|j: int| 0 <= j < i ==> (#[trigger] out[j])@ == JsonView::Text(texts[j]@),
            decreases texts.len() - i,
        {
            out.push(Json::Text(texts[i].clone()));
            i = i + 1;
        }
        proof {
            lemma_array_view(out);
        }
        let r = Json::Array(out);
        proof {
            assert(r@.items()->0 =~= JsonView::of_texts(texts_of(texts@)).items()->0);
            lemma_texts_roundtrip(texts_of(texts@));
        }
        r
    }
}

} // verus!
