use vstd::prelude::*;
use crate::json::texts_of;
use crate::objects::dynamic::DynamicObject;
use crate::objects::kinds::Kind;
use crate::objects::parts::PartsView;
use crate::objects::v1::contracts::{contract_spec_of, in_patterns, lemma_contract_spec, patterns_of};
use crate::objects::v1::declare::{implementations, lemma_declare_status};
use crate::objects::v1::namespace::{lemma_namespace_spec, namespace_members};
use crate::objects::v1::record::{lemma_record_spec, record_spec_of};
use crate::text::copy_str;
use crate::utils::textmap::{has_key, TextMap};

verus! {

/// Whether an organization has a say on an object of a kind: the members of
/// a namespace, the organizations named in the execution patterns of a
/// contract, the authors of a record, and those that have implemented a
/// declaration. Nobody has a say on a proposal.
pub open spec fn is_approver(kind: Kind, p: PartsView, org: Seq<char>) -> bool {
    match kind {
        Kind::Namespace => namespace_members(p.spec) matches Some(members) && members.contains(org),
        Kind::Contract => contract_spec_of(p.spec) matches Some(spec) && in_patterns(spec.exec_patterns, org),
        Kind::Record => record_spec_of(p.spec) matches Some(spec) && spec.1.contains(org),
        Kind::DataDeclare => implementations(p.status) matches Some(impls) && has_key(impls, org),
        Kind::FunctionDeclare => implementations(p.status) matches Some(impls) && has_key(impls, org),
        Kind::Proposal => false,
        Kind::GlobalProposal => false,
    }
}

/// Whether every organization that has a say on an object has permitted.
pub open spec fn all_approved(kind: Kind, p: PartsView, permitted: Seq<(Seq<char>, Seq<char>)>) -> bool {
    forall|org: Seq<char>| #[trigger] is_approver(kind, p, org) ==> has_key(permitted, org)
}

/// Whether a list of strings holds a string.
pub fn contains_text(list: &Vec<String>, s: &str) -> (r: bool)
    ensures
        r == texts_of(list@).contains(s@),
{
    let wanted = copy_str(s);
    let mut i: usize = 0;
    while i < list.len()
        invariant
            i <= list.len(),
            wanted@ == s@,
            forall|n: int| 0 <= n < i ==> (#[trigger] texts_of(list@)[n]) != s@,
        decreases list.len() - i,
    {
        if list[i] == wanted {
            assert(texts_of(list@)[i as int] == s@);
            return true;
        }
        i = i + 1;
    }
    false
}

/// Whether every string of a list is a key of a map.
pub fn all_keys(list: &Vec<String>, permitted: &TextMap) -> (r: bool)
    ensures
        r == forall|org: Seq<char>| #[trigger] texts_of(list@).contains(org) ==> has_key(permitted@, org),
{
    let mut i: usize = 0;
    while i < list.len()
        invariant
            i <= list.len(),
            forall|n: int| 0 <= n < i ==> has_key(permitted@, #[trigger] texts_of(list@)[n]),
        decreases list.len() - i,
    {
        if !permitted.contains_key(list[i].as_str()) {
            assert(texts_of(list@).contains(texts_of(list@)[i as int]));
            return false;
        }
        i = i + 1;
    }
    proof {
        assert forall|org: Seq<char>| #[trigger] texts_of(list@).contains(org) implies has_key(permitted@, org) by {
            let n = choose|n: int| 0 <= n < texts_of(list@).len() && texts_of(list@)[n] == org;
            assert(has_key(permitted@, texts_of(list@)[n]));
        }
    }
    true
}

/// Whether some execution pattern names an organization.
pub fn names_in_patterns(patterns: &Vec<Vec<String>>, org: &str) -> (r: bool)
    ensures
        r == in_patterns(patterns_of(patterns@), org@),
{
    let mut i: usize = 0;
    while i < patterns.len()
        invariant
            i <= patterns.len(),
            forall|a: int, b: int|
                0 <= a < i && 0 <= b < patterns_of(patterns@)[a].len() ==> #[trigger] patterns_of(patterns@)[a][b]
                    != org@,
        decreases patterns.len() - i,
    {
        if contains_text(&patterns[i], org) {
            proof {
                let row = texts_of(patterns@[i as int]@);
                let b = choose|b: int| 0 <= b < row.len() && row[b] == org@;
                assert(patterns_of(patterns@)[i as int][b] == org@);
            }
            return true;
        }
        proof {
            let row = texts_of(patterns@[i as int]@);
            assert forall|b: int| 0 <= b < row.len() implies #[trigger] patterns_of(patterns@)[i as int][b] != org@ by {
                if row[b] == org@ {
                    assert(row.contains(org@));
                }
            }
        }
        i = i + 1;
    }
    false
}

/// Whether every organization that an execution pattern names is a key of a map.
pub fn patterns_within(patterns: &Vec<Vec<String>>, permitted: &TextMap) -> (r: bool)
    ensures
        r == forall|org: Seq<char>| #[trigger] in_patterns(patterns_of(patterns@), org) ==> has_key(permitted@, org),
{
    let mut i: usize = 0;
    while i < patterns.len()
        invariant
            i <= patterns.len(),
            forall|a: int, b: int|
                0 <= a < i && 0 <= b < patterns_of(patterns@)[a].len() ==> has_key(
                    permitted@,
                    #[trigger] patterns_of(patterns@)[a][b],
                ),
        decreases patterns.len() - i,
    {
        if !all_keys(&patterns[i], permitted) {
            proof {
                let row = texts_of(patterns@[i as int]@);
                let org = choose|org: Seq<char>| #[trigger] row.contains(org) && !has_key(permitted@, org);
                let b = choose|b: int| 0 <= b < row.len() && row[b] == org;
                assert(patterns_of(patterns@)[i as int][b] == org);
                assert(in_patterns(patterns_of(patterns@), org));
            }
            return false;
        }
        proof {
            let row = texts_of(patterns@[i as int]@);
            assert forall|b: int| 0 <= b < row.len() implies has_key(
                permitted@,
                #[trigger] patterns_of(patterns@)[i as int][b],
            ) by {
                assert(row.contains(row[b]));
            }
        }
        i = i + 1;
    }
    proof {
        assert forall|org: Seq<char>| #[trigger] in_patterns(patterns_of(patterns@), org) implies has_key(
            permitted@,
            org,
        ) by {
            let (a, b) = choose|a: int, b: int|
                0 <= a < patterns_of(patterns@).len() && 0 <= b < patterns_of(patterns@)[a].len()
                    && #[trigger] patterns_of(patterns@)[a][b] == org;
            assert(has_key(permitted@, patterns_of(patterns@)[a][b]));
        }
    }
    true
}

impl DynamicObject {
    /// Whether an organization has a say on the object.
    pub fn has_approver(&self, org: &str) -> (r: bool)
        requires
            self.wf(),
        ensures
            r == is_approver(self.spec_kind(), self@, org@),
    {
        match self {
            DynamicObject::Namespace(o) => {
                proof {
                    lemma_namespace_spec(texts_of(o.spec.members@));
                }
                contains_text(&o.spec.members, org)
            },
            DynamicObject::Contract(o) => {
                proof {
                    lemma_contract_spec(o.spec@);
                }
                names_in_patterns(&o.spec.exec_patterns, org)
            },
            DynamicObject::Record(o) => {
                proof {
                    lemma_record_spec(o.spec.content@, texts_of(o.spec.authors@));
                }
                contains_text(&o.spec.authors, org)
            },
            DynamicObject::DataDeclare(o) => {
                proof {
                    lemma_declare_status(o.status.implementation@);
                }
                o.status.implementation.contains_key(org)
            },
            DynamicObject::FunctionDeclare(o) => {
                proof {
                    lemma_declare_status(o.status.implementation@);
                }
                o.status.implementation.contains_key(org)
            },
            DynamicObject::Proposal(_) => false,
            DynamicObject::GlobalProposal(_) => false,
        }
    }

    /// Whether every organization that has a say on the object is among those that have permitted.
    pub fn approved_by_all(&self, permitted: &TextMap) -> (r: bool)
        requires
            self.wf(),
        ensures
            r == all_approved(self.spec_kind(), self@, permitted@),
    {
        match self {
            DynamicObject::Namespace(o) => {
                proof {
                    lemma_namespace_spec(texts_of(o.spec.members@));
                }
                let r = all_keys(&o.spec.members, permitted);
                proof {
                    if r {
                        assert forall|org: Seq<char>| #[trigger] is_approver(Kind::Namespace, self@, org) implies has_key(
                            permitted@,
                            org,
                        ) by {
                            assert(texts_of(o.spec.members@).contains(org));
                        }
                    } else {
                        let org = choose|org: Seq<char>| #[trigger] texts_of(o.spec.members@).contains(org) && !has_key(permitted@, org);
                        assert(is_approver(Kind::Namespace, self@, org));
                    }
                }
                r
            },
            DynamicObject::Record(o) => {
                proof {
                    lemma_record_spec(o.spec.content@, texts_of(o.spec.authors@));
                }
                let r = all_keys(&o.spec.authors, permitted);
                proof {
                    if r {
                        assert forall|org: Seq<char>| #[trigger] is_approver(Kind::Record, self@, org) implies has_key(
                            permitted@,
                            org,
                        ) by {
                            assert(texts_of(o.spec.authors@).contains(org));
                        }
                    } else {
                        let org = choose|org: Seq<char>| #[trigger] texts_of(o.spec.authors@).contains(org) && !has_key(permitted@, org);
                        assert(is_approver(Kind::Record, self@, org));
                    }
                }
                r
            },
            DynamicObject::Contract(o) => {
                proof {
                    lemma_contract_spec(o.spec@);
                }
                let r = patterns_within(&o.spec.exec_patterns, permitted);
                proof {
                    if r {
                        assert forall|org: Seq<char>| #[trigger] is_approver(Kind::Contract, self@, org) implies has_key(
                            permitted@,
                            org,
                        ) by {
                            assert(in_patterns(patterns_of(o.spec.exec_patterns@), org));
                        }
                    } else {
                        let org = choose|org: Seq<char>| #[trigger] in_patterns(patterns_of(o.spec.exec_patterns@), org) && !has_key(permitted@, org);
                        assert(is_approver(Kind::Contract, self@, org));
                    }
                }
                r
            },
            DynamicObject::DataDeclare(o) => {
                proof {
                    lemma_declare_status(o.status.implementation@);
                }
                let r = keys_within(&o.status.implementation, permitted);
                proof {
                    if r {
                        assert forall|org: Seq<char>| #[trigger] is_approver(Kind::DataDeclare, self@, org) implies has_key(
                            permitted@,
                            org,
                        ) by {
                            assert(has_key(o.status.implementation@, org));
                        }
                    } else {
                        let org = choose|org: Seq<char>| #[trigger] has_key(o.status.implementation@, org) && !has_key(permitted@, org);
                        assert(is_approver(Kind::DataDeclare, self@, org));
                    }
                }
                r
            },
            DynamicObject::FunctionDeclare(o) => {
                proof {
                    lemma_declare_status(o.status.implementation@);
                }
                let r = keys_within(&o.status.implementation, permitted);
                proof {
                    if r {
                        assert forall|org: Seq<char>| #[trigger] is_approver(Kind::FunctionDeclare, self@, org) implies has_key(
                            permitted@,
                            org,
                        ) by {
                            assert(has_key(o.status.implementation@, org));
                        }
                    } else {
                        let org = choose|org: Seq<char>| #[trigger] has_key(o.status.implementation@, org) && !has_key(permitted@, org);
                        assert(is_approver(Kind::FunctionDeclare, self@, org));
                    }
                }
                r
            },
            DynamicObject::Proposal(_) => true,
            DynamicObject::GlobalProposal(_) => true,
        }
    }
}

/// Whether every key of one map is a key of another.
pub fn keys_within(map: &TextMap, permitted: &TextMap) -> (r: bool)
    ensures
        r == forall|org: Seq<char>| #[trigger] has_key(map@, org) ==> has_key(permitted@, org),
{
    let mut i: usize = 0;
    while i < map.len()
        invariant
            i <= map@.len(),
            forall|n: int| 0 <= n < i ==> has_key(permitted@, (#[trigger] map@[n]).0),
        decreases map@.len() - i,
    {
        if !permitted.contains_key(map.key_at(i).as_str()) {
            assert(has_key(map@, map@[i as int].0));
            return false;
        }
        i = i + 1;
    }
    proof {
        assert forall|org: Seq<char>| #[trigger] has_key(map@, org) implies has_key(permitted@, org) by {
            let n = crate::utils::textmap::key_slot(map@, org);
            assert(has_key(permitted@, map@[n].0));
        }
    }
    true
}

} // verus!
