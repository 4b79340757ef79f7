use vstd::prelude::*;
use vstd::string::*;
use crate::errors::DeserializeError;
use crate::json::{
    distinct_keys, json_decoded, lemma_array_view, lemma_lookup_found, lemma_lookup_member, lemma_object_view,
    Json, JsonView,
};
use crate::objects::kinds::Kind;
use crate::objects::meta::{ProposalMetadata, TypeMeta};
use crate::objects::parts::{
    check_parts, fault_of, lemma_lookup_one, lemma_parts_roundtrip, lemma_parts_well_formed,
    lemma_spec_well_formed, opt_tree, parts_fault, parts_of, parts_tree, read_all, ParseFault, Parts, PartsView,
};
use crate::text::same_text;
use crate::utils::textmap::{lemma_text_pairs_roundtrip, sorted_keys, text_map, TextMap};

verus! {

/// The action of making an object.
#[derive(Debug)]
pub struct CreateObjectAction {
    /// The object to make, in its JSON form.
    pub object: Json,
}

/// The action of putting a new object in the place of one that exists.
#[derive(Debug)]
pub struct UpdateObjectAction {
    /// The uid of the object to replace.
    pub uid: u64,
    /// The object to put in its place, in its JSON form.
    pub object: Json,
}

/// The action of deleting an object.
#[derive(Debug)]
pub struct DeleteObjectAction {
    /// The uid of the object to delete.
    pub uid: u64,
}

/// One action of a proposal.
#[derive(Debug)]
pub enum ProposalAction {
    Create(CreateObjectAction),
    Update(UpdateObjectAction),
    Delete(DeleteObjectAction),
}

/// What a proposal proposes: its actions, in the order in which they are to be carried out.
#[derive(Debug)]
pub struct ProposalSpec {
    pub actions: Vec<ProposalAction>,
}

/// Where a proposal stands in its life.
#[derive(Clone, Copy, Debug, PartialEq, Eq, Structural)]
pub enum ProposalStage {
    /// It may be permitted, committed or revoked.
    Active,
    /// It was committed.
    Submitted,
    /// It was revoked.
    Revoked,
}

impl ProposalStage {
    pub fn is_active(&self) -> (r: bool)
        ensures
            r == (*self is Active),
    {
        matches!(self, ProposalStage::Active)
    }

    pub fn is_submitted(&self) -> (r: bool)
        ensures
            r == (*self is Submitted),
    {
        matches!(self, ProposalStage::Submitted)
    }

    pub fn is_revoked(&self) -> (r: bool)
        ensures
            r == (*self is Revoked),
    {
        matches!(self, ProposalStage::Revoked)
    }
}

/// What carrying out an action has made of an object.
#[derive(Debug)]
pub enum ObjectByAction {
    /// The object that was made.
    Create(Json),
    /// The object as it was and as it is.
    Update { old: Json, updated: Json },
    /// The object that was deleted.
    Delete(Json),
}

/// The state of a proposal.
#[derive(Debug)]
pub struct ProposalStatus {
    pub stage: ProposalStage,
    /// The organizations that have permitted the proposal, each with its remark.
    pub permission: TextMap,
    /// What the actions have made, once the proposal is committed.
    pub results: Option<Vec<ObjectByAction>>,
}

/// A proposal in a namespace.
#[derive(Debug)]
pub struct Proposal {
    pub type_meta: TypeMeta,
    pub metadata: ProposalMetadata,
    pub spec: ProposalSpec,
    pub status: ProposalStatus,
}

/// An action as mathematical values.
pub enum ActionView {
    Create { object: JsonView },
    Update { uid: u64, object: JsonView },
    Delete { uid: u64 },
}

/// The result of an action as mathematical values.
pub enum OutcomeView {
    Create(JsonView),
    Update { old: JsonView, updated: JsonView },
    Delete(JsonView),
}

/// The state of a proposal as mathematical values.
pub struct StatusView {
    pub stage: ProposalStage,
    pub permission: Seq<(Seq<char>, Seq<char>)>,
    pub results: Option<Seq<OutcomeView>>,
}

impl View for ProposalAction {
    type V = ActionView;

    open spec fn view(&self) -> ActionView {
        match self {
            ProposalAction::Create(it) => ActionView::Create { object: it.object@ },
            ProposalAction::Update(it) => ActionView::Update { uid: it.uid, object: it.object@ },
            ProposalAction::Delete(it) => ActionView::Delete { uid: it.uid },
        }
    }
}

impl View for ObjectByAction {
    type V = OutcomeView;

    open spec fn view(&self) -> OutcomeView {
        match self {
            ObjectByAction::Create(j) => OutcomeView::Create(j@),
            ObjectByAction::Update { old, updated } => OutcomeView::Update { old: old@, updated: updated@ },
            ObjectByAction::Delete(j) => OutcomeView::Delete(j@),
        }
    }
}

/// The actions as mathematical values.
pub open spec fn actions_of(actions: Seq<ProposalAction>) -> Seq<ActionView> {
    Seq::new(actions.len(), |i: int| actions[i]@)
}

/// The results as mathematical values.
pub open spec fn outcomes_of(results: Option<Vec<ObjectByAction>>) -> Option<Seq<OutcomeView>> {
    match results {
        Some(list) => Some(Seq::new(list@.len(), |i: int| list@[i]@)),
        None => None,
    }
}

impl View for ProposalStatus {
    type V = StatusView;

    open spec fn view(&self) -> StatusView {
        StatusView { stage: self.stage, permission: self.permission@, results: outcomes_of(self.results) }
    }
}

impl ActionView {
    /// The JSON in an action has no key twice in any object.
    pub open spec fn well_formed(self) -> bool {
        match self {
            ActionView::Create { object } => object.well_formed(),
            ActionView::Update { uid, object } => object.well_formed(),
            ActionView::Delete { uid } => true,
        }
    }
}

impl OutcomeView {
    /// The JSON in a result has no key twice in any object.
    pub open spec fn well_formed(self) -> bool {
        match self {
            OutcomeView::Create(j) => j.well_formed(),
            OutcomeView::Update { old, updated } => old.well_formed() && updated.well_formed(),
            OutcomeView::Delete(j) => j.well_formed(),
        }
    }
}

impl StatusView {
    /// No organization is named twice, and the JSON in the results has no key twice in any object.
    pub open spec fn well_formed(self) -> bool {
        &&& sorted_keys(self.permission)
        &&& self.results matches Some(list) ==> forall|i: int| 0 <= i < list.len() ==> (#[trigger] list[i]).well_formed()
    }

    /// The state of a proposal that has just been made.
    pub open spec fn initial() -> StatusView {
        StatusView { stage: ProposalStage::Active, permission: Seq::empty(), results: None }
    }

    /// The state that a proposal is taken to have where its JSON form names none.
    pub open spec fn missing() -> StatusView {
        StatusView { stage: ProposalStage::Revoked, permission: Seq::empty(), results: None }
    }
}

/// All actions are well-formed.
pub open spec fn actions_well_formed(actions: Seq<ActionView>) -> bool {
    forall|i: int| 0 <= i < actions.len() ==> (#[trigger] actions[i]).well_formed()
}

/// The JSON form of an action: an object with one member, named after the
/// kind of action, which holds what the action is given.
pub open spec fn action_tree(a: ActionView) -> JsonView {
    match a {
        ActionView::Create { object } => JsonView::Object(
            seq![("create"@, JsonView::Object(seq![("object"@, object)]))],
        ),
        ActionView::Update { uid, object } => JsonView::Object(
            seq![("update"@, JsonView::Object(seq![("uid"@, JsonView::Unsigned(uid)), ("object"@, object)]))],
        ),
        ActionView::Delete { uid } => JsonView::Object(
            seq![("delete"@, JsonView::Object(seq![("uid"@, JsonView::Unsigned(uid))]))],
        ),
    }
}

/// The one member of an object that has exactly one.
pub open spec fn sole_member(j: JsonView) -> Option<(Seq<char>, JsonView)> {
    match j {
        JsonView::Object(members) => if members.len() == 1 {
            Some(members[0])
        } else {
            None
        },
        _ => None,
    }
}

/// The uid under `uid`, which must be there.
pub open spec fn uid_at(j: JsonView) -> Option<u64> {
    match j.field("uid"@) {
        Some(v) => v.unsigned(),
        None => None,
    }
}

/// The action that a JSON value stands for.
pub open spec fn action_of(j: JsonView) -> Option<ActionView> {
    match sole_member(j) {
        Some((tag, body)) => if tag == "create"@ {
            match body.field("object"@) {
                Some(object) => Some(ActionView::Create { object }),
                None => None,
            }
        } else if tag == "update"@ {
            match (uid_at(body), body.field("object"@)) {
                (Some(uid), Some(object)) => Some(ActionView::Update { uid, object }),
                _ => None,
            }
        } else if tag == "delete"@ {
            match uid_at(body) {
                Some(uid) => Some(ActionView::Delete { uid }),
                None => None,
            }
        } else {
            None
        },
        None => None,
    }
}

/// The JSON form of the result of an action.
pub open spec fn outcome_tree(o: OutcomeView) -> JsonView {
    match o {
        OutcomeView::Create(j) => JsonView::Object(seq![("create"@, j)]),
        OutcomeView::Update { old, updated } => JsonView::Object(
            seq![("update"@, JsonView::Object(seq![("old"@, old), ("updated"@, updated)]))],
        ),
        OutcomeView::Delete(j) => JsonView::Object(seq![("delete"@, j)]),
    }
}

/// The result that a JSON value stands for.
pub open spec fn outcome_of(j: JsonView) -> Option<OutcomeView> {
    match sole_member(j) {
        Some((tag, body)) => if tag == "create"@ {
            Some(OutcomeView::Create(body))
        } else if tag == "update"@ {
            match (body.field("old"@), body.field("updated"@)) {
                (Some(old), Some(updated)) => Some(OutcomeView::Update { old, updated }),
                _ => None,
            }
        } else if tag == "delete"@ {
            Some(OutcomeView::Delete(body))
        } else {
            None
        },
        None => None,
    }
}

/// The name of a stage.
pub open spec fn stage_name(stage: ProposalStage) -> Seq<char> {
    match stage {
        ProposalStage::Active => "Active"@,
        ProposalStage::Submitted => "Submitted"@,
        ProposalStage::Revoked => "Revoked"@,
    }
}

/// The stage of a name.
pub open spec fn stage_of(name: Seq<char>) -> Option<ProposalStage> {
    if name == "Active"@ {
        Some(ProposalStage::Active)
    } else if name == "Submitted"@ {
        Some(ProposalStage::Submitted)
    } else if name == "Revoked"@ {
        Some(ProposalStage::Revoked)
    } else {
        None
    }
}

/// The tree of the results: `null` where there are none yet.
pub open spec fn results_tree(results: Option<Seq<OutcomeView>>) -> JsonView {
    match results {
        Some(list) => JsonView::Array(Seq::new(list.len(), |i: int| outcome_tree(list[i]))),
        None => JsonView::Null,
    }
}

/// The results that the state of a proposal names: none where the member is missing or `null`.
pub open spec fn results_in(status: JsonView) -> Option<Option<Seq<OutcomeView>>> {
    match status.present("results"@) {
        Some(JsonView::Array(items)) => match read_all(items, |j: JsonView| outcome_of(j)) {
            Some(list) => Some(Some(list)),
            None => None,
        },
        Some(_) => None,
        None => Some(None),
    }
}

/// The tree under `status` of a proposal.
pub open spec fn status_tree(s: StatusView) -> JsonView {
    JsonView::Object(
        seq![
            ("stage"@, JsonView::Text(stage_name(s.stage))),
            ("permission"@, JsonView::of_text_pairs(s.permission)),
            ("results"@, results_tree(s.results)),
        ],
    )
}

/// The state that the `status` of a proposal names.
pub open spec fn status_of(status: Option<JsonView>) -> Option<StatusView> {
    match status {
        Some(s) => match (s.text_at("stage"@), s.field("permission"@), results_in(s)) {
            (Some(name), Some(pairs), Some(results)) => match (stage_of(name), text_map(pairs)) {
                (Some(stage), Some(permission)) => Some(StatusView { stage, permission, results }),
                _ => None,
            },
            _ => None,
        },
        None => Some(StatusView::missing()),
    }
}

/// The state that a `status` names holds those who have permitted in the order of their names.
pub proof fn lemma_status_sorted(status: Option<JsonView>)
    ensures
        status_of(status) matches Some(s) ==> sorted_keys(s.permission),
{
    match status {
        Some(s) => {
            if let Some(pairs) = s.field("permission"@) {
                crate::utils::textmap::lemma_text_map_sorted(pairs);
            }
        },
        None => {},
    }
}

/// The tree under `spec` of a proposal.
pub open spec fn proposal_spec_tree(actions: Seq<ActionView>) -> JsonView {
    JsonView::Object(seq![("actions"@, JsonView::Array(Seq::new(actions.len(), |i: int| action_tree(actions[i]))))])
}

/// The actions that the `spec` of a proposal names.
pub open spec fn proposal_actions(spec: JsonView) -> Option<Seq<ActionView>> {
    match spec.field("actions"@) {
        Some(JsonView::Array(items)) => read_all(items, |j: JsonView| action_of(j)),
        _ => None,
    }
}

/// The parts of a proposal; `namespace` is `None` for a global one.
pub open spec fn proposal_parts(
    api_version: Seq<char>,
    kind: Seq<char>,
    name: Seq<char>,
    namespace: Option<Seq<char>>,
    uid: u64,
    creator: Seq<char>,
    actions: Seq<ActionView>,
    status: StatusView,
) -> PartsView {
    PartsView {
        api_version,
        kind,
        name,
        namespace,
        version: None,
        uid,
        creator: Some(creator),
        annotations: None,
        spec: proposal_spec_tree(actions),
        status: Some(status_tree(status)),
    }
}

/// The creator that the parts name: the empty string where they name none.
pub open spec fn creator_of(p: PartsView) -> Seq<char> {
    match p.creator {
        Some(c) => c,
        None => Seq::empty(),
    }
}

/// What reading a proposal of the given kind from a JSON object gives.
pub open spec fn proposal_parsed(kind: Kind, j: JsonView) -> Result<PartsView, ParseFault> {
    match parts_of(j) {
        Some(p) => match (proposal_actions(p.spec), status_of(p.status)) {
            (Some(actions), Some(status)) => if kind is Proposal && p.namespace is None {
                Err(ParseFault::Malformed)
            } else {
                match parts_fault(kind, p) {
                    Some(fault) => Err(fault),
                    None => Ok(
                        proposal_parts(
                            p.api_version,
                            p.kind,
                            p.name,
                            if kind is Proposal {
                                p.namespace
                            } else {
                                None
                            },
                            p.uid,
                            creator_of(p),
                            actions,
                            status,
                        ),
                    ),
                }
            },
            _ => Err(ParseFault::Malformed),
        },
        None => Err(ParseFault::Malformed),
    }
}

impl View for Proposal {
    type V = PartsView;

    open spec fn view(&self) -> PartsView {
        proposal_parts(
            self.type_meta.api_version@,
            self.type_meta.kind@,
            self.metadata.name@,
            Some(self.metadata.namespace@),
            self.metadata.uid,
            self.metadata.creator@,
            actions_of(self.spec.actions@),
            self.status@,
        )
    }
}

/// Reading a written action gives the action back.
pub proof fn lemma_action(a: ActionView)
    ensures
        action_of(action_tree(a)) == Some(a),
        a.well_formed() ==> action_tree(a).well_formed(),
{
    reveal_strlit("create");
    reveal_strlit("update");
    reveal_strlit("delete");
    reveal_strlit("uid");
    reveal_strlit("object");
    assert("create"@[0] == 'c' && "update"@[0] == 'u' && "delete"@[0] == 'd');
    assert("uid"@.len() == 3 && "object"@.len() == 6);
    reveal_with_fuel(JsonView::well_formed, 3);
    match a {
        ActionView::Create { object } => {
            lemma_lookup_one("object"@, object, "object"@);
            let body = seq![("object"@, object)];
            assert(distinct_keys(body));
        },
        ActionView::Update { uid, object } => {
            let body = seq![("uid"@, JsonView::Unsigned(uid)), ("object"@, object)];
            lemma_lookup_found(body, "uid"@, 0);
            lemma_lookup_found(body, "object"@, 1);
            assert(distinct_keys(body));
        },
        ActionView::Delete { uid } => {
            lemma_lookup_one("uid"@, JsonView::Unsigned(uid), "uid"@);
            let body = seq![("uid"@, JsonView::Unsigned(uid))];
            assert(distinct_keys(body));
        },
    }
}

/// Reading a written result gives the result back.
pub proof fn lemma_outcome(o: OutcomeView)
    ensures
        outcome_of(outcome_tree(o)) == Some(o),
        o.well_formed() ==> outcome_tree(o).well_formed(),
{
    reveal_strlit("create");
    reveal_strlit("update");
    reveal_strlit("delete");
    reveal_strlit("old");
    reveal_strlit("updated");
    assert("create"@[0] == 'c' && "update"@[0] == 'u' && "delete"@[0] == 'd');
    assert("old"@.len() == 3 && "updated"@.len() == 7);
    reveal_with_fuel(JsonView::well_formed, 3);
    match o {
        OutcomeView::Update { old, updated } => {
            let body = seq![("old"@, old), ("updated"@, updated)];
            lemma_lookup_found(body, "old"@, 0);
            lemma_lookup_found(body, "updated"@, 1);
            assert(distinct_keys(body));
        },
        _ => {},
    }
}

/// Reading the `status` of a written proposal gives the state back.
pub proof fn lemma_status(s: StatusView)
    requires
        sorted_keys(s.permission),
    ensures
        status_of(Some(status_tree(s))) == Some(s),
        s.well_formed() ==> status_tree(s).well_formed(),
{
    reveal_strlit("stage");
    reveal_strlit("permission");
    reveal_strlit("results");
    reveal_strlit("Active");
    reveal_strlit("Submitted");
    reveal_strlit("Revoked");
    assert("stage"@.len() == 5 && "permission"@.len() == 10 && "results"@.len() == 7);
    assert("Active"@.len() == 6 && "Submitted"@.len() == 9 && "Revoked"@.len() == 7);
    let tree = status_tree(s);
    let members = tree.members()->0;
    lemma_lookup_found(members, "stage"@, 0);
    lemma_lookup_found(members, "permission"@, 1);
    lemma_lookup_found(members, "results"@, 2);
    lemma_text_pairs_roundtrip(s.permission);
    assert(distinct_keys(members));
    reveal_with_fuel(JsonView::well_formed, 2);
    match s.results {
        Some(list) => {
            let items = Seq::new(list.len(), |i: int| outcome_tree(list[i]));
            let read = |j: JsonView| outcome_of(j);
            assert forall|i: int| 0 <= i < items.len() implies read(#[trigger] items[i]) == Some(list[i]) && (
            list[i].well_formed() ==> items[i].well_formed()) by {
                lemma_outcome(list[i]);
            }
            assert(read_all(items, read)->0 =~= list);
            if s.well_formed() {
                assert forall|i: int| 0 <= i < items.len() implies (#[trigger] items[i]).well_formed() by {
                    assert(list[i].well_formed());
                }
                assert(JsonView::Array(items).well_formed());
            }
        },
        None => {},
    }
}

/// Reading the `spec` of a written proposal gives the actions back.
pub proof fn lemma_proposal_spec(actions: Seq<ActionView>)
    ensures
        proposal_actions(proposal_spec_tree(actions)) == Some(actions),
        actions_well_formed(actions) ==> proposal_spec_tree(actions).well_formed(),
{
    let items = Seq::new(actions.len(), |i: int| action_tree(actions[i]));
    lemma_lookup_one("actions"@, JsonView::Array(items), "actions"@);
    let read = |j: JsonView| action_of(j);
    assert forall|i: int| 0 <= i < items.len() implies read(#[trigger] items[i]) == Some(actions[i]) && (
    actions[i].well_formed() ==> items[i].well_formed()) by {
        lemma_action(actions[i]);
    }
    assert(read_all(items, read)->0 =~= actions);
    reveal_with_fuel(JsonView::well_formed, 2);
    if actions_well_formed(actions) {
        assert forall|i: int| 0 <= i < items.len() implies (#[trigger] items[i]).well_formed() by {
            assert(actions[i].well_formed());
        }
        assert(JsonView::Array(items).well_formed());
        assert(distinct_keys(seq![("actions"@, JsonView::Array(items))]));
    }
}

/// A proposal that is written and read again is the same proposal: one in a
/// namespace where `namespace` is given, a global one where it is not.
pub proof fn lemma_proposal_roundtrip(
    name: Seq<char>,
    namespace: Option<Seq<char>>,
    uid: u64,
    creator: Seq<char>,
    actions: Seq<ActionView>,
    status: StatusView,
)
    requires
        crate::utils::validate::valid_name(name),
        sorted_keys(status.permission),
    ensures
        ({
            let kind = if namespace is Some {
                Kind::Proposal
            } else {
                Kind::GlobalProposal
            };
            let p = proposal_parts(kind.meta().api_version, kind.meta().kind, name, namespace, uid, creator, actions, status);
            &&& proposal_parsed(kind, parts_tree(p)) == Ok::<PartsView, ParseFault>(p)
            &&& actions_well_formed(actions) && status.well_formed() ==> parts_tree(p).well_formed()
        }),
{
    let kind = if namespace is Some {
        Kind::Proposal
    } else {
        Kind::GlobalProposal
    };
    let p = proposal_parts(kind.meta().api_version, kind.meta().kind, name, namespace, uid, creator, actions, status);
    lemma_parts_roundtrip(p);
    lemma_proposal_spec(actions);
    lemma_status(status);
    if actions_well_formed(actions) && status.well_formed() {
        lemma_parts_well_formed(p);
    }
}


/// The one member of an object that has exactly one.
fn sole(j: &Json) -> (r: Option<(&str, &Json)>)
    ensures
        match r {
            Some((tag, body)) => sole_member(j@) == Some((tag@, body@)),
            None => sole_member(j@) is None,
        },
{
    match j {
        Json::Object(members) => {
            proof {
                lemma_object_view(*members);
            }
            if members.len() == 1 {
                Some((members[0].0.as_str(), &members[0].1))
            } else {
                None
            }
        },
        _ => None,
    }
}

/// The uid under `uid`, which must be there.
fn read_uid(j: &Json) -> (r: Option<u64>)
    ensures
        r == uid_at(j@),
{
    match j.get("uid") {
        Some(v) => v.as_u64(),
        None => None,
    }
}

/// An object with one member.
fn one_member(key: &str, value: Json) -> (r: Json)
    ensures
        r@ == JsonView::Object(seq![(key@, value@)]),
{
    let mut members: Vec<(String, Json)> = Vec::new();
    members.push((String::from_str(key), value));
    let r = Json::object(members);
    assert(r@.members()->0 =~= seq![(key@, value@)]);
    r
}

/// An object with two members.
fn two_members(first: &str, a: Json, second: &str, b: Json) -> (r: Json)
    ensures
        r@ == JsonView::Object(seq![(first@, a@), (second@, b@)]),
{
    let mut members: Vec<(String, Json)> = Vec::new();
    members.push((String::from_str(first), a));
    members.push((String::from_str(second), b));
    let r = Json::object(members);
    assert(r@.members()->0 =~= seq![(first@, a@), (second@, b@)]);
    r
}

impl ProposalAction {
    /// Reads an action from its JSON form.
    pub fn from_value(j: &Json) -> (r: Option<ProposalAction>)
        ensures
            match r {
                Some(a) => action_of(j@) == Some(a@),
                None => action_of(j@) is None,
            },
    {
        let (tag, body) = match sole(j) {
            Some(m) => m,
            None => { return None; },
        };
        if same_text(tag, "create") {
            match body.get("object") {
                Some(object) => Some(ProposalAction::Create(CreateObjectAction { object: object.copy() })),
                None => None,
            }
        } else if same_text(tag, "update") {
            match (read_uid(body), body.get("object")) {
                (Some(uid), Some(object)) => Some(
                    ProposalAction::Update(UpdateObjectAction { uid, object: object.copy() }),
                ),
                _ => None,
            }
        } else if same_text(tag, "delete") {
            match read_uid(body) {
                Some(uid) => Some(ProposalAction::Delete(DeleteObjectAction { uid })),
                None => None,
            }
        } else {
            None
        }
    }

    /// The JSON form of the action.
    pub fn to_value(&self) -> (j: Json)
        ensures
            j@ == action_tree(self@),
    {
        match self {
            ProposalAction::Create(it) => one_member("create", one_member("object", it.object.copy())),
            ProposalAction::Update(it) => one_member(
                "update",
                two_members("uid", Json::from_u64(it.uid), "object", it.object.copy()),
            ),
            ProposalAction::Delete(it) => one_member("delete", one_member("uid", Json::from_u64(it.uid))),
        }
    }

    /// A copy of the action.
    pub fn copy(&self) -> (r: ProposalAction)
        ensures
            r@ == self@,
    {
        match self {
            ProposalAction::Create(it) => ProposalAction::Create(CreateObjectAction { object: it.object.copy() }),
            ProposalAction::Update(it) => ProposalAction::Update(
                UpdateObjectAction { uid: it.uid, object: it.object.copy() },
            ),
            ProposalAction::Delete(it) => ProposalAction::Delete(DeleteObjectAction { uid: it.uid }),
        }
    }
}

impl ObjectByAction {
    /// Reads the result of an action from its JSON form.
    pub fn from_value(j: &Json) -> (r: Option<ObjectByAction>)
        ensures
            match r {
                Some(o) => outcome_of(j@) == Some(o@),
                None => outcome_of(j@) is None,
            },
    {
        let (tag, body) = match sole(j) {
            Some(m) => m,
            None => { return None; },
        };
        if same_text(tag, "create") {
            Some(ObjectByAction::Create(body.copy()))
        } else if same_text(tag, "update") {
            match (body.get("old"), body.get("updated")) {
                (Some(old), Some(updated)) => Some(ObjectByAction::Update { old: old.copy(), updated: updated.copy() }),
                _ => None,
            }
        } else if same_text(tag, "delete") {
            Some(ObjectByAction::Delete(body.copy()))
        } else {
            None
        }
    }

    /// The JSON form of the result.
    pub fn to_value(&self) -> (j: Json)
        ensures
            j@ == outcome_tree(self@),
    {
        match self {
            ObjectByAction::Create(o) => one_member("create", o.copy()),
            ObjectByAction::Update { old, updated } => one_member(
                "update",
                two_members("old", old.copy(), "updated", updated.copy()),
            ),
            ObjectByAction::Delete(o) => one_member("delete", o.copy()),
        }
    }
}

/// Reads the actions of a proposal from the tree under `spec`.
pub fn read_actions(spec: &Json) -> (r: Option<Vec<ProposalAction>>)
    ensures
        match r {
            Some(actions) => proposal_actions(spec@) == Some(actions_of(actions@)),
            None => proposal_actions(spec@) is None,
        },
{
    let items = match spec.get("actions") {
        Some(Json::Array(items)) => items,
        _ => { return None; },
    };
    proof {
        lemma_array_view(*items);
    }
    let ghost trees = spec@.field("actions"@)->0->Array_0;
    let mut actions: Vec<ProposalAction> = Vec::new();
    let mut i: usize = 0;
    while i < items.len()
        invariant
            i <= items.len(),
            actions.len() == i,
            spec@.field("actions"@) == Some(JsonView::Array(trees)),
            trees.len() == items.len(),
            forall|n: int| 0 <= n < items.len() ==> (#[trigger] trees[n]) == items[n]@,
            forall|n: int| 0 <= n < i ==> action_of(#[trigger] trees[n]) == Some(actions[n]@),
        decreases items.len() - i,
    {
        match ProposalAction::from_value(&items[i]) {
            Some(a) => {
                actions.push(a);
            },
            None => {
                proof {
                    let f = |j: JsonView| action_of(j);
                    assert(f(trees[i as int]) is None);
                    assert(read_all(trees, f) is None);
                }
                return None;
            },
        }
        i = i + 1;
    }
    proof {
        let read = |j: JsonView| action_of(j);
        assert forall|n: int| 0 <= n < trees.len() implies read(#[trigger] trees[n]) is Some by {}
        assert(read_all(trees, read)->0 =~= actions_of(actions@));
    }
    Some(actions)
}

/// Writes the actions of a proposal as the tree under `spec`.
pub fn actions_json(actions: &Vec<ProposalAction>) -> (r: Json)
    ensures
        r@ == proposal_spec_tree(actions_of(actions@)),
{
    let mut items: Vec<Json> = Vec::new();
    let mut i: usize = 0;
    while i < actions.len()
        invariant
            i <= actions.len(),
            items.len() == i,
            forall|n: int| 0 <= n < i ==> (#[trigger] items[n])@ == action_tree(actions[n]@),
        decreases actions.len() - i,
    {
        items.push(actions[i].to_value());
        i = i + 1;
    }
    proof {
        lemma_array_view(items);
    }
    let list = Json::Array(items);
    assert(list@->Array_0 =~= Seq::new(actions_of(actions@).len(), |i: int| action_tree(actions_of(actions@)[i])));
    one_member("actions", list)
}

/// Reads the results from the tree under `status`.
fn read_results(status: &Json) -> (r: Option<Option<Vec<ObjectByAction>>>)
    ensures
        match r {
            Some(results) => results_in(status@) == Some(outcomes_of(results)),
            None => results_in(status@) is None,
        },
{
    let items = match status.get_present("results") {
        Some(Json::Array(items)) => items,
        Some(_) => { return None; },
        None => { return Some(None); },
    };
    proof {
        lemma_array_view(*items);
    }
    let ghost trees = status@.present("results"@)->0->Array_0;
    let mut results: Vec<ObjectByAction> = Vec::new();
    let mut i: usize = 0;
    while i < items.len()
        invariant
            i <= items.len(),
            results.len() == i,
            status@.present("results"@) == Some(JsonView::Array(trees)),
            trees.len() == items.len(),
            forall|n: int| 0 <= n < items.len() ==> (#[trigger] trees[n]) == items[n]@,
            forall|n: int| 0 <= n < i ==> outcome_of(#[trigger] trees[n]) == Some(results[n]@),
        decreases items.len() - i,
    {
        match ObjectByAction::from_value(&items[i]) {
            Some(o) => {
                results.push(o);
            },
            None => {
                proof {
                    let f = |j: JsonView| outcome_of(j);
                    assert(f(trees[i as int]) is None);
                    assert(read_all(trees, f) is None);
                }
                return None;
            },
        }
        i = i + 1;
    }
    proof {
        let read = |j: JsonView| outcome_of(j);
        assert forall|n: int| 0 <= n < trees.len() implies read(#[trigger] trees[n]) is Some by {}
        assert(read_all(trees, read)->0 =~= outcomes_of(Some(results))->0);
    }
    Some(Some(results))
}

/// Writes the results.
fn results_json(results: &Option<Vec<ObjectByAction>>) -> (r: Json)
    ensures
        r@ == results_tree(outcomes_of(*results)),
{
    let list = match results {
        Some(list) => list,
        None => { return Json::Null; },
    };
    let mut items: Vec<Json> = Vec::new();
    let mut i: usize = 0;
    while i < list.len()
        invariant
            i <= list.len(),
            items.len() == i,
            forall|n: int| 0 <= n < i ==> (#[trigger] items[n])@ == outcome_tree(list[n]@),
        decreases list.len() - i,
    {
        items.push(list[i].to_value());
        i = i + 1;
    }
    proof {
        lemma_array_view(items);
    }
    let r = Json::Array(items);
    assert(r@->Array_0 =~= results_tree(outcomes_of(*results))->Array_0);
    r
}

impl ObjectByAction {
    /// A copy of the result.
    pub fn copy(&self) -> (r: ObjectByAction)
        ensures
            r@ == self@,
    {
        match self {
            ObjectByAction::Create(o) => ObjectByAction::Create(o.copy()),
            ObjectByAction::Update { old, updated } => ObjectByAction::Update { old: old.copy(), updated: updated.copy() },
            ObjectByAction::Delete(o) => ObjectByAction::Delete(o.copy()),
        }
    }
}

impl Default for ProposalStatus {
    /// The state that a proposal is taken to have where its JSON form names none: revoked.
    fn default() -> (s: ProposalStatus)
        ensures
            s@ == StatusView::missing(),
    {
        ProposalStatus::missing()
    }
}

impl ProposalStatus {
    /// A copy of the state.
    pub fn copy(&self) -> (r: ProposalStatus)
        ensures
            r@ == self@,
    {
        let results = match &self.results {
            Some(list) => {
                let mut out: Vec<ObjectByAction> = Vec::new();
                let mut i: usize = 0;
                while i < list.len()
                    invariant
                        i <= list.len(),
                        out.len() == i,
                        forall|n: int| 0 <= n < i ==> (#[trigger] out[n])@ == list[n]@,
                    decreases list.len() - i,
                {
                    out.push(list[i].copy());
                    i = i + 1;
                }
                assert(outcomes_of(Some(out))->0 =~= outcomes_of(self.results)->0);
                Some(out)
            },
            None => None,
        };
        ProposalStatus { stage: self.stage, permission: self.permission.copy(), results }
    }

    /// The state of a proposal that has just been made: active, permitted by nobody, without results.
    pub fn init(_actions: &Vec<ProposalAction>) -> (s: ProposalStatus)
        ensures
            s@ == StatusView::initial(),
            s@.well_formed(),
    {
        ProposalStatus { stage: ProposalStage::Active, permission: TextMap::new(), results: None }
    }

    /// The state that a proposal is taken to have where its JSON form names none: revoked.
    pub fn missing() -> (s: ProposalStatus)
        ensures
            s@ == StatusView::missing(),
            s@.well_formed(),
    {
        ProposalStatus { stage: ProposalStage::Revoked, permission: TextMap::new(), results: None }
    }

    /// Reads the state of a proposal from what stands under `status`.
    pub fn from_value(status: &Option<Json>) -> (r: Option<ProposalStatus>)
        ensures
            match r {
                Some(s) => status_of(opt_tree(*status)) == Some(s@) && sorted_keys(s@.permission),
                None => status_of(opt_tree(*status)) is None,
            },
    {
        let tree = match status {
            Some(s) => s,
            None => { return Some(ProposalStatus::missing()); },
        };
        let stage = match tree.get_text("stage") {
            Some(name) => {
                if same_text(name.as_str(), "Active") {
                    ProposalStage::Active
                } else if same_text(name.as_str(), "Submitted") {
                    ProposalStage::Submitted
                } else if same_text(name.as_str(), "Revoked") {
                    ProposalStage::Revoked
                } else {
                    return None;
                }
            },
            None => { return None; },
        };
        let permission = match tree.get("permission") {
            Some(pairs) => match TextMap::from_json(pairs) {
                Some(m) => m,
                None => { return None; },
            },
            None => { return None; },
        };
        let results = match read_results(tree) {
            Some(r) => r,
            None => { return None; },
        };
        Some(ProposalStatus { stage, permission, results })
    }

    /// The tree under `status`.
    pub fn to_value(&self) -> (j: Json)
        ensures
            j@ == status_tree(self@),
    {
        let stage = match self.stage {
            ProposalStage::Active => "Active",
            ProposalStage::Submitted => "Submitted",
            ProposalStage::Revoked => "Revoked",
        };
        let mut members: Vec<(String, Json)> = Vec::new();
        members.push((String::from_str("stage"), Json::from_text(stage)));
        members.push((String::from_str("permission"), self.permission.to_json()));
        members.push((String::from_str("results"), results_json(&self.results)));
        let r = Json::object(members);
        assert(r@.members()->0 =~= status_tree(self@).members()->0);
        r
    }
}

/// The JSON in the parts of a proposal read from a tree without a key twice has no key twice either.
pub proof fn lemma_proposal_well_formed(kind: Kind, j: JsonView)
    requires
        j.well_formed(),
    ensures
        proposal_parsed(kind, j) matches Ok(p) ==> parts_tree(p).well_formed() && (proposal_actions(p.spec) matches Some(
            actions,
        ) && actions_well_formed(actions)) && (status_of(p.status) matches Some(status) && status.well_formed()),
{
    if let Ok(p) = proposal_parsed(kind, j) {
        let q = parts_of(j)->0;
        lemma_spec_well_formed(j);
        let actions = proposal_actions(q.spec)->0;
        let status = status_of(q.status)->0;
        lemma_proposal_spec(actions);
        // every action was read from a part of the tree
        let items = q.spec.field("actions"@)->0->Array_0;
        lemma_lookup_member(q.spec.members()->0, "actions"@);
        reveal_with_fuel(JsonView::well_formed, 4);
        assert forall|i: int| 0 <= i < actions.len() implies (#[trigger] actions[i]).well_formed() by {
            let item = items[i];
            assert(item.well_formed());
            assert(action_of(item) == Some(actions[i]));
            let member = sole_member(item)->0;
            let body = member.1;
            assert(body.well_formed());
            if body is Object {
                lemma_lookup_member(body.members()->0, "object"@);
            }
        }
        match q.status {
            Some(s) => {
                assert(s.well_formed());
                if let Some(list) = status.results {
                    lemma_lookup_member(s.members()->0, "results"@);
                    let trees = s.present("results"@)->0->Array_0;
                    assert forall|i: int| 0 <= i < list.len() implies (#[trigger] list[i]).well_formed() by {
                        let item = trees[i];
                        assert(item.well_formed());
                        assert(outcome_of(item) == Some(list[i]));
                        let member = sole_member(item)->0;
            let body = member.1;
                        assert(body.well_formed());
                        if body is Object {
                            lemma_lookup_member(body.members()->0, "old"@);
                            lemma_lookup_member(body.members()->0, "updated"@);
                        }
                    }
                }
            },
            None => {},
        }
        lemma_status_sorted(q.status);
        lemma_status(status);
        lemma_parts_well_formed(p);
    }
}

impl Proposal {
    /// The JSON that the proposal holds has no key twice in any object, and no organization is named twice.
    pub open spec fn wf(&self) -> bool {
        actions_well_formed(actions_of(self.spec.actions@)) && self.status@.well_formed()
    }

    /// The parts of the proposal.
    pub fn to_parts(&self) -> (p: Parts)
        ensures
            p@ == self@,
    {
        Parts {
            type_meta: self.type_meta.copy(),
            name: self.metadata.name.clone(),
            namespace: Some(self.metadata.namespace.clone()),
            version: None,
            uid: self.metadata.uid,
            creator: Some(self.metadata.creator.clone()),
            annotations: None,
            spec: actions_json(&self.spec.actions),
            status: Some(self.status.to_value()),
        }
    }

    /// The JSON form of the proposal.
    pub fn to_value(&self) -> (j: Json)
        ensures
            j@ == parts_tree(self@),
            self.wf() ==> j@.well_formed(),
    {
        proof {
            if self.wf() {
                lemma_proposal_spec(actions_of(self.spec.actions@));
                lemma_status(self.status@);
                lemma_parts_well_formed(self@);
            }
        }
        self.to_parts().write()
    }

    /// Reads a proposal from its JSON form and holds it against the type's tag and the naming grammar.
    pub fn parse_from_value(value: &Json) -> (r: Result<Proposal, DeserializeError>)
        ensures
            match r {
                Ok(p) => proposal_parsed(Kind::Proposal, value@) == Ok::<PartsView, ParseFault>(p@) && (value@.well_formed() ==> p.wf()),
                Err(e) => proposal_parsed(Kind::Proposal, value@) == Err::<PartsView, ParseFault>(fault_of(e)) && crate::objects::parts::says(
                    e,
                    Kind::Proposal,
                    value@,
                ),
            },
    {
        let parts = match Parts::read(value) {
            Some(p) => p,
            None => { return Err(DeserializeError::JsonError(String::from_str("malformed object"))); },
        };
        let actions = match read_actions(&parts.spec) {
            Some(a) => a,
            None => { return Err(DeserializeError::JsonError(String::from_str("malformed actions"))); },
        };
        let status = match ProposalStatus::from_value(&parts.status) {
            Some(s) => s,
            None => { return Err(DeserializeError::JsonError(String::from_str("malformed status"))); },
        };
        let namespace = match parts.namespace {
            Some(ns) => ns,
            None => { return Err(DeserializeError::JsonError(String::from_str("missing field namespace"))); },
        };
        match check_parts(Kind::Proposal, &parts.type_meta, parts.name.as_str()) {
            Ok(()) => {},
            Err(e) => { return Err(e); },
        }
        let creator = match parts.creator {
            Some(c) => c,
            None => String::new(),
        };
        proof {
            if value@.well_formed() {
                lemma_proposal_well_formed(Kind::Proposal, value@);
                lemma_proposal_spec(actions_of(actions@));
                lemma_status(status@);
            }
        }
        Ok(
            Proposal {
                type_meta: parts.type_meta,
                metadata: ProposalMetadata { name: parts.name, namespace, uid: parts.uid, creator },
                spec: ProposalSpec { actions },
                status,
            },
        )
    }

    /// Reads a proposal from JSON text.
    pub fn parse_from_slice(text: &[u8]) -> (r: Result<Proposal, DeserializeError>)
        ensures
            match r {
                Ok(p) => json_decoded(text@) matches Some(j) && proposal_parsed(Kind::Proposal, j) == Ok::<PartsView, ParseFault>(p@) && p.wf(),
                Err(e) => match json_decoded(text@) {
                    Some(j) => proposal_parsed(Kind::Proposal, j) == Err::<PartsView, ParseFault>(fault_of(e)) && crate::objects::parts::says(
                        e,
                        Kind::Proposal,
                        j,
                    ),
                    None => fault_of(e) == ParseFault::Malformed,
                },
            },
    {
        match Json::parse(text) {
            Ok(j) => Proposal::parse_from_value(&j),
            Err(msg) => Err(DeserializeError::JsonError(msg)),
        }
    }
}

} // verus!
