use vstd::prelude::*;
use vstd::string::*;
use crate::errors::{DeserializeError, InvalidObjectError};
use crate::json::{distinct_keys, json_decoded, lemma_array_view, lemma_lookup_found, Json, JsonView};
use crate::objects::kinds::Kind;
use crate::objects::meta::{NamespacedMetadata, TypeMeta};
use crate::objects::parts::{
    annotated, check_parts, fault_of, is_note, keep_annotations, kept_annotations, lemma_lookup_one,
    lemma_parts_roundtrip, lemma_parts_well_formed, lemma_spec_well_formed, noted, parts_fault, write_annotations,
    parts_of, parts_tree, read_all, ParseFault, Parts, PartsView,
};
use crate::utils::textmap::{
    has_key, lemma_text_pairs_roundtrip, sorted_keys, text_map, with_pair, without_key, TextMap,
};

verus! {

/// What a data declaration declares.
#[derive(Debug)]
pub struct DataDeclareSpec {
    pub data_type: String,
    pub description: String,
}

/// Which organizations have implemented a data declaration, each with its remark.
#[derive(Debug)]
pub struct DataDeclareStatus {
    pub implementation: TextMap,
}

impl DataDeclareStatus {
    pub fn impls(&self) -> (r: &TextMap)
        ensures
            r == &self.implementation,
    {
        &self.implementation
    }
}

/// A declaration of data that organizations of a namespace can provide.
#[derive(Debug)]
pub struct DataDeclare {
    pub type_meta: TypeMeta,
    pub metadata: NamespacedMetadata,
    pub spec: DataDeclareSpec,
    pub status: DataDeclareStatus,
}

/// The declaration of one argument of a function.
#[derive(Debug)]
pub struct FnArgDeclare {
    pub arg_type: String,
    pub description: String,
}

/// What a function declaration declares.
#[derive(Debug)]
pub struct FunctionDeclareSpec {
    pub args: Vec<FnArgDeclare>,
    pub ret_type: String,
    pub description: String,
}

/// Which organizations have implemented a function declaration, each with its remark.
#[derive(Debug)]
pub struct FunctionDeclareStatus {
    pub implementation: TextMap,
}

impl FunctionDeclareStatus {
    pub fn impls(&self) -> (r: &TextMap)
        ensures
            r == &self.implementation,
    {
        &self.implementation
    }
}

/// A declaration of a function that organizations of a namespace can provide.
#[derive(Debug)]
pub struct FunctionDeclare {
    pub type_meta: TypeMeta,
    pub metadata: NamespacedMetadata,
    pub spec: FunctionDeclareSpec,
    pub status: FunctionDeclareStatus,
}

/// The tree under `status` of a declaration with the given implementations.
pub open spec fn declare_status_tree(impls: Seq<(Seq<char>, Seq<char>)>) -> JsonView {
    JsonView::Object(seq![("implementation"@, JsonView::of_text_pairs(impls))])
}

/// The implementations that the status of a declaration names; none where the object has no status.
pub open spec fn implementations(status: Option<JsonView>) -> Option<Seq<(Seq<char>, Seq<char>)>> {
    match status {
        Some(s) => match s.field("implementation"@) {
            Some(v) => text_map(v),
            None => None,
        },
        None => Some(Seq::empty()),
    }
}

/// The implementations that a status names stand in the order of the organizations' names.
pub proof fn lemma_implementations_sorted(status: Option<JsonView>)
    ensures
        implementations(status) matches Some(m) ==> sorted_keys(m),
{
    match status {
        Some(s) => {
            if let Some(v) = s.field("implementation"@) {
                crate::utils::textmap::lemma_text_map_sorted(v);
            }
        },
        None => {},
    }
}

/// The tree under `spec` of a data declaration.
pub open spec fn data_spec_tree(data_type: Seq<char>, description: Seq<char>) -> JsonView {
    JsonView::Object(seq![("dataType"@, JsonView::Text(data_type)), ("description"@, JsonView::Text(description))])
}

/// The type and the description that the tree under `spec` of a data declaration names.
pub open spec fn data_spec_of(spec: JsonView) -> Option<(Seq<char>, Seq<char>)> {
    match (spec.text_at("dataType"@), spec.text_at("description"@)) {
        (Some(data_type), Some(description)) => Some((data_type, description)),
        _ => None,
    }
}

/// The tree of the declaration of one argument, given as its type and its description.
pub open spec fn arg_tree(arg: (Seq<char>, Seq<char>)) -> JsonView {
    JsonView::Object(seq![("argType"@, JsonView::Text(arg.0)), ("description"@, JsonView::Text(arg.1))])
}

/// The type and the description that the tree of an argument names.
pub open spec fn arg_of(j: JsonView) -> Option<(Seq<char>, Seq<char>)> {
    match (j.text_at("argType"@), j.text_at("description"@)) {
        (Some(arg_type), Some(description)) => Some((arg_type, description)),
        _ => None,
    }
}

/// What the `spec` of a function declaration holds.
pub struct FunctionSpecView {
    pub args: Seq<(Seq<char>, Seq<char>)>,
    pub ret_type: Seq<char>,
    pub description: Seq<char>,
}

/// The tree under `spec` of a function declaration.
pub open spec fn function_spec_tree(v: FunctionSpecView) -> JsonView {
    JsonView::Object(
        seq![
            ("args"@, JsonView::Array(Seq::new(v.args.len(), |i: int| arg_tree(v.args[i])))),
            ("retType"@, JsonView::Text(v.ret_type)),
            ("description"@, JsonView::Text(v.description)),
        ],
    )
}

/// The arguments that an array of argument declarations names.
pub open spec fn args_of(list: JsonView) -> Option<Seq<(Seq<char>, Seq<char>)>> {
    match list {
        JsonView::Array(items) => read_all(items, |j: JsonView| arg_of(j)),
        _ => None,
    }
}

/// What the tree under `spec` of a function declaration names.
pub open spec fn function_spec_of(spec: JsonView) -> Option<FunctionSpecView> {
    match (spec.field("args"@), spec.text_at("retType"@), spec.text_at("description"@)) {
        (Some(list), Some(ret_type), Some(description)) => match args_of(list) {
            Some(args) => Some(FunctionSpecView { args, ret_type, description }),
            None => None,
        },
        _ => None,
    }
}

/// The parts of a declaration in a namespace, but for its annotations.
pub open spec fn declare_parts(
    api_version: Seq<char>,
    kind: Seq<char>,
    name: Seq<char>,
    namespace: Seq<char>,
    uid: u64,
    spec: JsonView,
    impls: Seq<(Seq<char>, Seq<char>)>,
) -> PartsView {
    PartsView {
        api_version,
        kind,
        name,
        namespace: Some(namespace),
        version: None,
        uid,
        creator: None,
        annotations: None,
        spec,
        status: Some(declare_status_tree(impls)),
    }
}

/// What reading a data declaration from a JSON object gives.
pub open spec fn data_declare_parsed(j: JsonView) -> Result<PartsView, ParseFault> {
    match parts_of(j) {
        Some(p) => match (
            p.namespace,
            data_spec_of(p.spec),
            implementations(p.status),
            kept_annotations(p.annotations),
        ) {
            (Some(namespace), Some(spec), Some(impls), Some(notes)) => match parts_fault(Kind::DataDeclare, p) {
                Some(fault) => Err(fault),
                None => Ok(
                    annotated(
                        declare_parts(
                            p.api_version,
                            p.kind,
                            p.name,
                            namespace,
                            p.uid,
                            data_spec_tree(spec.0, spec.1),
                            impls,
                        ),
                        notes,
                    ),
                ),
            },
            _ => Err(ParseFault::Malformed),
        },
        None => Err(ParseFault::Malformed),
    }
}

/// What reading a function declaration from a JSON object gives.
pub open spec fn function_declare_parsed(j: JsonView) -> Result<PartsView, ParseFault> {
    match parts_of(j) {
        Some(p) => match (
            p.namespace,
            function_spec_of(p.spec),
            implementations(p.status),
            kept_annotations(p.annotations),
        ) {
            (Some(namespace), Some(spec), Some(impls), Some(notes)) => match parts_fault(Kind::FunctionDeclare, p) {
                Some(fault) => Err(fault),
                None => Ok(
                    annotated(
                        declare_parts(
                            p.api_version,
                            p.kind,
                            p.name,
                            namespace,
                            p.uid,
                            function_spec_tree(spec),
                            impls,
                        ),
                        notes,
                    ),
                ),
            },
            _ => Err(ParseFault::Malformed),
        },
        None => Err(ParseFault::Malformed),
    }
}

impl View for DataDeclare {
    type V = PartsView;

    open spec fn view(&self) -> PartsView {
        annotated(
            declare_parts(
                self.type_meta.api_version@,
                self.type_meta.kind@,
                self.metadata.name@,
                self.metadata.namespace@,
                self.metadata.uid,
                data_spec_tree(self.spec.data_type@, self.spec.description@),
                self.status.implementation@,
            ),
            noted(self.metadata.annotations),
        )
    }
}

impl View for FnArgDeclare {
    type V = (Seq<char>, Seq<char>);

    open spec fn view(&self) -> (Seq<char>, Seq<char>) {
        (self.arg_type@, self.description@)
    }
}

impl View for FunctionDeclareSpec {
    type V = FunctionSpecView;

    open spec fn view(&self) -> FunctionSpecView {
        FunctionSpecView {
            args: Seq::new(self.args@.len(), |i: int| self.args@[i]@),
            ret_type: self.ret_type@,
            description: self.description@,
        }
    }
}

impl View for FunctionDeclare {
    type V = PartsView;

    open spec fn view(&self) -> PartsView {
        annotated(
            declare_parts(
                self.type_meta.api_version@,
                self.type_meta.kind@,
                self.metadata.name@,
                self.metadata.namespace@,
                self.metadata.uid,
                function_spec_tree(self.spec@),
                self.status.implementation@,
            ),
            noted(self.metadata.annotations),
        )
    }
}

/// Reading the status of a written declaration gives the implementations back.
pub proof fn lemma_declare_status(impls: Seq<(Seq<char>, Seq<char>)>)
    requires
        sorted_keys(impls),
    ensures
        implementations(Some(declare_status_tree(impls))) == Some(impls),
        declare_status_tree(impls).well_formed(),
{
    lemma_lookup_one("implementation"@, JsonView::of_text_pairs(impls), "implementation"@);
    lemma_text_pairs_roundtrip(impls);
    reveal_with_fuel(JsonView::well_formed, 2);
}

/// Reading the `spec` of a written data declaration gives its type and description back.
pub proof fn lemma_data_spec(data_type: Seq<char>, description: Seq<char>)
    ensures
        data_spec_of(data_spec_tree(data_type, description)) == Some((data_type, description)),
        data_spec_tree(data_type, description).well_formed(),
{
    reveal_strlit("dataType");
    reveal_strlit("description");
    assert("dataType"@.len() == 8 && "description"@.len() == 11);
    let members = data_spec_tree(data_type, description).members()->0;
    lemma_lookup_found(members, "dataType"@, 0);
    lemma_lookup_found(members, "description"@, 1);
    reveal_with_fuel(JsonView::well_formed, 2);
}

proof fn lemma_arg(arg: (Seq<char>, Seq<char>))
    ensures
        arg_of(arg_tree(arg)) == Some(arg),
        arg_tree(arg).well_formed(),
{
    reveal_strlit("argType");
    reveal_strlit("description");
    assert("argType"@.len() == 7 && "description"@.len() == 11);
    let members = arg_tree(arg).members()->0;
    lemma_lookup_found(members, "argType"@, 0);
    lemma_lookup_found(members, "description"@, 1);
    reveal_with_fuel(JsonView::well_formed, 2);
}

/// Reading the `spec` of a written function declaration gives what it held back.
pub proof fn lemma_function_spec(v: FunctionSpecView)
    ensures
        function_spec_of(function_spec_tree(v)) == Some(v),
        function_spec_tree(v).well_formed(),
{
    reveal_strlit("args");
    reveal_strlit("retType");
    reveal_strlit("description");
    assert("args"@.len() == 4 && "retType"@.len() == 7 && "description"@.len() == 11);
    let tree = function_spec_tree(v);
    let members = tree.members()->0;
    lemma_lookup_found(members, "args"@, 0);
    lemma_lookup_found(members, "retType"@, 1);
    lemma_lookup_found(members, "description"@, 2);
    let items = Seq::new(v.args.len(), |i: int| arg_tree(v.args[i]));
    assert forall|i: int| 0 <= i < items.len() implies arg_of(#[trigger] items[i]) == Some(v.args[i]) && items[i].well_formed() by {
        lemma_arg(v.args[i]);
    }
    let read = |j: JsonView| arg_of(j);
    assert forall|i: int| 0 <= i < items.len() implies read(#[trigger] items[i]) is Some by {}
    assert(read_all(items, read)->0 =~= v.args);
    reveal_with_fuel(JsonView::well_formed, 2);
    assert(JsonView::Array(items).well_formed());
    assert(distinct_keys(members));
}

/// A data declaration that is written and read again is the same declaration.
pub proof fn lemma_data_declare_roundtrip(
    name: Seq<char>,
    namespace: Seq<char>,
    uid: u64,
    data_type: Seq<char>,
    description: Seq<char>,
    impls: Seq<(Seq<char>, Seq<char>)>,
    notes: JsonView,
)
    requires
        crate::utils::validate::valid_name(name),
        sorted_keys(impls),
        is_note(notes),
    ensures
        ({
            let p = annotated(
                declare_parts(
                    Kind::DataDeclare.meta().api_version,
                    Kind::DataDeclare.meta().kind,
                    name,
                    namespace,
                    uid,
                    data_spec_tree(data_type, description),
                    impls,
                ),
                notes,
            );
            &&& data_declare_parsed(parts_tree(p)) == Ok::<PartsView, ParseFault>(p)
            &&& notes.well_formed() ==> parts_tree(p).well_formed()
        }),
{
    let p = annotated(
        declare_parts(
            Kind::DataDeclare.meta().api_version,
            Kind::DataDeclare.meta().kind,
            name,
            namespace,
            uid,
            data_spec_tree(data_type, description),
            impls,
        ),
        notes,
    );
    lemma_parts_roundtrip(p);
    crate::objects::parts::lemma_note_kept(notes);
    lemma_data_spec(data_type, description);
    lemma_declare_status(impls);
    if notes.well_formed() {
        lemma_parts_well_formed(p);
    }
}

/// A function declaration that is written and read again is the same declaration.
pub proof fn lemma_function_declare_roundtrip(
    name: Seq<char>,
    namespace: Seq<char>,
    uid: u64,
    spec: FunctionSpecView,
    impls: Seq<(Seq<char>, Seq<char>)>,
    notes: JsonView,
)
    requires
        crate::utils::validate::valid_name(name),
        sorted_keys(impls),
        is_note(notes),
    ensures
        ({
            let p = annotated(
                declare_parts(
                    Kind::FunctionDeclare.meta().api_version,
                    Kind::FunctionDeclare.meta().kind,
                    name,
                    namespace,
                    uid,
                    function_spec_tree(spec),
                    impls,
                ),
                notes,
            );
            &&& function_declare_parsed(parts_tree(p)) == Ok::<PartsView, ParseFault>(p)
            &&& notes.well_formed() ==> parts_tree(p).well_formed()
        }),
{
    let p = annotated(
        declare_parts(
            Kind::FunctionDeclare.meta().api_version,
            Kind::FunctionDeclare.meta().kind,
            name,
            namespace,
            uid,
            function_spec_tree(spec),
            impls,
        ),
        notes,
    );
    lemma_parts_roundtrip(p);
    crate::objects::parts::lemma_note_kept(notes);
    lemma_function_spec(spec);
    lemma_declare_status(impls);
    if notes.well_formed() {
        lemma_parts_well_formed(p);
    }
}


/// The tree under `status` of a declaration.
fn status_json(implementation: &TextMap) -> (r: Json)
    ensures
        r@ == declare_status_tree(implementation@),
{
    let mut members: Vec<(String, Json)> = Vec::new();
    members.push((String::from_str("implementation"), implementation.to_json()));
    let r = Json::object(members);
    assert(r@.members()->0 =~= declare_status_tree(implementation@).members()->0);
    r
}

/// The implementations that the status of a declaration names.
fn read_status(status: &Option<Json>) -> (r: Option<TextMap>)
    ensures
        match r {
            Some(m) => implementations(crate::objects::parts::opt_tree(*status)) == Some(m@) && m.wf(),
            None => implementations(crate::objects::parts::opt_tree(*status)) is None,
        },
{
    match status {
        Some(s) => match s.get("implementation") {
            Some(v) => TextMap::from_json(v),
            None => None,
        },
        None => Some(TextMap::new()),
    }
}

impl DataDeclare {
    /// No organization is named twice among the implementations, and the
    /// annotations have no key twice in any of their objects.
    pub open spec fn wf(&self) -> bool {
        self.status.implementation.wf() && noted(self.metadata.annotations).well_formed()
    }

    pub fn status(&self) -> (r: &DataDeclareStatus)
        ensures
            r == &self.status,
    {
        &self.status
    }

    pub fn spec(&self) -> (r: &DataDeclareSpec)
        ensures
            r == &self.spec,
    {
        &self.spec
    }

    /// The parts of the declaration.
    pub fn to_parts(&self) -> (p: Parts)
        ensures
            p@ == self@,
    {
        let mut members: Vec<(String, Json)> = Vec::new();
        members.push((String::from_str("dataType"), Json::from_text(self.spec.data_type.as_str())));
        members.push((String::from_str("description"), Json::from_text(self.spec.description.as_str())));
        let spec = Json::object(members);
        assert(spec@.members()->0 =~= data_spec_tree(self.spec.data_type@, self.spec.description@).members()->0);
        Parts {
            type_meta: self.type_meta.copy(),
            name: self.metadata.name.clone(),
            namespace: Some(self.metadata.namespace.clone()),
            version: None,
            uid: self.metadata.uid,
            creator: None,
            annotations: write_annotations(&self.metadata.annotations),
            spec,
            status: Some(status_json(&self.status.implementation)),
        }
    }

    /// The JSON form of the declaration.
    pub fn to_value(&self) -> (j: Json)
        ensures
            j@ == parts_tree(self@),
            self.wf() ==> j@.well_formed(),
    {
        proof {
            if self.wf() {
                lemma_data_spec(self.spec.data_type@, self.spec.description@);
                lemma_declare_status(self.status.implementation@);
                lemma_parts_well_formed(self@);
            }
        }
        self.to_parts().write()
    }

    /// Reads a data declaration from its JSON form and holds it against the type's tag and the naming grammar.
    pub fn parse_from_value(value: &Json) -> (r: Result<DataDeclare, DeserializeError>)
        ensures
            match r {
                Ok(d) => data_declare_parsed(value@) == Ok::<PartsView, ParseFault>(d@) && (value@.well_formed()
                    ==> d.wf()),
                Err(e) => data_declare_parsed(value@) == Err::<PartsView, ParseFault>(fault_of(e)) && crate::objects::parts::says(
                    e,
                    Kind::DataDeclare,
                    value@,
                ),
            },
    {
        proof {
            if value@.well_formed() {
                lemma_spec_well_formed(value@);
            }
        }
        let parts = match Parts::read(value) {
            Some(p) => p,
            None => { return Err(DeserializeError::JsonError(String::from_str("malformed object"))); },
        };
        let namespace = match parts.namespace {
            Some(ns) => ns,
            None => { return Err(DeserializeError::JsonError(String::from_str("missing field namespace"))); },
        };
        let data_type = match parts.spec.get_text("dataType") {
            Some(s) => s,
            None => { return Err(DeserializeError::JsonError(String::from_str("missing field dataType"))); },
        };
        let description = match parts.spec.get_text("description") {
            Some(s) => s,
            None => { return Err(DeserializeError::JsonError(String::from_str("missing field description"))); },
        };
        let implementation = match read_status(&parts.status) {
            Some(m) => m,
            None => { return Err(DeserializeError::JsonError(String::from_str("malformed status"))); },
        };
        let annotations = match keep_annotations(parts.annotations) {
            Ok(a) => a,
            Err(e) => { return Err(e); },
        };
        match check_parts(Kind::DataDeclare, &parts.type_meta, parts.name.as_str()) {
            Ok(()) => {},
            Err(e) => { return Err(e); },
        }
        Ok(
            DataDeclare {
                type_meta: parts.type_meta,
                metadata: NamespacedMetadata { name: parts.name, namespace, uid: parts.uid, annotations },
                spec: DataDeclareSpec { data_type, description },
                status: DataDeclareStatus { implementation },
            },
        )
    }

    /// Reads a data declaration from JSON text.
    pub fn parse_from_slice(text: &[u8]) -> (r: Result<DataDeclare, DeserializeError>)
        ensures
            match r {
                Ok(d) => json_decoded(text@) matches Some(j) && data_declare_parsed(j) == Ok::<PartsView, ParseFault>(d@) && d.wf(),
                Err(e) => match json_decoded(text@) {
                    Some(j) => data_declare_parsed(j) == Err::<PartsView, ParseFault>(fault_of(e)) && crate::objects::parts::says(
                        e,
                        Kind::DataDeclare,
                        j,
                    ),
                    None => fault_of(e) == ParseFault::Malformed,
                },
            },
    {
        match Json::parse(text) {
            Ok(j) => DataDeclare::parse_from_value(&j),
            Err(msg) => Err(DeserializeError::JsonError(msg)),
        }
    }

    /// Records that an organization implements the declaration, with a
    /// remark, or that it no longer does. To take back what was never
    /// recorded is an error and changes nothing.
    pub fn set_implement(&mut self, org_id: String, status: bool, comment: String) -> (r: Result<(), InvalidObjectError>)
        requires
            old(self).wf(),
        ensures
            final(self).wf(),
            final(self).type_meta == old(self).type_meta,
            final(self).metadata == old(self).metadata,
            final(self).spec == old(self).spec,
            r is Err <==> !status && !has_key(old(self).status.implementation@, org_id@),
            final(self).status.implementation@ == if status {
                with_pair(old(self).status.implementation@, org_id@, comment@)
            } else {
                without_key(old(self).status.implementation@, org_id@)
            },
    {
        if status {
            self.status.implementation.insert(org_id, comment);
            Ok(())
        } else {
            if self.status.implementation.remove(org_id.as_str()) {
                Ok(())
            } else {
                let mut reason = org_id;
                reason.append(" does not implement data declare");
                Err(InvalidObjectError::new(reason))
            }
        }
    }
}

/// Reads an array of argument declarations.
fn read_args(list: &Json) -> (r: Option<Vec<FnArgDeclare>>)
    ensures
        match r {
            Some(args) => args_of(list@) == Some(Seq::new(args@.len(), |i: int| args@[i]@)),
            None => args_of(list@) is None,
        },
{
    let items = match list {
        Json::Array(items) => items,
        _ => { return None; },
    };
    proof {
        lemma_array_view(*items);
    }
    let ghost trees = list@->Array_0;
    let mut args: Vec<FnArgDeclare> = Vec::new();
    let mut i: usize = 0;
    while i < items.len()
        invariant
            i <= items.len(),
            args.len() == i,
            list@ == JsonView::Array(trees),
            trees.len() == items.len(),
            forall|n: int| 0 <= n < items.len() ==> (#[trigger] trees[n]) == items[n]@,
            forall|n: int| 0 <= n < i ==> arg_of(#[trigger] trees[n]) == Some(args[n]@),
        decreases items.len() - i,
    {
        let arg_type = items[i].get_text("argType");
        let arg_description = items[i].get_text("description");
        match (arg_type, arg_description) {
            (Some(t), Some(d)) => {
                args.push(FnArgDeclare { arg_type: t, description: d });
            },
            _ => {
                proof {
                    let f = |j: JsonView| arg_of(j);
                    assert(f(trees[i as int]) is None);
                    assert(read_all(trees, f) is None);
                }
                return None;
            },
        }
        i = i + 1;
    }
    proof {
        let read = |j: JsonView| arg_of(j);
        assert forall|n: int| 0 <= n < trees.len() implies read(#[trigger] trees[n]) is Some by {}
        assert(read_all(trees, read)->0 =~= Seq::new(args@.len(), |i: int| args@[i]@));
    }
    Some(args)
}

impl FunctionDeclare {
    /// No organization is named twice among the implementations, and the
    /// annotations have no key twice in any of their objects.
    pub open spec fn wf(&self) -> bool {
        self.status.implementation.wf() && noted(self.metadata.annotations).well_formed()
    }

    pub fn spec(&self) -> (r: &FunctionDeclareSpec)
        ensures
            r == &self.spec,
    {
        &self.spec
    }

    pub fn status(&self) -> (r: &FunctionDeclareStatus)
        ensures
            r == &self.status,
    {
        &self.status
    }

    /// The parts of the declaration.
    pub fn to_parts(&self) -> (p: Parts)
        ensures
            p@ == self@,
    {
        let mut args: Vec<Json> = Vec::new();
        let mut i: usize = 0;
        while i < self.spec.args.len()
            invariant
                i <= self.spec.args.len(),
                args.len() == i,
                forall|n: int| 0 <= n < i ==> (#[trigger] args[n])@ == arg_tree(self.spec.args[n]@),
            decreases self.spec.args.len() - i,
        {
            let arg = &self.spec.args[i];
            let mut members: Vec<(String, Json)> = Vec::new();
            members.push((String::from_str("argType"), Json::from_text(arg.arg_type.as_str())));
            members.push((String::from_str("description"), Json::from_text(arg.description.as_str())));
            let tree = Json::object(members);
            assert(tree@.members()->0 =~= arg_tree(arg@).members()->0);
            args.push(tree);
            i = i + 1;
        }
        proof {
            lemma_array_view(args);
        }
        let args_json = Json::Array(args);
        assert(args_json@.items()->0 =~= Seq::new(self.spec@.args.len(), |i: int| arg_tree(self.spec@.args[i])));
        let mut members: Vec<(String, Json)> = Vec::new();
        members.push((String::from_str("args"), args_json));
        members.push((String::from_str("retType"), Json::from_text(self.spec.ret_type.as_str())));
        members.push((String::from_str("description"), Json::from_text(self.spec.description.as_str())));
        let spec = Json::object(members);
        assert(spec@.members()->0 =~= function_spec_tree(self.spec@).members()->0);
        Parts {
            type_meta: self.type_meta.copy(),
            name: self.metadata.name.clone(),
            namespace: Some(self.metadata.namespace.clone()),
            version: None,
            uid: self.metadata.uid,
            creator: None,
            annotations: write_annotations(&self.metadata.annotations),
            spec,
            status: Some(status_json(&self.status.implementation)),
        }
    }

    /// The JSON form of the declaration.
    pub fn to_value(&self) -> (j: Json)
        ensures
            j@ == parts_tree(self@),
            self.wf() ==> j@.well_formed(),
    {
        proof {
            if self.wf() {
                lemma_function_spec(self.spec@);
                lemma_declare_status(self.status.implementation@);
                lemma_parts_well_formed(self@);
            }
        }
        self.to_parts().write()
    }

    /// Reads a function declaration from its JSON form and holds it against the type's tag and the naming grammar.
    pub fn parse_from_value(value: &Json) -> (r: Result<FunctionDeclare, DeserializeError>)
        ensures
            match r {
                Ok(d) => function_declare_parsed(value@) == Ok::<PartsView, ParseFault>(d@) && (value@.well_formed()
                    ==> d.wf()),
                Err(e) => function_declare_parsed(value@) == Err::<PartsView, ParseFault>(fault_of(e)) && crate::objects::parts::says(
                    e,
                    Kind::FunctionDeclare,
                    value@,
                ),
            },
    {
        proof {
            if value@.well_formed() {
                lemma_spec_well_formed(value@);
            }
        }
        let parts = match Parts::read(value) {
            Some(p) => p,
            None => { return Err(DeserializeError::JsonError(String::from_str("malformed object"))); },
        };
        let namespace = match parts.namespace {
            Some(ns) => ns,
            None => { return Err(DeserializeError::JsonError(String::from_str("missing field namespace"))); },
        };
        let args = match parts.spec.get("args") {
            Some(list) => match read_args(list) {
                Some(args) => args,
                None => { return Err(DeserializeError::JsonError(String::from_str("malformed field args"))); },
            },
            None => { return Err(DeserializeError::JsonError(String::from_str("missing field args"))); },
        };
        let ret_type = match parts.spec.get_text("retType") {
            Some(s) => s,
            None => { return Err(DeserializeError::JsonError(String::from_str("missing field retType"))); },
        };
        let description = match parts.spec.get_text("description") {
            Some(s) => s,
            None => { return Err(DeserializeError::JsonError(String::from_str("missing field description"))); },
        };
        let spec = FunctionDeclareSpec { args, ret_type, description };
        assert(spec@.args =~= args_of(parts.spec@.field("args"@)->0)->0);
        let implementation = match read_status(&parts.status) {
            Some(m) => m,
            None => { return Err(DeserializeError::JsonError(String::from_str("malformed status"))); },
        };
        let annotations = match keep_annotations(parts.annotations) {
            Ok(a) => a,
            Err(e) => { return Err(e); },
        };
        match check_parts(Kind::FunctionDeclare, &parts.type_meta, parts.name.as_str()) {
            Ok(()) => {},
            Err(e) => { return Err(e); },
        }
        Ok(
            FunctionDeclare {
                type_meta: parts.type_meta,
                metadata: NamespacedMetadata { name: parts.name, namespace, uid: parts.uid, annotations },
                spec,
                status: FunctionDeclareStatus { implementation },
            },
        )
    }

    /// Reads a function declaration from JSON text.
    pub fn parse_from_slice(text: &[u8]) -> (r: Result<FunctionDeclare, DeserializeError>)
        ensures
            match r {
                Ok(d) => json_decoded(text@) matches Some(j) && function_declare_parsed(j) == Ok::<PartsView, ParseFault>(d@) && d.wf(),
                Err(e) => match json_decoded(text@) {
                    Some(j) => function_declare_parsed(j) == Err::<PartsView, ParseFault>(fault_of(e)) && crate::objects::parts::says(
                        e,
                        Kind::FunctionDeclare,
                        j,
                    ),
                    None => fault_of(e) == ParseFault::Malformed,
                },
            },
    {
        match Json::parse(text) {
            Ok(j) => FunctionDeclare::parse_from_value(&j),
            Err(msg) => Err(DeserializeError::JsonError(msg)),
        }
    }

    /// Records that an organization implements the declaration, with a
    /// remark, or that it no longer does. To take back what was never
    /// recorded is an error and changes nothing.
    pub fn set_implement(&mut self, org_id: String, status: bool, comment: String) -> (r: Result<(), InvalidObjectError>)
        requires
            old(self).wf(),
        ensures
            final(self).wf(),
            final(self).type_meta == old(self).type_meta,
            final(self).metadata == old(self).metadata,
            final(self).spec == old(self).spec,
            r is Err <==> !status && !has_key(old(self).status.implementation@, org_id@),
            final(self).status.implementation@ == if status {
                with_pair(old(self).status.implementation@, org_id@, comment@)
            } else {
                without_key(old(self).status.implementation@, org_id@)
            },
    {
        if status {
            self.status.implementation.insert(org_id, comment);
            Ok(())
        } else {
            if self.status.implementation.remove(org_id.as_str()) {
                Ok(())
            } else {
                let mut reason = org_id;
                reason.append(" does not implement function declare");
                Err(InvalidObjectError::new(reason))
            }
        }
    }
}

} // verus!
