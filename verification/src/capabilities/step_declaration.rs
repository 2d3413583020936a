//! What a workflow step declares of its result: the outcomes it may have, and
//! what it carries.
//!
//! The schema a step's model is shown and the check its result is held to are
//! both made from one declaration, so they cannot drift apart.

use crate::json::{Json, JsonView};
use crate::lists;
use crate::text::{self, Dup, contains, join};
use vstd::prelude::*;

verus! {

/// One value a step's outcome may take.
#[derive(Debug, PartialEq, Eq)]
pub struct StepOutcome {
    pub value: String,
    /// What it means.
    pub description: String,
}

/// What a [`StepOutcome`] stands for.
#[verifier::ext_equal]
pub struct StepOutcomeView {
    pub value: Seq<char>,
    pub description: Seq<char>,
}

impl DeepView for StepOutcome {
    type V = StepOutcomeView;

    open spec fn deep_view(&self) -> StepOutcomeView {
        StepOutcomeView {
            value: self.value.deep_view(),
            description: self.description.deep_view(),
        }
    }
}

impl Dup for StepOutcome {
    fn dup(&self) -> (out: Self) {
        StepOutcome {
            value: self.value.dup(),
            description: self.description.dup(),
        }
    }
}

impl Clone for StepOutcome {
    fn clone(&self) -> (out: Self)
        ensures
            out.deep_view() == self.deep_view(),
    {
        self.dup()
    }
}

/// What a field of a step's result holds.
#[derive(Debug, Clone, Copy, PartialEq, Eq, Structural)]
pub enum StepFieldType {
    String,
    StringList,
}

impl DeepView for StepFieldType {
    type V = StepFieldType;

    open spec fn deep_view(&self) -> StepFieldType {
        *self
    }
}

impl Dup for StepFieldType {
    fn dup(&self) -> (out: Self) {
        *self
    }
}

/// Something a step's result carries beyond its outcome and description.
#[derive(Debug, PartialEq, Eq)]
pub struct StepField {
    pub name: String,
    pub kind: StepFieldType,
    pub description: String,
    /// Whether a result must carry it; it need not unless this says so.
    pub required: Option<bool>,
}

/// What a [`StepField`] stands for.
#[verifier::ext_equal]
pub struct StepFieldView {
    pub name: Seq<char>,
    pub kind: StepFieldType,
    pub description: Seq<char>,
    pub required: Option<bool>,
}

impl DeepView for StepField {
    type V = StepFieldView;

    open spec fn deep_view(&self) -> StepFieldView {
        StepFieldView {
            name: self.name.deep_view(),
            kind: self.kind.deep_view(),
            description: self.description.deep_view(),
            required: self.required.deep_view(),
        }
    }
}

impl Dup for StepField {
    fn dup(&self) -> (out: Self) {
        StepField {
            name: self.name.dup(),
            kind: self.kind.dup(),
            description: self.description.dup(),
            required: self.required.dup(),
        }
    }
}

impl Clone for StepField {
    fn clone(&self) -> (out: Self)
        ensures
            out.deep_view() == self.deep_view(),
    {
        self.dup()
    }
}

/// The values a step's outcome may take.
pub open spec fn outcome_values(outcomes: Seq<StepOutcomeView>) -> Seq<Seq<char>> {
    outcomes.map_values(|o: StepOutcomeView| o.value)
}

/// What those values mean, a line for each.
pub open spec fn outcome_lines(outcomes: Seq<StepOutcomeView>) -> Seq<Seq<char>> {
    outcomes.map_values(|o: StepOutcomeView| o.value + ": "@ + o.description)
}

/// A text member.
pub open spec fn said(name: Seq<char>, text: Seq<char>) -> (Seq<char>, JsonView) {
    (name, JsonView::String(text))
}

/// The schema of a field.
pub open spec fn field_schema(field: StepFieldView) -> JsonView {
    match field.kind {
        StepFieldType::String => JsonView::Object(
            seq![said("type"@, "string"@), said("description"@, field.description)],
        ),
        StepFieldType::StringList => JsonView::Object(
            seq![
                said("type"@, "array"@),
                ("items"@, JsonView::Object(seq![said("type"@, "string"@)])),
                said("description"@, field.description),
            ],
        ),
    }
}

/// The names of the fields a result must carry.
pub open spec fn required_fields(fields: Seq<StepFieldView>) -> Seq<Seq<char>> {
    lists::filter_map(
        fields,
        |f: StepFieldView|
            if f.required == Some(true) {
                Some(f.name)
            } else {
                None
            },
    )
}

/// The schema of a step's outcome.
pub open spec fn outcome_schema(outcomes: Seq<StepOutcomeView>) -> JsonView {
    JsonView::Object(
        seq![
            said("type"@, "string"@),
            ("enum"@, named_texts(outcome_values(outcomes))),
            said("description"@, text::joined(outcome_lines(outcomes), "\n"@)),
        ],
    )
}

/// The schema a step's result is submitted by.
pub open spec fn schema_of(outcomes: Seq<StepOutcomeView>, fields: Seq<StepFieldView>) -> JsonView {
    JsonView::Object(
        seq![
            said("type"@, "object"@),
            (
                "required"@,
                named_texts(seq!["outcome"@, "description"@] + required_fields(fields)),
            ),
            (
                "properties"@,
                JsonView::Object(
                    seq![
                        ("outcome"@, outcome_schema(outcomes)),
                        (
                            "description"@,
                            JsonView::Object(
                                seq![
                                    said("type"@, "string"@),
                                    said("description"@, DESCRIPTION_DOC@),
                                ],
                            ),
                        ),
                    ] + fields.map_values(|f: StepFieldView| (f.name, field_schema(f))),
                ),
            ),
        ],
    )
}

/// What a step is told its result's description is for.
pub const DESCRIPTION_DOC: &'static str = "What happened in this step, complete and self-contained: it is what the next step reads.";

/// Texts, as a JSON list.
pub open spec fn named_texts(texts: Seq<Seq<char>>) -> JsonView {
    JsonView::Array(texts.map_values(|t: Seq<char>| JsonView::String(t)))
}

/// Texts, as a JSON list.
fn texts_json(texts: &[String]) -> (r: Json)
    ensures
        r.deep_view() == named_texts(texts.deep_view()),
{
    let mut items: Vec<Json> = Vec::new();
    for i in 0..texts.len()
        invariant
            items.len() == i,
            forall|j: int|
                0 <= j < i ==> (#[trigger] items@[j]).model() == JsonView::String(
                    texts.deep_view()[j],
                ),
    {
        proof {
            assert(texts.deep_view()[i as int] == texts@[i as int]@);
        }
        items.push(Json::String(texts[i].clone()));
    }
    let r = Json::Array(items);
    proof {
        assert(r.deep_view()->Array_0 =~= named_texts(texts.deep_view())->Array_0);
    }
    r
}

/// A text member.
fn text_member(name: &str, text: &str) -> (r: (String, Json))
    ensures
        (r.0@, r.1.model()) == said(name@, text@),
{
    (name.to_owned(), Json::String(text.to_owned()))
}

/// An object of these members.
fn object_of(members: Vec<(String, Json)>) -> (r: Json)
    ensures
        r.deep_view() == JsonView::Object(members_of(members@)),
{
    let r = Json::Object(members);
    proof {
        assert(r.deep_view()->Object_0 =~= members_of(members@));
    }
    r
}

/// What members stand for.
pub open spec fn members_of(members: Seq<(String, Json)>) -> Seq<(Seq<char>, JsonView)> {
    members.map_values(|m: (String, Json)| (m.0@, m.1.model()))
}

/// The schema of a field.
fn schema_of_field(field: &StepField) -> (r: Json)
    ensures
        r.deep_view() == field_schema(field.deep_view()),
{
    let mut members: Vec<(String, Json)> = Vec::new();
    match field.kind {
        StepFieldType::String => {
            members.push(text_member("type", "string"));
        },
        StepFieldType::StringList => {
            members.push(text_member("type", "array"));
            let mut items: Vec<(String, Json)> = Vec::new();
            items.push(text_member("type", "string"));
            proof {
                assert(members_of(items@) =~= seq![said("type"@, "string"@)]);
            }
            members.push(("items".to_owned(), object_of(items)));
        },
    }
    members.push(text_member("description", field.description.as_str()));
    proof {
        assert(members_of(members@) =~= field_schema(field.deep_view())->Object_0);
    }
    object_of(members)
}

/// The schema of a step's outcome.
fn schema_of_outcome(outcomes: &[StepOutcome]) -> (r: Json)
    ensures
        r.deep_view() == outcome_schema(outcomes.deep_view()),
{
    let ghost all = outcomes.deep_view();
    let ghost values = outcome_values(all);
    let ghost docs = outcome_lines(all);
    let mut names: Vec<String> = Vec::new();
    let mut lines: Vec<String> = Vec::new();
    for i in 0..outcomes.len()
        invariant
            all == outcomes.deep_view(),
            values == outcome_values(all),
            docs == outcome_lines(all),
            names.deep_view() == values.take(i as int),
            lines.deep_view() == docs.take(i as int),
    {
        let ghost had_names = names.deep_view();
        let ghost had_lines = lines.deep_view();
        proof {
            assert(all[i as int] == outcomes@[i as int].deep_view());
        }
        names.push(outcomes[i].value.clone());
        let mut line = outcomes[i].value.clone();
        line.append(": ");
        line.append(outcomes[i].description.as_str());
        lines.push(line);
        proof {
            assert(names.deep_view() =~= had_names.push(values[i as int]));
            assert(values.take(i + 1) =~= values.take(i as int).push(values[i as int]));
            assert(lines.deep_view() =~= had_lines.push(docs[i as int]));
            assert(docs.take(i + 1) =~= docs.take(i as int).push(docs[i as int]));
        }
    }
    proof {
        assert(values.take(outcomes.len() as int) =~= values);
        assert(docs.take(outcomes.len() as int) =~= docs);
    }
    let mut members: Vec<(String, Json)> = Vec::new();
    members.push(text_member("type", "string"));
    members.push(("enum".to_owned(), texts_json(&names)));
    members.push(text_member("description", join(&lines, "\n").as_str()));
    proof {
        assert(members_of(members@) =~= outcome_schema(all)->Object_0);
    }
    object_of(members)
}

/// The schema a step's result is submitted by.
pub fn result_schema(outcomes: &[StepOutcome], fields: &[StepField]) -> (r: Json)
    ensures
        r.deep_view() == schema_of(outcomes.deep_view(), fields.deep_view()),
{
    let ghost all = fields.deep_view();
    let ghost pick = |f: StepFieldView|
        if f.required == Some(true) {
            Some(f.name)
        } else {
            None
        };
    let ghost shown = all.map_values(|f: StepFieldView| (f.name, field_schema(f)));
    let mut required: Vec<String> = Vec::new();
    required.push("outcome".to_owned());
    required.push("description".to_owned());
    let mut doc: Vec<(String, Json)> = Vec::new();
    doc.push(text_member("type", "string"));
    doc.push(text_member("description", DESCRIPTION_DOC));
    proof {
        assert(members_of(doc@) =~= seq![
            said("type"@, "string"@),
            said("description"@, DESCRIPTION_DOC@),
        ]);
    }
    let mut properties: Vec<(String, Json)> = Vec::new();
    properties.push(("outcome".to_owned(), schema_of_outcome(outcomes)));
    properties.push(("description".to_owned(), object_of(doc)));
    let ghost head = members_of(properties@);
    proof {
        assert(required.deep_view() =~= seq!["outcome"@, "description"@] + lists::filter_map(
            all.take(0),
            pick,
        ));
        assert(members_of(properties@) =~= head + shown.take(0));
    }
    for i in 0..fields.len()
        invariant
            all == fields.deep_view(),
            pick == (|f: StepFieldView|
                if f.required == Some(true) {
                    Some(f.name)
                } else {
                    None
                }),
            shown == all.map_values(|f: StepFieldView| (f.name, field_schema(f))),
            required.deep_view() == seq!["outcome"@, "description"@] + lists::filter_map(
                all.take(i as int),
                pick,
            ),
            members_of(properties@) == head + shown.take(i as int),
    {
        let ghost had_required = required.deep_view();
        let ghost had_properties = members_of(properties@);
        proof {
            lists::lemma_filter_map_step(all, pick, i as int);
            assert(all[i as int] == fields@[i as int].deep_view());
        }
        if let Some(true) = fields[i].required {
            required.push(fields[i].name.clone());
            proof {
                assert(required.deep_view() =~= had_required.push(all[i as int].name));
                assert(seq!["outcome"@, "description"@] + lists::filter_map(all.take(i + 1), pick)
                    =~= had_required.push(all[i as int].name));
            }
        }
        properties.push((fields[i].name.clone(), schema_of_field(&fields[i])));
        proof {
            assert(members_of(properties@) =~= had_properties.push(shown[i as int]));
            assert(head + shown.take(i + 1) =~= (head + shown.take(i as int)).push(
                shown[i as int],
            ));
        }
    }
    proof {
        assert(all.take(fields.len() as int) =~= all);
        assert(shown.take(fields.len() as int) =~= shown);
    }
    let mut members: Vec<(String, Json)> = Vec::new();
    members.push(text_member("type", "object"));
    members.push(("required".to_owned(), texts_json(&required)));
    members.push(("properties".to_owned(), object_of(properties)));
    proof {
        assert(head =~= seq![
            ("outcome"@, outcome_schema(outcomes.deep_view())),
            (
                "description"@,
                JsonView::Object(
                    seq![said("type"@, "string"@), said("description"@, DESCRIPTION_DOC@)],
                ),
            ),
        ]);
        assert(members_of(members@) =~= schema_of(outcomes.deep_view(), all)->Object_0);
    }
    object_of(members)
}

/// Whether a value is a list of texts.
pub open spec fn is_text_list(value: JsonView) -> bool {
    value matches JsonView::Array(items) && forall|i: int|
        0 <= i < items.len() ==> (#[trigger] items[i]).as_str() is Some
}

/// What is wrong with a field of a result, if anything is.
pub open spec fn field_error(input: JsonView, field: StepFieldView) -> Option<Seq<char>> {
    match input.get(field.name) {
        None => if field.required == Some(true) {
            Some("'"@ + field.name + "' is required"@)
        } else {
            None
        },
        Some(value) => match field.kind {
            StepFieldType::String => if value.as_str() is Some {
                None
            } else {
                Some("'"@ + field.name + "' must be a string"@)
            },
            StepFieldType::StringList => if is_text_list(value) {
                None
            } else {
                Some("'"@ + field.name + "' must be a list of strings"@)
            },
        },
    }
}

/// What is wrong with a result, if anything is; the first thing that is.
pub open spec fn result_error(
    input: JsonView,
    outcomes: Seq<StepOutcomeView>,
    fields: Seq<StepFieldView>,
) -> Option<Seq<char>> {
    match input.str_at("outcome"@) {
        None => Some("'outcome' is required"@),
        Some(outcome) => if !outcome_values(outcomes).contains(outcome) {
            Some(
                "outcome '"@ + outcome + "' is not one of "@ + text::joined(
                    outcome_values(outcomes),
                    ", "@,
                ),
            )
        } else if input.str_at("description"@) is None {
            Some("'description' is required"@)
        } else {
            lists::find_map(fields, |f: StepFieldView| field_error(input, f))
        },
    }
}

/// Whether a value is a list of texts.
fn lists_texts(value: &Json) -> (r: bool)
    ensures
        r == is_text_list(value.deep_view()),
{
    match value {
        Json::Array(items) => {
            let ghost all = value.deep_view()->Array_0;
            for i in 0..items.len()
                invariant
                    *value == Json::Array(*items),
                    all == value.deep_view()->Array_0,
                    forall|j: int| 0 <= j < i ==> (#[trigger] all[j]).as_str() is Some,
            {
                proof {
                    assert(all[i as int] == items@[i as int].model());
                }
                if let None = items[i].as_str() {
                    return false;
                }
            }
            true
        },
        _ => false,
    }
}

/// What is wrong with a field of a result, if anything is.
fn error_in_field(input: &Json, field: &StepField) -> (r: Option<String>)
    ensures
        r.deep_view() == field_error(input.deep_view(), field.deep_view()),
{
    let mut out = "'".to_owned();
    out.append(field.name.as_str());
    match input.get(field.name.as_str()) {
        None => {
            if let Some(true) = field.required {
                out.append("' is required");
                Some(out)
            } else {
                None
            }
        },
        Some(value) => match field.kind {
            StepFieldType::String => {
                if let Some(_) = value.as_str() {
                    None
                } else {
                    out.append("' must be a string");
                    Some(out)
                }
            },
            StepFieldType::StringList => {
                if lists_texts(value) {
                    None
                } else {
                    out.append("' must be a list of strings");
                    Some(out)
                }
            },
        },
    }
}

/// Hold a result to what the step declared.
pub fn validate_result(input: &Json, outcomes: &[StepOutcome], fields: &[StepField]) -> (r: Result<
    (),
    String,
>)
    ensures
        match r {
            Ok(()) => result_error(
                input.deep_view(),
                outcomes.deep_view(),
                fields.deep_view(),
            ) is None,
            Err(reason) => result_error(
                input.deep_view(),
                outcomes.deep_view(),
                fields.deep_view(),
            ) == Some(reason@),
        },
{
    let outcome = match input.str_at("outcome") {
        Some(outcome) => outcome,
        None => {
            return Err("'outcome' is required".to_owned());
        },
    };
    let ghost declared = outcome_values(outcomes.deep_view());
    let mut values: Vec<String> = Vec::new();
    for i in 0..outcomes.len()
        invariant
            declared == outcome_values(outcomes.deep_view()),
            values.deep_view() == declared.take(i as int),
    {
        let ghost had = values.deep_view();
        proof {
            assert(outcomes.deep_view()[i as int] == outcomes@[i as int].deep_view());
        }
        values.push(outcomes[i].value.clone());
        proof {
            assert(values.deep_view() =~= had.push(declared[i as int]));
            assert(declared.take(i + 1) =~= declared.take(i as int).push(declared[i as int]));
        }
    }
    proof {
        assert(declared.take(outcomes.len() as int) =~= declared);
    }
    if !contains(&values, outcome) {
        let mut reason = "outcome '".to_owned();
        reason.append(outcome);
        reason.append("' is not one of ");
        reason.append(join(&values, ", ").as_str());
        return Err(reason);
    }
    if let None = input.str_at("description") {
        return Err("'description' is required".to_owned());
    }
    let ghost all = fields.deep_view();
    let ghost f = |f: StepFieldView| field_error(input.deep_view(), f);
    proof {
        assert(all.skip(0) =~= all);
    }
    for i in 0..fields.len()
        invariant
            all == fields.deep_view(),
            f == (|f: StepFieldView| field_error(input.deep_view(), f)),
            lists::find_map(all, f) == lists::find_map(all.skip(i as int), f),
            result_error(input.deep_view(), outcomes.deep_view(), all) == lists::find_map(all, f),
    {
        proof {
            assert(all[i as int] == fields@[i as int].deep_view());
            assert(all.skip(i as int)[0] == all[i as int]);
            assert(all.skip(i as int).drop_first() =~= all.skip(i + 1));
        }
        if let Some(reason) = error_in_field(input, &fields[i]) {
            return Err(reason);
        }
    }
    proof {
        assert(all.skip(fields.len() as int) =~= seq![]);
    }
    Ok(())
}

/// A result that is accepted has a declared outcome and every field that is
/// required.
pub proof fn law_an_accepted_result_is_complete(
    input: JsonView,
    outcomes: Seq<StepOutcomeView>,
    fields: Seq<StepFieldView>,
    i: int,
)
    requires
        result_error(input, outcomes, fields) is None,
        0 <= i < fields.len(),
        fields[i].required == Some(true),
    ensures
        input.str_at("outcome"@) is Some,
        outcome_values(outcomes).contains(input.str_at("outcome"@)->Some_0),
        input.str_at("description"@) is Some,
        input.get(fields[i].name) is Some,
{
    let f = |f: StepFieldView| field_error(input, f);
    lists::lemma_find_map_none(fields, f, i);
    assert(f(fields[i]) is None);
}

/// A field that was submitted has to be of its kind, and one that is required
/// has to be there; one that is neither required nor there is no error.
pub proof fn law_a_field_is_held_to_its_kind(input: JsonView, field: StepFieldView)
    ensures
        ({
            let value = input.get(field.name);
            let text = value matches Some(JsonView::String(_));
            let texts = value matches Some(JsonView::Array(items)) && forall|i: int|
                0 <= i < items.len() ==> ((#[trigger] items[i]) is String);
            let r = field_error(input, field);
            &&& value is None && field.required == Some(true) ==> r == Some(
                "'"@ + field.name + "' is required"@,
            )
            &&& value is None && field.required != Some(true) ==> r is None
            &&& value is Some && field.kind == StepFieldType::String && text ==> r is None
            &&& value is Some && field.kind == StepFieldType::String && !text ==> r == Some(
                "'"@ + field.name + "' must be a string"@,
            )
            &&& value is Some && field.kind == StepFieldType::StringList && texts ==> r is None
            &&& value is Some && field.kind == StepFieldType::StringList && !texts ==> r == Some(
                "'"@ + field.name + "' must be a list of strings"@,
            )
        }),
{
    if let Some(JsonView::Array(items)) = input.get(field.name) {
        assert(is_text_list(JsonView::Array(items)) <==> forall|i: int|
            0 <= i < items.len() ==> ((#[trigger] items[i]) is String));
    }
}

/// A result is accepted exactly when it names one of the declared outcomes,
/// describes what happened and has every field as declared; it is refused for
/// the first of these it fails, and of the fields for the first in order.
pub proof fn law_a_result_is_refused_for_the_first_thing_missing(
    input: JsonView,
    outcomes: Seq<StepOutcomeView>,
    fields: Seq<StepFieldView>,
    outcome: Seq<char>,
    text: Seq<char>,
    k: int,
)
    ensures
        ({
            let r = result_error(input, outcomes, fields);
            let named = input.get("outcome"@) == Some(JsonView::String(outcome));
            let declared = exists|i: int|
                0 <= i < outcomes.len() && (#[trigger] outcomes[i]).value == outcome;
            let described = input.get("description"@) == Some(JsonView::String(text));
            &&& input.get("outcome"@) is None ==> r == Some("'outcome' is required"@)
            &&& named && !declared ==> r == Some(
                "outcome '"@ + outcome + "' is not one of "@ + text::joined(
                    outcome_values(outcomes),
                    ", "@,
                ),
            )
            &&& named && declared && input.get("description"@) is None ==> r == Some(
                "'description' is required"@,
            )
            &&& named && declared && described && 0 <= k < fields.len() && field_error(
                input,
                fields[k],
            ) is Some && (forall|j: int|
                0 <= j < k ==> field_error(input, #[trigger] fields[j]) is None) ==> r
                == field_error(input, fields[k])
            &&& named && declared && described && (forall|j: int|
                0 <= j < fields.len() ==> field_error(input, #[trigger] fields[j]) is None)
                ==> r is None
        }),
{
    let declared = exists|i: int|
        0 <= i < outcomes.len() && (#[trigger] outcomes[i]).value == outcome;
    assert(outcome_values(outcomes).contains(outcome) <==> declared) by {
        if declared {
            let i = choose|i: int|
                0 <= i < outcomes.len() && (#[trigger] outcomes[i]).value == outcome;
            assert(outcome_values(outcomes)[i] == outcome);
        }
        if outcome_values(outcomes).contains(outcome) {
            let i = choose|i: int|
                0 <= i < outcome_values(outcomes).len() && outcome_values(outcomes)[i] == outcome;
            assert(outcomes[i].value == outcome);
        }
    }
    let pick = |f: StepFieldView| field_error(input, f);
    if forall|j: int| 0 <= j < fields.len() ==> field_error(input, #[trigger] fields[j]) is None {
        assert forall|j: int| 0 <= j < fields.len() implies pick(#[trigger] fields[j]) is None by {
            assert(field_error(input, fields[j]) is None);
        }
        crate::lists::law_a_search_ends_at_the_first_find(fields, pick, fields.len() as int);
    }
    if 0 <= k < fields.len() && field_error(input, fields[k]) is Some && (forall|j: int|
        0 <= j < k ==> field_error(input, #[trigger] fields[j]) is None) {
        assert forall|j: int| 0 <= j < k implies pick(#[trigger] fields[j]) is None by {
            assert(field_error(input, fields[j]) is None);
        }
        crate::lists::law_a_search_ends_at_the_first_find(fields, pick, k);
    }
}

/// The fields a result must have are those declared required, in order.
pub proof fn law_required_fields_are_those_declared_so(
    a: Seq<StepFieldView>,
    b: Seq<StepFieldView>,
    field: StepFieldView,
)
    ensures
        required_fields(a + b) == required_fields(a) + required_fields(b),
        field.required == Some(true) ==> required_fields(seq![field]) == seq![field.name],
        field.required != Some(true) ==> required_fields(seq![field]).len() == 0,
{
    let pick = |f: StepFieldView|
        if f.required == Some(true) {
            Some(f.name)
        } else {
            None
        };
    crate::lists::law_a_list_is_filtered_item_by_item(a, b, field, pick);
}

/// A field's schema says its kind and its description.
pub proof fn law_a_field_is_shown_as_declared(field: StepFieldView)
    ensures
        field.kind == StepFieldType::String ==> field_schema(field) == JsonView::Object(
            seq![
                ("type"@, JsonView::String("string"@)),
                ("description"@, JsonView::String(field.description)),
            ],
        ),
        field.kind == StepFieldType::StringList ==> field_schema(field) == JsonView::Object(
            seq![
                ("type"@, JsonView::String("array"@)),
                (
                    "items"@,
                    JsonView::Object(seq![("type"@, JsonView::String("string"@))]),
                ),
                ("description"@, JsonView::String(field.description)),
            ],
        ),
{
}

/// The schema of a result asks for an outcome and a description, and for every
/// required field; it names exactly the declared outcomes, in order, and shows
/// each field behind them under its name.
pub proof fn law_a_result_is_shown_as_declared(
    outcomes: Seq<StepOutcomeView>,
    fields: Seq<StepFieldView>,
    i: int,
    j: int,
)
    requires
        0 <= i < outcomes.len(),
        0 <= j < fields.len(),
    ensures
        schema_of(outcomes, fields) matches JsonView::Object(members) && members.len() == 3
            && members[0] == ("type"@, JsonView::String("object"@)) && members[1] == (
            "required"@,
            named_texts(seq!["outcome"@, "description"@] + required_fields(fields)),
        ) && members[2].0 == "properties"@ && (members[2].1 matches JsonView::Object(shown)
            && shown.len() == fields.len() + 2 && shown[0] == (
            "outcome"@,
            outcome_schema(outcomes),
        ) && shown[1].0 == "description"@ && shown[j + 2] == (
            fields[j].name,
            field_schema(fields[j]),
        )),
        outcome_schema(outcomes) matches JsonView::Object(members) && members.len() == 3
            && members[0] == ("type"@, JsonView::String("string"@)) && members[1].0 == "enum"@ && (
        members[1].1 matches JsonView::Array(values) && values.len() == outcomes.len() && values[i]
            == JsonView::String(outcomes[i].value)) && members[2] == (
            "description"@,
            JsonView::String(text::joined(outcome_lines(outcomes), "\n"@)),
        ),
        outcome_lines(outcomes)[i] == outcomes[i].value + ": "@ + outcomes[i].description,
{
}

} // verus!
