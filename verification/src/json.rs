//! JSON values as the agent loop reads them.
//!
//! A tool call's arguments arrive as one of these. Numbers keep the three
//! shapes a JSON document can give them; a fractional one is kept as the text
//! it was written as, because nothing here computes with it.

use crate::ids;
use crate::text::{self, Dup, number, same};
use vstd::prelude::*;

verus! {

/// A JSON number.
#[derive(Debug, PartialEq, Eq)]
pub enum Number {
    /// A whole number that is not negative.
    PosInt(u64),
    /// A whole number below zero.
    NegInt(i64),
    /// Any other number, as written.
    Fraction(String),
}

/// A JSON value.
#[derive(Debug, PartialEq, Eq)]
pub enum Json {
    Null,
    Bool(bool),
    Number(Number),
    String(String),
    Array(Vec<Json>),
    /// Members in the order they are held; no name occurs twice in a value
    /// that was read from a document.
    Object(Vec<(String, Json)>),
}

/// What a [`Number`] stands for.
pub enum NumberView {
    PosInt(u64),
    NegInt(i64),
    Fraction(Seq<char>),
}

/// What a [`Json`] stands for.
#[verifier::ext_equal]
pub enum JsonView {
    Null,
    Bool(bool),
    Number(NumberView),
    String(Seq<char>),
    Array(Seq<JsonView>),
    Object(Seq<(Seq<char>, JsonView)>),
}

impl DeepView for Number {
    type V = NumberView;

    open spec fn deep_view(&self) -> NumberView {
        match self {
            Number::PosInt(n) => NumberView::PosInt(*n),
            Number::NegInt(n) => NumberView::NegInt(*n),
            Number::Fraction(text) => NumberView::Fraction(text@),
        }
    }
}

impl Json {
    /// The value this stands for.
    pub open spec fn model(self) -> JsonView
        decreases self,
    {
        match self {
            Json::Null => JsonView::Null,
            Json::Bool(b) => JsonView::Bool(b),
            Json::Number(n) => JsonView::Number(n.deep_view()),
            Json::String(s) => JsonView::String(s@),
            Json::Array(items) => JsonView::Array(
                Seq::new(
                    items@.len(),
                    |i: int|
                        if 0 <= i < items@.len() {
                            items@[i].model()
                        } else {
                            JsonView::Null
                        },
                ),
            ),
            Json::Object(members) => JsonView::Object(
                Seq::new(
                    members@.len(),
                    |i: int|
                        if 0 <= i < members@.len() {
                            (members@[i].0@, members@[i].1.model())
                        } else {
                            (seq![], JsonView::Null)
                        },
                ),
            ),
        }
    }
}

impl DeepView for Json {
    type V = JsonView;

    open spec fn deep_view(&self) -> JsonView {
        self.model()
    }
}

impl JsonView {
    /// The first member of this name, when this is an object that has one.
    pub open spec fn get(self, name: Seq<char>) -> Option<JsonView> {
        match self {
            JsonView::Object(members) => first_member(members, name),
            _ => None,
        }
    }

    /// The text of a string.
    pub open spec fn as_str(self) -> Option<Seq<char>> {
        match self {
            JsonView::String(s) => Some(s),
            _ => None,
        }
    }

    /// The truth of a boolean.
    pub open spec fn as_bool(self) -> Option<bool> {
        match self {
            JsonView::Bool(b) => Some(b),
            _ => None,
        }
    }

    /// The value of a whole number that is not negative.
    pub open spec fn as_u64(self) -> Option<u64> {
        match self {
            JsonView::Number(NumberView::PosInt(n)) => Some(n),
            _ => None,
        }
    }

    /// The string member of this name.
    pub open spec fn str_at(self, name: Seq<char>) -> Option<Seq<char>> {
        match self.get(name) {
            Some(v) => v.as_str(),
            None => None,
        }
    }

    /// The string member of this name, or nothing written at all.
    pub open spec fn str_or_empty(self, name: Seq<char>) -> Seq<char> {
        match self.str_at(name) {
            Some(s) => s,
            None => seq![],
        }
    }

    /// The boolean member of this name.
    pub open spec fn bool_at(self, name: Seq<char>) -> Option<bool> {
        match self.get(name) {
            Some(v) => v.as_bool(),
            None => None,
        }
    }

    /// The whole-number member of this name.
    pub open spec fn u64_at(self, name: Seq<char>) -> Option<u64> {
        match self.get(name) {
            Some(v) => v.as_u64(),
            None => None,
        }
    }
}

/// The value of the first member of this name.
pub open spec fn first_member(members: Seq<(Seq<char>, JsonView)>, name: Seq<char>) -> Option<
    JsonView,
>
    decreases members.len(),
{
    if members.len() == 0 {
        None
    } else if members[0].0 == name {
        Some(members[0].1)
    } else {
        first_member(members.drop_first(), name)
    }
}

/// The strings among these values, in order.
pub open spec fn strings_among(items: Seq<JsonView>) -> Seq<Seq<char>>
    decreases items.len(),
{
    if items.len() == 0 {
        seq![]
    } else {
        match items.last().as_str() {
            Some(s) => strings_among(items.drop_last()).push(s),
            None => strings_among(items.drop_last()),
        }
    }
}

/// The strings of an array member, none when there is no such array.
pub open spec fn strings_in(input: JsonView, name: Seq<char>) -> Seq<Seq<char>> {
    match input.get(name) {
        Some(JsonView::Array(items)) => strings_among(items),
        _ => seq![],
    }
}

impl Json {
    /// The first member of this name, when this is an object that has one.
    pub fn get(&self, name: &str) -> (r: Option<&Json>)
        ensures
            match r {
                Some(v) => self.deep_view().get(name@) == Some(v.deep_view()),
                None => self.deep_view().get(name@) is None,
            },
    {
        match self {
            Json::Object(members) => {
                let ghost all = self.deep_view()->Object_0;
                proof {
                    assert(all.skip(0) =~= all);
                }
                for i in 0..members.len()
                    invariant
                        *self == Json::Object(*members),
                        all == self.deep_view()->Object_0,
                        first_member(all.skip(i as int), name@) == first_member(all, name@),
                {
                    proof {
                        assert(all.skip(i as int).drop_first() =~= all.skip(i + 1));
                    }
                    if same(members[i].0.as_str(), name) {
                        return Some(&members[i].1);
                    }
                }
                None
            },
            _ => None,
        }
    }

    /// The text of a string.
    pub fn as_str(&self) -> (r: Option<&str>)
        ensures
            match r {
                Some(s) => self.deep_view().as_str() == Some(s@),
                None => self.deep_view().as_str() is None,
            },
    {
        match self {
            Json::String(s) => Some(s.as_str()),
            _ => None,
        }
    }

    /// The truth of a boolean.
    pub fn as_bool(&self) -> (r: Option<bool>)
        ensures
            r == self.deep_view().as_bool(),
    {
        match self {
            Json::Bool(b) => Some(*b),
            _ => None,
        }
    }

    /// The value of a whole number that is not negative.
    pub fn as_u64(&self) -> (r: Option<u64>)
        ensures
            r == self.deep_view().as_u64(),
    {
        match self {
            Json::Number(Number::PosInt(n)) => Some(*n),
            _ => None,
        }
    }

    /// The string member of this name.
    pub fn str_at(&self, name: &str) -> (r: Option<&str>)
        ensures
            match r {
                Some(s) => self.deep_view().str_at(name@) == Some(s@),
                None => self.deep_view().str_at(name@) is None,
            },
    {
        match self.get(name) {
            Some(v) => v.as_str(),
            None => None,
        }
    }

    /// The string member of this name, or nothing written at all.
    pub fn str_or_empty(&self, name: &str) -> (r: String)
        ensures
            r@ == self.deep_view().str_or_empty(name@),
    {
        match self.str_at(name) {
            Some(s) => s.to_owned(),
            None => String::new(),
        }
    }

    /// The boolean member of this name.
    pub fn bool_at(&self, name: &str) -> (r: Option<bool>)
        ensures
            r == self.deep_view().bool_at(name@),
    {
        match self.get(name) {
            Some(v) => v.as_bool(),
            None => None,
        }
    }

    /// The whole-number member of this name.
    pub fn u64_at(&self, name: &str) -> (r: Option<u64>)
        ensures
            r == self.deep_view().u64_at(name@),
    {
        match self.get(name) {
            Some(v) => v.as_u64(),
            None => None,
        }
    }

    /// The strings of the array member of this name, in order; none when there
    /// is no such array.
    pub fn strings_at(&self, name: &str) -> (r: Vec<String>)
        ensures
            r.deep_view() == strings_in(self.deep_view(), name@),
    {
        let mut out: Vec<String> = Vec::new();
        if let Some(Json::Array(items)) = self.get(name) {
            let ghost all = Json::Array(*items).deep_view()->Array_0;
            for i in 0..items.len()
                invariant
                    all == Json::Array(*items).deep_view()->Array_0,
                    out.deep_view() == strings_among(all.take(i as int)),
            {
                proof {
                    assert(all.take(i + 1).drop_last() =~= all.take(i as int));
                }
                let ghost before = out.deep_view();
                if let Some(s) = items[i].as_str() {
                    out.push(s.to_owned());
                    proof {
                        assert(out.deep_view() =~= before.push(s@));
                    }
                }
            }
            proof {
                assert(all.take(items.len() as int) =~= all);
            }
        } else {
            proof {
                assert(out.deep_view() =~= seq![]);
            }
        }
        out
    }
}

impl Dup for Number {
    fn dup(&self) -> (out: Self) {
        match self {
            Number::PosInt(n) => Number::PosInt(*n),
            Number::NegInt(n) => Number::NegInt(*n),
            Number::Fraction(text) => Number::Fraction(text.clone()),
        }
    }
}

/// A copy of a value, member by member.
fn copied(value: &Json) -> (out: Json)
    ensures
        out.deep_view() == value.deep_view(),
    decreases value,
{
    match value {
        Json::Null => Json::Null,
        Json::Bool(b) => Json::Bool(*b),
        Json::Number(n) => Json::Number(n.dup()),
        Json::String(s) => Json::String(s.clone()),
        Json::Array(items) => {
            let mut out: Vec<Json> = Vec::new();
            for i in 0..items.len()
                invariant
                    *value == Json::Array(*items),
                    out.len() == i,
                    forall|j: int| 0 <= j < i ==> out@[j].model() == items@[j].model(),
            {
                proof {
                    assert(decreases_to!(*value => value->Array_0));
                    assert(decreases_to!(value->Array_0@ => value->Array_0@[i as int]));
                }
                out.push(copied(&items[i]));
            }
            let out = Json::Array(out);
            assert(out.model()->Array_0 =~= value.model()->Array_0);
            out
        },
        Json::Object(members) => {
            let mut out: Vec<(String, Json)> = Vec::new();
            for i in 0..members.len()
                invariant
                    *value == Json::Object(*members),
                    out.len() == i,
                    forall|j: int|
                        0 <= j < i ==> out@[j].0@ == members@[j].0@ && out@[j].1.model()
                            == members@[j].1.model(),
            {
                proof {
                    assert(decreases_to!(*value => value->Object_0));
                    assert(decreases_to!(value->Object_0@ => value->Object_0@[i as int]));
                    assert(decreases_to!(value->Object_0@[i as int] => value->Object_0@[i as int].1));
                }
                out.push((members[i].0.clone(), copied(&members[i].1)));
            }
            let out = Json::Object(out);
            assert(out.model()->Object_0 =~= value.model()->Object_0);
            out
        },
    }
}

impl Dup for Json {
    fn dup(&self) -> (out: Self) {
        copied(self)
    }
}

impl Clone for Number {
    fn clone(&self) -> (out: Self)
        ensures
            out.deep_view() == self.deep_view(),
    {
        self.dup()
    }
}

impl Clone for Json {
    fn clone(&self) -> (out: Self)
        ensures
            out.deep_view() == self.deep_view(),
    {
        copied(self)
    }
}

/// How one character is written inside a JSON string.
pub open spec fn escaped_char(c: char) -> Seq<char> {
    let n = c as int;
    if c == '"' {
        seq!['\\', '"']
    } else if c == '\\' {
        seq!['\\', '\\']
    } else if n == 0x8 {
        seq!['\\', 'b']
    } else if n == 0x9 {
        seq!['\\', 't']
    } else if n == 0xa {
        seq!['\\', 'n']
    } else if n == 0xc {
        seq!['\\', 'f']
    } else if n == 0xd {
        seq!['\\', 'r']
    } else if n < 0x20 {
        seq!['\\', 'u', '0', '0', ids::hex_digit(n / 16), ids::hex_digit(n % 16)]
    } else {
        seq![c]
    }
}

/// The characters of a text as they are written inside a JSON string.
pub open spec fn escaped(s: Seq<char>) -> Seq<char>
    decreases s.len(),
{
    if s.len() == 0 {
        seq![]
    } else {
        escaped(s.drop_last()) + escaped_char(s.last())
    }
}

/// A text as a JSON string.
pub open spec fn as_json_string(s: Seq<char>) -> Seq<char> {
    seq!['"'] + escaped(s) + seq!['"']
}

/// `serde_json::to_string` of a string: the characters between quotes, with
/// quotes, backslashes and the control characters below U+0020 escaped, and
/// nothing else.
#[verifier::external_body]
fn quoted_text(s: &str) -> (r: String)
    ensures
        r@ == as_json_string(s@),
{
    serde_json::to_string(s).unwrap_or_default()
}

/// A text as a JSON string.
pub fn quoted(s: &str) -> (r: String)
    ensures
        r@ == as_json_string(s@),
{
    quoted_text(s)
}

/// Whether `serde_json` reads a text as one JSON value.
pub uninterp spec fn is_json(text: Seq<char>) -> bool;

/// `serde_json::from_str` into a `serde_json::Value`, asked only whether it
/// succeeds: the answer depends on the text alone.
#[verifier::external_body]
fn reads_as_json(text: &str) -> (r: bool)
    ensures
        r == is_json(text@),
{
    serde_json::from_str::<serde_json::Value>(text).is_ok()
}

/// Whether a text is one JSON value.
pub fn is_json_text(text: &str) -> (r: bool)
    ensures
        r == is_json(text@),
{
    reads_as_json(text)
}

/// A value over indented lines, as `serde_json` lays it out; nothing where it
/// does not.
pub uninterp spec fn laid_out(value: JsonView) -> Option<Seq<char>>;

/// `serde_json`'s own value.
#[verifier::external_type_specification]
#[verifier::external_body]
pub struct ExValue(serde_json::Value);

/// A value as a `serde_json::Value`, member for member. A fraction is the float
/// that its text is nearest to, and null where the text is of none. Nothing is
/// said of the result, which only `lay_out` reads.
#[verifier::external_body]
fn outside_value(value: &Json) -> (r: serde_json::Value)
{
    match value {
        Json::Null => serde_json::Value::Null,
        Json::Bool(b) => (*b).into(),
        Json::Number(Number::PosInt(n)) => (*n).into(),
        Json::Number(Number::NegInt(n)) => (*n).into(),
        Json::Number(Number::Fraction(text)) => {
            text.parse().ok().and_then(serde_json::Number::from_f64).into()
        },
        Json::String(s) => s.as_str().into(),
        Json::Array(items) => items.iter().map(outside_value).collect(),
        Json::Object(members) => members.iter().map(|m| (m.0.as_str(), outside_value(&m.1))).collect(),
    }
}

/// `serde_json::to_string_pretty` of a value: the same lines for the same
/// value, and none where it fails.
#[verifier::external_body]
fn lay_out(value: &Json) -> (r: Option<String>)
    ensures
        r.deep_view() == laid_out(value.deep_view()),
{
    serde_json::to_string_pretty(&outside_value(value)).ok()
}

/// A value as JSON text over indented lines; without white space where it
/// cannot be laid out.
pub open spec fn pretty_text(value: JsonView) -> Seq<char> {
    match laid_out(value) {
        Some(lines) => lines,
        None => compact_text(value),
    }
}

/// A number as JSON text.
pub open spec fn number_text(n: NumberView) -> Seq<char> {
    match n {
        NumberView::PosInt(n) => text::decimal(n as nat),
        NumberView::NegInt(n) => if n < 0 {
            "-"@ + text::decimal((-n) as nat)
        } else {
            text::decimal(n as nat)
        },
        NumberView::Fraction(text) => text,
    }
}

/// A value as JSON text without white space.
pub open spec fn compact_text(value: JsonView) -> Seq<char>
    decreases value,
{
    match value {
        JsonView::Null => "null"@,
        JsonView::Bool(b) => if b {
            "true"@
        } else {
            "false"@
        },
        JsonView::Number(n) => number_text(n),
        JsonView::String(s) => as_json_string(s),
        JsonView::Array(items) => "["@ + compact_items(items) + "]"@,
        JsonView::Object(members) => "{"@ + compact_members(members) + "}"@,
    }
}

/// The items of an array, separated by commas.
pub open spec fn compact_items(items: Seq<JsonView>) -> Seq<char>
    decreases items,
{
    if items.len() == 0 {
        seq![]
    } else {
        let first = if items.len() == 1 {
            seq![]
        } else {
            compact_items(items.drop_last()) + ","@
        };
        first + compact_text(items.last())
    }
}

/// The members of an object, separated by commas.
pub open spec fn compact_members(members: Seq<(Seq<char>, JsonView)>) -> Seq<char>
    decreases members,
{
    if members.len() == 0 {
        seq![]
    } else {
        let first = if members.len() == 1 {
            seq![]
        } else {
            compact_members(members.drop_last()) + ","@
        };
        first + as_json_string(members.last().0) + ":"@ + compact_text(members.last().1)
    }
}

/// A number as JSON text.
fn number_string(n: &Number) -> (r: String)
    ensures
        r@ == number_text(n.deep_view()),
{
    match n {
        Number::PosInt(n) => number(*n),
        Number::NegInt(n) => {
            if *n < 0 {
                let mut out = "-".to_owned();
                if *n == i64::MIN {
                    out.append(number(9223372036854775808u64).as_str());
                } else {
                    out.append(number((-*n) as u64).as_str());
                }
                out
            } else {
                number(*n as u64)
            }
        },
        Number::Fraction(text) => text.clone(),
    }
}

/// A value as JSON text without white space.
pub fn compact(value: &Json) -> (r: String)
    ensures
        r@ == compact_text(value.deep_view()),
    decreases value,
{
    match value {
        Json::Null => "null".to_owned(),
        Json::Bool(b) => if *b {
            "true".to_owned()
        } else {
            "false".to_owned()
        },
        Json::Number(n) => number_string(n),
        Json::String(s) => quoted(s.as_str()),
        Json::Array(items) => {
            let mut body = String::new();
            let ghost all = value.deep_view()->Array_0;
            for i in 0..items.len()
                invariant
                    *value == Json::Array(*items),
                    all == value.deep_view()->Array_0,
                    all.len() == items.len(),
                    body@ == compact_items(all.take(i as int)),
            {
                proof {
                    assert(decreases_to!(*value => value->Array_0));
                    assert(decreases_to!(value->Array_0@ => value->Array_0@[i as int]));
                    assert(all.take(i + 1).drop_last() =~= all.take(i as int));
                    assert(all.take(i + 1).last() == items@[i as int].deep_view());
                    assert(body@ + Seq::<char>::empty() =~= body@);
                }
                if i > 0 {
                    body.append(",");
                }
                body.append(compact(&items[i]).as_str());
            }
            proof {
                assert(all.take(items.len() as int) =~= all);
            }
            let mut out = "[".to_owned();
            out.append(body.as_str());
            out.append("]");
            out
        },
        Json::Object(members) => {
            let mut body = String::new();
            let ghost all = value.deep_view()->Object_0;
            for i in 0..members.len()
                invariant
                    *value == Json::Object(*members),
                    all == value.deep_view()->Object_0,
                    all.len() == members.len(),
                    body@ == compact_members(all.take(i as int)),
            {
                proof {
                    assert(decreases_to!(*value => value->Object_0));
                    assert(decreases_to!(value->Object_0@ => value->Object_0@[i as int]));
                    assert(decreases_to!(value->Object_0@[i as int] => value->Object_0@[i as int].1));
                    assert(all.take(i + 1).drop_last() =~= all.take(i as int));
                    assert(all.take(i + 1).last() == (
                        members@[i as int].0@,
                        members@[i as int].1.deep_view(),
                    ));
                }
                if i > 0 {
                    body.append(",");
                }
                body.append(quoted(members[i].0.as_str()).as_str());
                body.append(":");
                body.append(compact(&members[i].1).as_str());
            }
            proof {
                assert(all.take(members.len() as int) =~= all);
            }
            let mut out = "{".to_owned();
            out.append(body.as_str());
            out.append("}");
            out
        },
    }
}

/// A value as JSON text over indented lines; without white space where it
/// cannot be laid out.
pub fn pretty(value: &Json) -> (r: String)
    ensures
        r@ == pretty_text(value.deep_view()),
{
    lines_or(lay_out(value), compact(value))
}

/// What a value reads as, given its lines where it could be laid out.
pub fn lines_or(lines: Option<String>, text: String) -> (r: String)
    ensures
        r@ == (match lines {
            Some(lines) => lines@,
            None => text@,
        }),
{
    match lines {
        Some(lines) => lines,
        None => text,
    }
}

/// A name is looked up among an object's members in order: the first member of
/// that name gives its value, whatever follows, and a name no member has gives
/// nothing. Nothing but an object has members.
pub proof fn law_a_name_gives_its_first_member(
    members: Seq<(Seq<char>, JsonView)>,
    name: Seq<char>,
    k: int,
)
    requires
        0 <= k <= members.len(),
        forall|i: int| 0 <= i < k ==> (#[trigger] members[i]).0 != name,
        k < members.len() ==> members[k].0 == name,
    ensures
        JsonView::Object(members).get(name) == (if k < members.len() {
            Some(members[k].1)
        } else {
            None
        }),
        JsonView::Null.get(name) is None,
        JsonView::String(name).get(name) is None,
        JsonView::Array(seq![JsonView::Object(members)]).get(name) is None,
    decreases k,
{
    if k > 0 {
        assert(members[0].0 != name);
        let rest = members.drop_first();
        assert forall|i: int| 0 <= i < k - 1 implies (#[trigger] rest[i]).0 != name by {
            assert(rest[i] == members[i + 1]);
        }
        law_a_name_gives_its_first_member(rest, name, k - 1);
    }
}

/// A member read as a string, a truth or a count is what it holds when it is
/// one, and nothing when it is anything else or is not there.
pub proof fn law_a_member_is_read_as_what_it_is(input: JsonView, name: Seq<char>)
    ensures
        input.str_at(name) == (match input.get(name) {
            Some(JsonView::String(text)) => Some(text),
            _ => None,
        }),
        input.str_or_empty(name) == (match input.get(name) {
            Some(JsonView::String(text)) => text,
            _ => seq![],
        }),
        input.bool_at(name) == (match input.get(name) {
            Some(JsonView::Bool(b)) => Some(b),
            _ => None,
        }),
        input.u64_at(name) == (match input.get(name) {
            Some(JsonView::Number(NumberView::PosInt(n))) => Some(n),
            _ => None,
        }),
{
}

/// The strings of a list are read one by one, in order; what is no string is
/// left out.
pub proof fn law_the_strings_of_a_list_are_read_in_order(items: Seq<JsonView>, item: JsonView)
    ensures
        strings_among(Seq::empty()) == Seq::<Seq<char>>::empty(),
        strings_among(items.push(item)) == (match item {
            JsonView::String(text) => strings_among(items).push(text),
            _ => strings_among(items),
        }),
{
    assert(items.push(item).drop_last() =~= items);
}

/// A string is written character by character between quotes; what JSON gives
/// a short escape has it, any other control character is written by its number
/// and every other character stands for itself.
pub proof fn law_a_string_is_written_character_by_character(s: Seq<char>, c: char)
    ensures
        escaped(Seq::empty()) == Seq::<char>::empty(),
        escaped(s.push(c)) == escaped(s) + escaped_char(c),
        as_json_string(s) == seq!['"'] + escaped(s) + seq!['"'],
        c == '"' || c == '\\' ==> escaped_char(c) == seq!['\\', c],
        c == '\n' ==> escaped_char(c) == seq!['\\', 'n'],
        c == '\t' ==> escaped_char(c) == seq!['\\', 't'],
        c == '\r' ==> escaped_char(c) == seq!['\\', 'r'],
        c >= ' ' && c != '"' && c != '\\' ==> escaped_char(c) == seq![c],
        c < ' ' ==> escaped_char(c).len() > 1,
{
    assert(s.push(c).drop_last() =~= s);
}

/// A value is written without spaces: a list between brackets, an object
/// between braces, their items in order and parted by commas.
pub proof fn law_a_value_is_written_compactly(
    items: Seq<JsonView>,
    item: JsonView,
    members: Seq<(Seq<char>, JsonView)>,
    name: Seq<char>,
    n: u64,
)
    ensures
        compact_text(JsonView::Null) == "null"@,
        compact_text(JsonView::Bool(true)) == "true"@,
        compact_text(JsonView::Bool(false)) == "false"@,
        compact_text(JsonView::Number(NumberView::PosInt(n))) == text::decimal(n as nat),
        compact_text(JsonView::String(name)) == seq!['"'] + escaped(name) + seq!['"'],
        compact_text(JsonView::Array(items)) == "["@ + compact_items(items) + "]"@,
        compact_text(JsonView::Object(members)) == "{"@ + compact_members(members) + "}"@,
        compact_items(Seq::empty()) == Seq::<char>::empty(),
        compact_items(seq![item]) == compact_text(item),
        items.len() > 0 ==> compact_items(items.push(item)) == compact_items(items) + ","@
            + compact_text(item),
        compact_members(Seq::empty()) == Seq::<char>::empty(),
        compact_members(seq![(name, item)]) == seq!['"'] + escaped(name) + seq!['"'] + ":"@
            + compact_text(item),
        members.len() > 0 ==> compact_members(members.push((name, item))) == compact_members(
            members,
        ) + ","@ + (seq!['"'] + escaped(name) + seq!['"']) + ":"@ + compact_text(item),
{
    reveal_with_fuel(compact_text, 2);
    reveal_with_fuel(compact_items, 2);
    reveal_with_fuel(compact_members, 2);
    assert(items.push(item).drop_last() =~= items);
    assert(members.push((name, item)).drop_last() =~= members);
    assert(compact_items(seq![item]) =~= compact_text(item));
    assert(seq![item].last() == item);
    assert(seq![(name, item)].last() == (name, item));
    let quoted = seq!['"'] + escaped(name) + seq!['"'];
    assert(compact_members(seq![(name, item)]) =~= quoted + ":"@ + compact_text(item));
}

/// A control character is written by its short escape when it has one, and
/// otherwise by the two hexadecimal digits of its number.
pub proof fn law_a_control_character_is_escaped(c: char)
    requires
        c < ' ',
    ensures
        c as int == 8 ==> escaped_char(c) == seq!['\\', 'b'],
        c as int == 12 ==> escaped_char(c) == seq!['\\', 'f'],
        c as int != 8 && c as int != 9 && c as int != 10 && c as int != 12 && c as int != 13
            ==> escaped_char(c) == seq![
            '\\',
            'u',
            '0',
            '0',
            ids::hex_digit(c as int / 16),
            ids::hex_digit(c as int % 16),
        ],
{
}

/// A number is written in decimal, with a sign in front when it is below
/// zero; one that is not whole is written as it was.
pub proof fn law_a_number_is_written_in_decimal(n: u64, i: i64, text: Seq<char>)
    ensures
        compact_text(JsonView::Number(NumberView::PosInt(n))) == text::decimal(n as nat),
        i >= 0 ==> compact_text(JsonView::Number(NumberView::NegInt(i))) == text::decimal(i as nat),
        i < 0 ==> compact_text(JsonView::Number(NumberView::NegInt(i))) == "-"@ + text::decimal(
            (-i) as nat,
        ),
        compact_text(JsonView::Number(NumberView::Fraction(text))) == text,
{
}

} // verus!
