//! JSON values.
//!
//! [`Json`] carries a `serde_json::Value`. Its view is a [`JsonView`], the tree that
//! the value stands for, and every contract of this crate speaks of that tree.
use vstd::prelude::*;

verus! {

/// A JSON value as a mathematical tree.
pub enum JsonView {
    Null,
    Bool(bool),
    /// An integer that 64 bits hold, signed or unsigned.
    Int(int),
    /// Any other number, by the bits of its double precision representation.
    Float(u64),
    Str(Seq<char>),
    Array(Seq<JsonView>),
    /// The members in the order in which the object holds them.
    Object(Seq<(Seq<char>, JsonView)>),
}

impl JsonView {
    /// What indexing by a key yields: the member of that name, or null where there is none.
    pub open spec fn member(self, key: Seq<char>) -> JsonView {
        match self {
            JsonView::Object(entries) => if has_key(entries, key) {
                entries[key_index(entries, key)].1
            } else {
                JsonView::Null
            },
            _ => JsonView::Null,
        }
    }

    /// The characters, where the value is a string.
    pub open spec fn as_str(self) -> Option<Seq<char>> {
        match self {
            JsonView::Str(s) => Some(s),
            _ => None,
        }
    }

    /// The integer, where the value is one that 64 signed bits can hold.
    pub open spec fn as_i64(self) -> Option<int> {
        match self {
            JsonView::Int(n) => if i64::MIN <= n <= i64::MAX {
                Some(n)
            } else {
                None
            },
            _ => None,
        }
    }

    /// The value holds no fraction, and arrays and objects nest at most `depth` deep in it.
    pub open spec fn plain(self, depth: nat) -> bool
        decreases depth,
    {
        match self {
            JsonView::Float(_) => false,
            JsonView::Array(items) => {
                &&& depth > 0
                &&& forall|i: int| 0 <= i < items.len() ==> (#[trigger] items[i]).plain((depth - 1) as nat)
            },
            JsonView::Object(entries) => {
                &&& depth > 0
                &&& forall|i: int|
                    0 <= i < entries.len() ==> (#[trigger] entries[i]).1.plain((depth - 1) as nat)
            },
            _ => true,
        }
    }
}

/// Some entry carries the key.
pub open spec fn has_key(entries: Seq<(Seq<char>, JsonView)>, key: Seq<char>) -> bool {
    exists|i: int| 0 <= i < entries.len() && (#[trigger] entries[i]).0 == key
}

/// The position of an entry that carries the key.
pub open spec fn key_index(entries: Seq<(Seq<char>, JsonView)>, key: Seq<char>) -> int {
    choose|i: int| 0 <= i < entries.len() && (#[trigger] entries[i]).0 == key
}

/// No two entries carry the same key.
pub open spec fn distinct_keys(entries: Seq<(Seq<char>, JsonView)>) -> bool {
    forall|i: int, j: int|
        0 <= i < j < entries.len() ==> (#[trigger] entries[i]).0 != (#[trigger] entries[j]).0
}

/// Makes `serde_json::Value` known. Trusted: nothing, the type is opaque; what a value
/// holds is what [`json_view`] names.
#[verifier::external_type_specification]
#[verifier::external_body]
pub struct ExValue(serde_json::Value);

/// The tree that a `serde_json::Value` holds.
pub uninterp spec fn json_view(value: serde_json::Value) -> JsonView;

/// What `serde_json::from_str` makes of a text: the value that the text denotes, or the
/// message of the error that it reports.
pub uninterp spec fn json_parsed(text: Seq<char>) -> Result<JsonView, Seq<char>>;

/// The outcome of reading is the value.
pub open spec fn yields(outcome: Result<JsonView, Seq<char>>, value: JsonView) -> bool {
    outcome == Ok::<JsonView, Seq<char>>(value)
}

/// The outcome of reading is an error with that message.
pub open spec fn fails(outcome: Result<JsonView, Seq<char>>, message: Seq<char>) -> bool {
    outcome == Err::<JsonView, Seq<char>>(message)
}

/// The text that `serde_json` writes for a value: compact, members in their order.
pub uninterp spec fn json_text(value: JsonView) -> Seq<char>;

/// Calls `serde_json::from_str`. Trusted: the outcome depends on the text alone, and is
/// the value that [`json_parsed`] names, or the message of the error.
#[verifier::external_body]
fn value_from_str(text: &str) -> (r: Result<serde_json::Value, String>)
    ensures
        match r {
            Ok(value) => yields(json_parsed(text@), json_view(value)),
            Err(message) => fails(json_parsed(text@), message@),
        },
{
    serde_json::from_str::<serde_json::Value>(text).map_err(|e| e.to_string())
}

/// Calls `Display` of `serde_json::Value`. Trusted: the text depends on the value alone,
/// and reading it back gives the same value, unless the value holds a fraction or nests
/// deeper than the 127 levels that the parser accepts.
#[verifier::external_body]
fn value_to_string(value: &serde_json::Value) -> (r: String)
    ensures
        r@ == json_text(json_view(*value)),
        json_view(*value).plain(127) ==> yields(json_parsed(r@), json_view(*value)),
{
    value.to_string()
}

/// Indexes a `serde_json::Value` by a key. Trusted: the result is the member of that
/// name, or null where the value is no object or has no such member.
#[verifier::external_body]
pub(crate) fn value_member<'a>(value: &'a serde_json::Value, key: &str) -> (r: &'a serde_json::Value)
    ensures
        json_view(*r) == json_view(*value).member(key@),
{
    &value[key]
}

/// Calls `serde_json::Value::as_str`. Trusted: it yields the characters of a string, and
/// nothing for any other value.
#[verifier::external_body]
pub(crate) fn value_as_str(value: &serde_json::Value) -> (r: Option<&str>)
    ensures
        match r {
            Some(s) => json_view(*value).as_str() == Some(s@),
            None => json_view(*value).as_str() is None,
        },
{
    value.as_str()
}

/// Calls `serde_json::Value::as_i64`. Trusted: it yields an integer in the range of
/// `i64`, and nothing for any other value.
#[verifier::external_body]
pub(crate) fn value_as_i64(value: &serde_json::Value) -> (r: Option<i64>)
    ensures
        match r {
            Some(n) => json_view(*value).as_i64() == Some(n as int),
            None => json_view(*value).as_i64() is None,
        },
{
    value.as_i64()
}

/// Builds a `serde_json::Value::String`. Trusted: the value is that string.
#[verifier::external_body]
pub(crate) fn value_of_string(s: String) -> (r: serde_json::Value)
    ensures
        json_view(r) == JsonView::Str(s@),
{
    serde_json::Value::String(s)
}

/// Builds a `serde_json::Value::Bool`. Trusted: the value is that truth value.
#[verifier::external_body]
pub(crate) fn value_of_bool(b: bool) -> (r: serde_json::Value)
    ensures
        json_view(r) == JsonView::Bool(b),
{
    serde_json::Value::Bool(b)
}

/// Builds a `serde_json::Value::Array`. Trusted: the value is the array of those items.
#[verifier::external_body]
pub(crate) fn value_of_items(items: Vec<serde_json::Value>) -> (r: serde_json::Value)
    ensures
        json_view(r) == JsonView::Array(items@.map_values(|v: serde_json::Value| json_view(v))),
{
    serde_json::Value::Array(items)
}

/// Collects pairs into a `serde_json::Value`, whose maps keep the order of insertion.
/// Trusted: where no key occurs twice, the value is the object of those members, in
/// their order.
#[verifier::external_body]
fn value_of_entries(entries: Vec<(String, serde_json::Value)>) -> (r: serde_json::Value)
    requires
        distinct_keys(entries_view(entries@)),
    ensures
        json_view(r) == JsonView::Object(entries_view(entries@)),
{
    serde_json::Value::from_iter(entries)
}

/// The members that a list of pairs stands for.
pub open spec fn entries_view(entries: Seq<(String, serde_json::Value)>) -> Seq<
    (Seq<char>, JsonView),
> {
    entries.map_values(|e: (String, serde_json::Value)| (e.0@, json_view(e.1)))
}

/// A JSON value.
pub struct Json {
    pub value: serde_json::Value,
}

impl View for Json {
    type V = JsonView;

    open spec fn view(&self) -> JsonView {
        json_view(self.value)
    }
}

impl Json {
    /// Reads a value from its text, or tells what is wrong with the text.
    pub fn parse(text: &str) -> (r: Result<Json, String>)
        ensures
            match r {
                Ok(json) => yields(json_parsed(text@), json@),
                Err(message) => fails(json_parsed(text@), message@),
            },
    {
        match value_from_str(text) {
            Ok(value) => Ok(Json { value }),
            Err(message) => Err(message),
        }
    }

    /// The compact text of the value.
    pub fn to_text(&self) -> (r: String)
        ensures
            r@ == json_text(self@),
            self@.plain(127) ==> yields(json_parsed(r@), self@),
    {
        value_to_string(&self.value)
    }
}

/// An object of one member.
pub(crate) fn object_of_one(key: &str, value: serde_json::Value) -> (r: serde_json::Value)
    ensures
        json_view(r) == JsonView::Object(seq![(key@, json_view(value))]),
{
    let mut entries: Vec<(String, serde_json::Value)> = Vec::new();
    entries.push((key.to_string(), value));
    assert(entries_view(entries@) =~= seq![(key@, json_view(value))]);
    value_of_entries(entries)
}

/// An object of two members.
pub(crate) fn object_of_two(
    first_key: &str,
    first: serde_json::Value,
    second_key: &str,
    second: serde_json::Value,
) -> (r: serde_json::Value)
    requires
        first_key@ != second_key@,
    ensures
        json_view(r) == JsonView::Object(
            seq![(first_key@, json_view(first)), (second_key@, json_view(second))],
        ),
{
    let mut entries: Vec<(String, serde_json::Value)> = Vec::new();
    entries.push((first_key.to_string(), first));
    entries.push((second_key.to_string(), second));
    assert(entries_view(entries@) =~= seq![
        (first_key@, json_view(first)),
        (second_key@, json_view(second)),
    ]);
    value_of_entries(entries)
}

/// An object of three members.
pub(crate) fn object_of_three(
    first_key: &str,
    first: serde_json::Value,
    second_key: &str,
    second: serde_json::Value,
    third_key: &str,
    third: serde_json::Value,
) -> (r: serde_json::Value)
    requires
        first_key@ != second_key@,
        first_key@ != third_key@,
        second_key@ != third_key@,
    ensures
        json_view(r) == JsonView::Object(
            seq![
                (first_key@, json_view(first)),
                (second_key@, json_view(second)),
                (third_key@, json_view(third)),
            ],
        ),
{
    let mut entries: Vec<(String, serde_json::Value)> = Vec::new();
    entries.push((first_key.to_string(), first));
    entries.push((second_key.to_string(), second));
    entries.push((third_key.to_string(), third));
    assert(entries_view(entries@) =~= seq![
        (first_key@, json_view(first)),
        (second_key@, json_view(second)),
        (third_key@, json_view(third)),
    ]);
    value_of_entries(entries)
}

/// A member of an object is found under its key, where no key occurs twice.
pub proof fn law_member_is_found(entries: Seq<(Seq<char>, JsonView)>, i: int)
    requires
        0 <= i < entries.len(),
        forall|j: int, k: int| 0 <= j < k < entries.len() ==> entries[j].0 != entries[k].0,
    ensures
        JsonView::Object(entries).member(entries[i].0) == entries[i].1,
{
    let key = entries[i].0;
    assert(has_key(entries, key));
    let k = key_index(entries, key);
    assert(0 <= k < entries.len() && entries[k].0 == key);
}

pub(crate) proof fn lemma_one_member(key: Seq<char>, value: JsonView)
    ensures
        JsonView::Object(seq![(key, value)]).member(key) == value,
{
    law_member_is_found(seq![(key, value)], 0);
}

pub(crate) proof fn lemma_two_members(
    first_key: Seq<char>,
    first: JsonView,
    second_key: Seq<char>,
    second: JsonView,
)
    requires
        first_key != second_key,
    ensures
        JsonView::Object(seq![(first_key, first), (second_key, second)]).member(first_key) == first,
        JsonView::Object(seq![(first_key, first), (second_key, second)]).member(second_key)
            == second,
{
    let entries = seq![(first_key, first), (second_key, second)];
    law_member_is_found(entries, 0);
    law_member_is_found(entries, 1);
}

pub(crate) proof fn lemma_three_members(
    first_key: Seq<char>,
    first: JsonView,
    second_key: Seq<char>,
    second: JsonView,
    third_key: Seq<char>,
    third: JsonView,
)
    requires
        first_key != second_key,
        first_key != third_key,
        second_key != third_key,
    ensures
        ({
            let value = JsonView::Object(
                seq![(first_key, first), (second_key, second), (third_key, third)],
            );
            &&& value.member(first_key) == first
            &&& value.member(second_key) == second
            &&& value.member(third_key) == third
        }),
{
    let entries = seq![(first_key, first), (second_key, second), (third_key, third)];
    law_member_is_found(entries, 0);
    law_member_is_found(entries, 1);
    law_member_is_found(entries, 2);
}

} // verus!
