//! JSON values.
//!
//! Reading and writing JSON text is `serde_json`'s work. The library holds a
//! JSON value as a tree of its own, `JsonValue`, which the functions that give
//! a document its shape read and build.

use vstd::prelude::*;

verus! {

/// A JSON number: an integer that fits in 64 bits, or something else, of
/// which only that much is kept.
#[derive(Clone, Copy, Debug, PartialEq)]
pub enum JsonNumber {
    /// An integer that is not negative.
    Unsigned(u64),
    /// A negative integer.
    Negative(i64),
    /// A number with a fraction or an exponent, or one too large for 64 bits.
    Float,
}

/// A JSON value as mathematics.
pub enum JsonModel {
    Null,
    Bool(bool),
    Number(JsonNumber),
    Text(Seq<char>),
    Array(Seq<JsonModel>),
    Object(Seq<(Seq<char>, JsonModel)>),
}

/// A JSON value. An object holds its members in the order of the text.
#[derive(Debug, PartialEq)]
pub enum JsonValue {
    Null,
    Bool(bool),
    Number(JsonNumber),
    Text(String),
    Array(Vec<JsonValue>),
    Object(Vec<(String, JsonValue)>),
}

/// The model of a value: the same tree, with texts for strings and
/// sequences for vectors.
pub open spec fn model_of(value: JsonValue) -> JsonModel
    decreases value,
{
    match value {
        JsonValue::Null => JsonModel::Null,
        JsonValue::Bool(b) => JsonModel::Bool(b),
        JsonValue::Number(n) => JsonModel::Number(n),
        JsonValue::Text(s) => JsonModel::Text(s@),
        JsonValue::Array(items) => JsonModel::Array(
            Seq::new(
                items@.len(),
                |i: int|
                    if 0 <= i < items@.len() {
                        model_of(items@[i])
                    } else {
                        JsonModel::Null
                    },
            ),
        ),
        JsonValue::Object(members) => JsonModel::Object(
            Seq::new(
                members@.len(),
                |i: int|
                    if 0 <= i < members@.len() {
                        (members@[i].0@, model_of(members@[i].1))
                    } else {
                        (Seq::empty(), JsonModel::Null)
                    },
            ),
        ),
    }
}

impl View for JsonValue {
    type V = JsonModel;

    open spec fn view(&self) -> JsonModel {
        model_of(*self)
    }
}

/// The models of a sequence of values.
pub open spec fn item_models(items: Seq<JsonValue>) -> Seq<JsonModel> {
    Seq::new(items.len(), |i: int| items[i]@)
}

/// The models of a sequence of members.
pub open spec fn member_models(members: Seq<(String, JsonValue)>) -> Seq<(Seq<char>, JsonModel)> {
    Seq::new(members.len(), |i: int| (members[i].0@, members[i].1@))
}

/// The value of the first member named `key`, if there is one.
pub open spec fn find_member(members: Seq<(Seq<char>, JsonModel)>, key: Seq<char>) -> Option<
    JsonModel,
>
    decreases members.len(),
{
    if members.len() == 0 {
        None
    } else if members[0].0 == key {
        Some(members[0].1)
    } else {
        find_member(members.drop_first(), key)
    }
}

/// The member `key` of an object; none for a value that is no object or has
/// no such member.
pub open spec fn member(value: JsonModel, key: Seq<char>) -> Option<JsonModel> {
    match value {
        JsonModel::Object(members) => find_member(members, key),
        _ => None,
    }
}

/// The member `key` where it is a text.
pub open spec fn text_member(value: JsonModel, key: Seq<char>) -> Option<Seq<char>> {
    match member(value, key) {
        Some(JsonModel::Text(s)) => Some(s),
        _ => None,
    }
}

/// The member `key` where it is an integer from 0 to `u64::MAX`.
pub open spec fn u64_member(value: JsonModel, key: Seq<char>) -> Option<u64> {
    match member(value, key) {
        Some(JsonModel::Number(JsonNumber::Unsigned(n))) => Some(n),
        _ => None,
    }
}

/// The integer that a number is, where it fits in an `i32`.
pub open spec fn i32_of(n: JsonNumber) -> Option<i32> {
    match n {
        JsonNumber::Unsigned(u) => if u <= i32::MAX {
            Some(u as i32)
        } else {
            None
        },
        JsonNumber::Negative(i) => if i32::MIN <= i <= i32::MAX {
            Some(i as i32)
        } else {
            None
        },
        JsonNumber::Float => None,
    }
}

/// The member `key` where it is an integer that fits in an `i32`.
pub open spec fn i32_member(value: JsonModel, key: Seq<char>) -> Option<i32> {
    match member(value, key) {
        Some(JsonModel::Number(n)) => i32_of(n),
        _ => None,
    }
}

/// The member `key` where it is an array.
pub open spec fn array_member(value: JsonModel, key: Seq<char>) -> Option<Seq<JsonModel>> {
    match member(value, key) {
        Some(JsonModel::Array(items)) => Some(items),
        _ => None,
    }
}

/// The texts of `items`, where each of them is a text.
pub open spec fn texts_of(items: Seq<JsonModel>) -> Option<Seq<Seq<char>>> {
    if forall|i: int| 0 <= i < items.len() ==> (#[trigger] items[i]) is Text {
        Some(Seq::new(items.len(), |i: int| items[i]->Text_0))
    } else {
        None
    }
}

/// The array whose items are the texts of `texts`.
pub open spec fn text_array(texts: Seq<Seq<char>>) -> JsonModel {
    JsonModel::Array(Seq::new(texts.len(), |i: int| JsonModel::Text(texts[i])))
}

/// A parsing result as mathematics.
pub open spec fn parse_result(r: Result<JsonValue, String>) -> Result<JsonModel, Seq<char>> {
    match r {
        Ok(value) => Ok(value@),
        Err(message) => Err(message@),
    }
}

/// A rendering result as mathematics.
pub open spec fn render_result(r: Result<String, String>) -> Result<Seq<char>, Seq<char>> {
    match r {
        Ok(text) => Ok(text@),
        Err(message) => Err(message@),
    }
}

/// `serde_json::Value`: a JSON value as the outside crate holds it. Nothing is
/// known of what is inside.
#[verifier::external_type_specification]
#[verifier::external_body]
pub struct OutsideValue(serde_json::Value);

/// Names the result of `serde_json::from_str` at the type
/// `serde_json::Value`: the value that a text holds, or the message of the
/// error.
pub uninterp spec fn outside_parsed(text: Seq<char>) -> Result<serde_json::Value, Seq<char>>;

/// Names what a `serde_json::Value` holds, as a tree.
pub uninterp spec fn value_model(value: serde_json::Value) -> JsonModel;

/// Names the `serde_json::Value` that is built for a tree.
pub uninterp spec fn outside_built(value: JsonModel) -> serde_json::Value;

/// Names the result of `serde_json::to_string`: the compact text of a value,
/// or the message of the error.
pub uninterp spec fn outside_rendered(value: serde_json::Value) -> Result<Seq<char>, Seq<char>>;

/// Names the result of `serde_json::to_string_pretty`: the indented text of
/// a value, or the message of the error.
pub uninterp spec fn outside_rendered_pretty(value: serde_json::Value) -> Result<
    Seq<char>,
    Seq<char>,
>;

/// The tree that a text holds, or the message of the error.
pub open spec fn json_parsed(text: Seq<char>) -> Result<JsonModel, Seq<char>> {
    match outside_parsed(text) {
        Ok(value) => Ok(value_model(value)),
        Err(message) => Err(message),
    }
}

/// The message of the error for a tree that holds a number whose value was
/// not kept.
pub const NUMBER_NOT_KEPT: &'static str = "a number whose value was not kept cannot be written";

/// Whether a tree holds a number whose value was not kept.
pub open spec fn has_float(value: JsonModel) -> bool
    decreases value,
{
    match value {
        JsonModel::Number(JsonNumber::Float) => true,
        JsonModel::Array(items) => exists|i: int|
            0 <= i < items.len() && has_float(#[trigger] items[i]),
        JsonModel::Object(members) => exists|i: int|
            0 <= i < members.len() && has_float((#[trigger] members[i]).1),
        _ => false,
    }
}

/// The compact text of a tree, or the message of the error. A tree that
/// holds a number whose value was not kept cannot be written.
pub open spec fn json_rendered(value: JsonModel) -> Result<Seq<char>, Seq<char>> {
    if has_float(value) {
        Err(NUMBER_NOT_KEPT@)
    } else {
        outside_rendered(outside_built(value))
    }
}

/// The indented text of a tree, or the message of the error. A tree that
/// holds a number whose value was not kept cannot be written.
pub open spec fn json_rendered_pretty(value: JsonModel) -> Result<Seq<char>, Seq<char>> {
    if has_float(value) {
        Err(NUMBER_NOT_KEPT@)
    } else {
        outside_rendered_pretty(outside_built(value))
    }
}

/// An outside parsing result as mathematics.
pub open spec fn outside_result(r: Result<serde_json::Value, String>) -> Result<
    serde_json::Value,
    Seq<char>,
> {
    match r {
        Ok(value) => Ok(value),
        Err(message) => Err(message@),
    }
}

/// `serde_json::from_str`, at the type `serde_json::Value`. The outcome, a
/// value or the error's message, depends on the text alone.
#[verifier::external_body]
fn parse_outside(text: &str) -> (r: Result<serde_json::Value, String>)
    ensures
        outside_result(r) == outside_parsed(text@),
{
    serde_json::from_str::<serde_json::Value>(text).map_err(|e| e.to_string())
}

/// Reads a `serde_json::Value` into a `JsonValue`, variant by variant. Of a
/// number it keeps what `Number::as_u64` and `Number::as_i64` give. The tree
/// read is what the value holds.
#[verifier::external_body]
fn read_outside(value: &serde_json::Value) -> (out: JsonValue)
    ensures
        out@ == value_model(*value),
{
    match value {
        serde_json::Value::Null => JsonValue::Null,
        serde_json::Value::Bool(b) => JsonValue::Bool(*b),
        serde_json::Value::Number(n) => JsonValue::Number(match (n.as_u64(), n.as_i64()) {
            (Some(u), _) => JsonNumber::Unsigned(u),
            (None, Some(i)) => JsonNumber::Negative(i),
            (None, None) => JsonNumber::Float,
        }),
        serde_json::Value::String(s) => JsonValue::Text(s.clone()),
        serde_json::Value::Array(a) => JsonValue::Array(a.iter().map(read_outside).collect()),
        serde_json::Value::Object(m) => JsonValue::Object(m.iter().map(|(k, v)| (k.clone(), read_outside(v))).collect()),
    }
}

/// Builds the `serde_json::Value` for a `JsonValue`, variant by variant. Of
/// members with one name the last stays. The value built depends on the tree
/// alone. A number whose value was not kept has nothing to be built from,
/// which `requires` leaves out.
#[verifier::external_body]
fn build_outside(value: &JsonValue) -> (out: serde_json::Value)
    requires
        !has_float(value@),
    ensures
        out == outside_built(value@),
{
    match value {
        JsonValue::Null => serde_json::Value::Null,
        JsonValue::Bool(b) => serde_json::Value::Bool(*b),
        JsonValue::Number(JsonNumber::Unsigned(u)) => serde_json::Value::from(*u),
        JsonValue::Number(JsonNumber::Negative(i)) => serde_json::Value::from(*i),
        JsonValue::Number(JsonNumber::Float) => serde_json::Value::Null,
        JsonValue::Text(s) => serde_json::Value::String(s.clone()),
        JsonValue::Array(items) => serde_json::Value::Array(items.iter().map(build_outside).collect()),
        JsonValue::Object(members) => serde_json::Value::Object(members.iter().map(|(k, v)| (k.clone(), build_outside(v))).collect()),
    }
}

/// `serde_json::to_string`. The outcome depends on the value alone.
#[verifier::external_body]
fn render_outside(value: &serde_json::Value) -> (r: Result<String, String>)
    ensures
        render_result(r) == outside_rendered(*value),
{
    serde_json::to_string(value).map_err(|e| e.to_string())
}

/// `serde_json::to_string_pretty`. The outcome depends on the value alone.
#[verifier::external_body]
fn render_outside_pretty(value: &serde_json::Value) -> (r: Result<String, String>)
    ensures
        render_result(r) == outside_rendered_pretty(*value),
{
    serde_json::to_string_pretty(value).map_err(|e| e.to_string())
}

/// Reads JSON text into a tree.
pub fn parse_json(text: &str) -> (r: Result<JsonValue, String>)
    ensures
        parse_result(r) == json_parsed(text@),
{
    match parse_outside(text) {
        Ok(value) => Ok(read_outside(&value)),
        Err(message) => Err(message),
    }
}

/// Whether some of `items[from..]` holds a number whose value was not kept.
fn items_hold_float(items: &Vec<JsonValue>) -> (r: bool)
    ensures
        r == exists|i: int| 0 <= i < items@.len() && has_float(#[trigger] items@[i]@),
    decreases items@, 0nat,
{
    let mut i: usize = 0;
    while i < items.len()
        invariant
            0 <= i <= items@.len(),
            forall|j: int| 0 <= j < i ==> !has_float(#[trigger] items@[j]@),
        decreases items@.len() - i,
    {
        if holds_float(&items[i]) {
            return true;
        }
        i += 1;
    }
    false
}

/// Whether some of `members` holds a number whose value was not kept.
fn members_hold_float(members: &Vec<(String, JsonValue)>) -> (r: bool)
    ensures
        r == exists|i: int| 0 <= i < members@.len() && has_float(#[trigger] members@[i].1@),
    decreases members@, 0nat,
{
    let mut i: usize = 0;
    while i < members.len()
        invariant
            0 <= i <= members@.len(),
            forall|j: int| 0 <= j < i ==> !has_float(#[trigger] members@[j].1@),
        decreases members@.len() - i,
    {
        if holds_float(&members[i].1) {
            return true;
        }
        i += 1;
    }
    false
}

/// Whether a tree holds a number whose value was not kept.
pub fn holds_float(value: &JsonValue) -> (r: bool)
    ensures
        r == has_float(value@),
    decreases value, 1nat,
{
    match value {
        JsonValue::Number(JsonNumber::Float) => true,
        JsonValue::Array(items) => {
            proof {
                lemma_array_view(*items);
            }
            let r = items_hold_float(items);
            proof {
                let models = item_models(items@);
                if r {
                    let i = choose|i: int| 0 <= i < items@.len() && has_float(#[trigger] items@[i]@);
                    assert(has_float(models[i]));
                }
                if has_float(value@) {
                    let i = choose|i: int| 0 <= i < models.len() && has_float(#[trigger] models[i]);
                    assert(has_float(items@[i]@));
                }
            }
            r
        },
        JsonValue::Object(members) => {
            proof {
                lemma_object_view(*members);
            }
            let r = members_hold_float(members);
            proof {
                let models = member_models(members@);
                if r {
                    let i = choose|i: int|
                        0 <= i < members@.len() && has_float(#[trigger] members@[i].1@);
                    assert(has_float(models[i].1));
                }
                if has_float(value@) {
                    let i = choose|i: int|
                        0 <= i < models.len() && has_float((#[trigger] models[i]).1);
                    assert(has_float(members@[i].1@));
                }
            }
            r
        },
        _ => false,
    }
}

/// Writes a tree as compact JSON text.
pub fn render_json(value: &JsonValue) -> (r: Result<String, String>)
    ensures
        render_result(r) == json_rendered(value@),
{
    if holds_float(value) {
        return Err(NUMBER_NOT_KEPT.to_string());
    }
    let built = build_outside(value);
    render_outside(&built)
}

/// Writes a tree as indented JSON text.
pub fn render_json_pretty(value: &JsonValue) -> (r: Result<String, String>)
    ensures
        render_result(r) == json_rendered_pretty(value@),
{
    if holds_float(value) {
        return Err(NUMBER_NOT_KEPT.to_string());
    }
    let built = build_outside(value);
    render_outside_pretty(&built)
}

/// An array value holds the models of its items.
pub proof fn lemma_array_view(items: Vec<JsonValue>)
    ensures
        JsonValue::Array(items)@ == JsonModel::Array(item_models(items@)),
{
    let got = JsonValue::Array(items)@->Array_0;
    assert(got =~= item_models(items@));
}

/// An object value holds the models of its members.
pub proof fn lemma_object_view(members: Vec<(String, JsonValue)>)
    ensures
        JsonValue::Object(members)@ == JsonModel::Object(member_models(members@)),
{
    let got = JsonValue::Object(members)@->Object_0;
    assert(got =~= member_models(members@));
}

/// The text value of `s`.
pub fn text_value(s: &str) -> (out: JsonValue)
    ensures
        out@ == JsonModel::Text(s@),
{
    JsonValue::Text(s.to_string())
}

/// The number value of `n`.
pub fn u64_value(n: u64) -> (out: JsonValue)
    ensures
        out@ == JsonModel::Number(JsonNumber::Unsigned(n)),
{
    JsonValue::Number(JsonNumber::Unsigned(n))
}

/// The array value of `items`.
pub fn array_value(items: Vec<JsonValue>) -> (out: JsonValue)
    ensures
        out@ == JsonModel::Array(item_models(items@)),
{
    proof {
        lemma_array_view(items);
    }
    JsonValue::Array(items)
}

/// The object value of `members`.
pub fn object_value(members: Vec<(String, JsonValue)>) -> (out: JsonValue)
    ensures
        out@ == JsonModel::Object(member_models(members@)),
{
    proof {
        lemma_object_view(members);
    }
    JsonValue::Object(members)
}

/// Adds the member `key` with `value` at the end of `members`.
pub fn push_member(members: &mut Vec<(String, JsonValue)>, key: &str, value: JsonValue)
    ensures
        member_models(final(members)@) == member_models(old(members)@).push((key@, value@)),
{
    members.push((key.to_string(), value));
    assert(member_models(members@) =~= member_models(old(members)@).push((key@, value@)));
}

/// The array value whose items are the texts of `texts`.
pub fn text_array_value(texts: &Vec<String>) -> (out: JsonValue)
    ensures
        out@ == text_array(crate::text::texts(texts@)),
{
    let mut items: Vec<JsonValue> = Vec::new();
    let mut i: usize = 0;
    while i < texts.len()
        invariant
            0 <= i <= texts@.len(),
            items@.len() == i,
            forall|j: int| 0 <= j < i ==> (#[trigger] items@[j])@ == JsonModel::Text(texts@[j]@),
        decreases texts@.len() - i,
    {
        items.push(JsonValue::Text(texts[i].clone()));
        i += 1;
    }
    let out = array_value(items);
    assert(item_models(items@) =~= Seq::new(
        texts@.len(),
        |i: int| JsonModel::Text(crate::text::texts(texts@)[i]),
    ));
    out
}

impl JsonValue {
    /// The member `key`, for an object that has one.
    pub fn get(&self, key: &str) -> (r: Option<&JsonValue>)
        ensures
            match r {
                Some(value) => member(self@, key@) == Some(value@),
                None => member(self@, key@) is None,
            },
    {
        match self {
            JsonValue::Object(members) => {
                proof {
                    lemma_object_view(*members);
                }
                let ghost all = member_models(members@);
                let owned = key.to_string();
                let mut i: usize = 0;
                assert(all.skip(0) =~= all);
                while i < members.len()
                    invariant
                        0 <= i <= members@.len(),
                        all == member_models(members@),
                        self@ == JsonModel::Object(all),
                        owned@ == key@,
                        find_member(all, key@) == find_member(all.skip(i as int), key@),
                    decreases members@.len() - i,
                {
                    assert(all.skip(i as int)[0] == all[i as int]);
                    if members[i].0 == owned {
                        assert(all[i as int] == (members@[i as int].0@, members@[i as int].1@));
                        return Some(&members[i].1);
                    }
                    assert(all.skip(i as int).drop_first() =~= all.skip(i + 1));
                    i += 1;
                }
                assert(all.skip(i as int).len() == 0);
                None
            },
            _ => None,
        }
    }

    /// The text, for a value that is one.
    pub fn as_text(&self) -> (r: Option<&String>)
        ensures
            match r {
                Some(s) => self@ == JsonModel::Text(s@),
                None => !(self@ is Text),
            },
    {
        match self {
            JsonValue::Text(s) => Some(s),
            _ => None,
        }
    }

    /// The items, for a value that is an array.
    pub fn as_array(&self) -> (r: Option<&Vec<JsonValue>>)
        ensures
            match r {
                Some(items) => self@ == JsonModel::Array(item_models(items@)),
                None => !(self@ is Array),
            },
    {
        match self {
            JsonValue::Array(items) => {
                proof {
                    lemma_array_view(*items);
                }
                Some(items)
            },
            _ => None,
        }
    }

    /// The number, for a value that is one.
    pub fn as_number(&self) -> (r: Option<JsonNumber>)
        ensures
            match r {
                Some(n) => self@ == JsonModel::Number(n),
                None => !(self@ is Number),
            },
    {
        match self {
            JsonValue::Number(n) => Some(*n),
            _ => None,
        }
    }

    /// The member `key` where it is a text.
    pub fn text_member(&self, key: &str) -> (r: Option<String>)
        ensures
            crate::text::opt_text(r) == text_member(self@, key@),
    {
        match self.get(key) {
            Some(value) => match value.as_text() {
                Some(s) => Some(s.clone()),
                None => None,
            },
            None => None,
        }
    }

    /// The member `key` where it is an integer from 0 to `u64::MAX`.
    pub fn u64_member(&self, key: &str) -> (r: Option<u64>)
        ensures
            r == u64_member(self@, key@),
    {
        match self.get(key) {
            Some(value) => match value.as_number() {
                Some(JsonNumber::Unsigned(n)) => Some(n),
                _ => None,
            },
            None => None,
        }
    }

    /// The member `key` where it is an integer that fits in an `i32`.
    pub fn i32_member(&self, key: &str) -> (r: Option<i32>)
        ensures
            r == i32_member(self@, key@),
    {
        match self.get(key) {
            Some(value) => match value.as_number() {
                Some(JsonNumber::Unsigned(u)) => if u <= 2147483647 {
                    Some(u as i32)
                } else {
                    None
                },
                Some(JsonNumber::Negative(i)) => if -2147483648 <= i && i <= 2147483647 {
                    Some(i as i32)
                } else {
                    None
                },
                _ => None,
            },
            None => None,
        }
    }

    /// The member `key` where it is an array.
    pub fn array_member(&self, key: &str) -> (r: Option<&Vec<JsonValue>>)
        ensures
            match r {
                Some(items) => array_member(self@, key@) == Some(item_models(items@)),
                None => array_member(self@, key@) is None,
            },
    {
        match self.get(key) {
            Some(value) => value.as_array(),
            None => None,
        }
    }
}

/// The texts of `items`, where each of them is a text.
pub fn texts_from(items: &Vec<JsonValue>) -> (r: Option<Vec<String>>)
    ensures
        match r {
            Some(texts) => texts_of(item_models(items@)) == Some(crate::text::texts(texts@)),
            None => texts_of(item_models(items@)) is None,
        },
{
    let ghost models = item_models(items@);
    let mut out: Vec<String> = Vec::new();
    let mut i: usize = 0;
    while i < items.len()
        invariant
            0 <= i <= items@.len(),
            models == item_models(items@),
            out@.len() == i,
            forall|j: int| 0 <= j < i ==> (#[trigger] models[j]) == JsonModel::Text(out@[j]@),
        decreases items@.len() - i,
    {
        match items[i].as_text() {
            Some(s) => {
                out.push(s.clone());
            },
            None => {
                assert(!(models[i as int] is Text));
                return None;
            },
        }
        i += 1;
    }
    assert(texts_of(models)->0 =~= crate::text::texts(out@));
    Some(out)
}

} // verus!
