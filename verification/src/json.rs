//! JSON values as a tree of plain data, and the way between the tree and its text.

use vstd::prelude::*;

use crate::double::{Double, DoubleView};
use crate::{rows, text};

verus! {

/// A JSON number: a natural number, a negative one, or any other by its double.
#[derive(Debug, PartialEq)]
pub enum JsonNumber {
    Unsigned(u64),
    Negative(i64),
    Double(Double),
}

/// What a `JsonNumber` stands for.
#[verifier::ext_equal]
pub enum JsonNumberView {
    Unsigned(u64),
    Negative(i64),
    Double(DoubleView),
}

/// A JSON value. The fields of an object stand in the order of their names, each once.
#[derive(Debug, PartialEq)]
pub enum Json {
    Null,
    Bool(bool),
    Number(JsonNumber),
    Str(String),
    Array(Vec<Json>),
    Object(Vec<(String, Json)>),
}

/// What a `Json` stands for.
#[verifier::ext_equal]
pub enum JsonView {
    Null,
    Bool(bool),
    Number(JsonNumberView),
    Str(Seq<char>),
    Array(Seq<JsonView>),
    Object(Seq<(Seq<char>, JsonView)>),
}

impl View for JsonNumber {
    type V = JsonNumberView;

    open spec fn view(&self) -> JsonNumberView {
        match *self {
            JsonNumber::Unsigned(n) => JsonNumberView::Unsigned(n),
            JsonNumber::Negative(n) => JsonNumberView::Negative(n),
            JsonNumber::Double(x) => JsonNumberView::Double(x@),
        }
    }
}

/// The value that a tree stands for.
pub open spec fn tree_view(j: Json) -> JsonView
    decreases j,
{
    match j {
        Json::Null => JsonView::Null,
        Json::Bool(b) => JsonView::Bool(b),
        Json::Number(n) => JsonView::Number(n@),
        Json::Str(s) => JsonView::Str(s@),
        Json::Array(items) => JsonView::Array(
            Seq::new(
                items@.len(),
                |i: int|
                    if 0 <= i < items@.len() {
                        tree_view(items@[i])
                    } else {
                        JsonView::Null
                    },
            ),
        ),
        Json::Object(fields) => JsonView::Object(
            Seq::new(
                fields@.len(),
                |i: int|
                    if 0 <= i < fields@.len() {
                        (fields@[i].0@, tree_view(fields@[i].1))
                    } else {
                        (Seq::empty(), JsonView::Null)
                    },
            ),
        ),
    }
}

impl View for Json {
    type V = JsonView;

    open spec fn view(&self) -> JsonView {
        tree_view(*self)
    }
}

impl DeepView for Json {
    type V = JsonView;

    open spec fn deep_view(&self) -> JsonView {
        self@
    }
}

/// Whether a field has a name.
pub open spec fn named(name: Seq<char>) -> spec_fn((Seq<char>, JsonView)) -> bool {
    |f: (Seq<char>, JsonView)| f.0 == name
}

/// The field of an object that has a name.
pub open spec fn field(v: JsonView, name: Seq<char>) -> Option<JsonView> {
    match v {
        JsonView::Object(fields) => match rows::first_where(fields, named(name)) {
            Some(f) => Some(f.1),
            None => None,
        },
        _ => None,
    }
}

/// A field is read by its name where none before it has that name.
pub proof fn lemma_field_at(fields: Seq<(Seq<char>, JsonView)>, i: int)
    requires
        0 <= i < fields.len(),
        forall|k: int| 0 <= k < i ==> (#[trigger] fields[k]).0 != fields[i].0,
    ensures
        field(JsonView::Object(fields), fields[i].0) == Some(fields[i].1),
{
    rows::lemma_first_where_hit(fields, named(fields[i].0), i);
}

/// The text of a value that is a text.
pub open spec fn text_of(v: JsonView) -> Option<Seq<char>> {
    match v {
        JsonView::Str(s) => Some(s),
        _ => None,
    }
}

/// The truth value of a value that is one.
pub open spec fn bool_of(v: JsonView) -> Option<bool> {
    match v {
        JsonView::Bool(b) => Some(b),
        _ => None,
    }
}

/// The whole number of a value that is one and fits in 64 bits with a sign.
pub open spec fn int_of(v: JsonView) -> Option<i64> {
    match v {
        JsonView::Number(JsonNumberView::Unsigned(n)) => if n <= i64::MAX {
            Some(n as i64)
        } else {
            None
        },
        JsonView::Number(JsonNumberView::Negative(n)) => Some(n),
        _ => None,
    }
}

/// The double of a natural number, as `serde_json::Number::as_f64` gives it.
pub uninterp spec fn unsigned_real(n: u64) -> DoubleView;

/// The double of a negative number, as `serde_json::Number::as_f64` gives it.
pub uninterp spec fn negative_real(n: i64) -> DoubleView;

/// The number of a value that is one, as a double.
pub open spec fn real_of(v: JsonView) -> Option<DoubleView> {
    match v {
        JsonView::Number(JsonNumberView::Unsigned(n)) => Some(unsigned_real(n)),
        JsonView::Number(JsonNumberView::Negative(n)) => Some(negative_real(n)),
        JsonView::Number(JsonNumberView::Double(x)) => Some(x),
        _ => None,
    }
}

/// The text of the field that has a name.
pub open spec fn text_field(v: JsonView, name: Seq<char>) -> Option<Seq<char>> {
    match field(v, name) {
        Some(f) => text_of(f),
        None => None,
    }
}

/// The whole number in the field that has a name.
pub open spec fn int_field(v: JsonView, name: Seq<char>) -> Option<i64> {
    match field(v, name) {
        Some(f) => int_of(f),
        None => None,
    }
}

/// The truth value in the field that has a name.
pub open spec fn bool_field(v: JsonView, name: Seq<char>) -> Option<bool> {
    match field(v, name) {
        Some(f) => bool_of(f),
        None => None,
    }
}

/// The double in the field that has a name.
pub open spec fn real_field(v: JsonView, name: Seq<char>) -> Option<DoubleView> {
    match field(v, name) {
        Some(f) => real_of(f),
        None => None,
    }
}

/// `serde_json::Number::as_f64` of a natural number: always a double, and a function of
/// the number, given by its bits and its two written forms. How the number is rounded
/// is not stated.
#[verifier::external_body]
fn unsigned_as_double(n: u64) -> (r: Option<Double>)
    ensures
        r.deep_view() == Some(unsigned_real(n)),
{
    let number = serde_json::Number::from(n);
    number.as_f64().map(|x| Double {
        bits: x.to_bits(),
        display: x.to_string(),
        literal: serde_json::Value::from(x).to_string(),
    })
}

/// `serde_json::Number::as_f64` of a negative number: always a double, and a function of
/// the number, given by its bits and its two written forms. How the number is rounded
/// is not stated.
#[verifier::external_body]
fn negative_as_double(n: i64) -> (r: Option<Double>)
    ensures
        r.deep_view() == Some(negative_real(n)),
{
    let number = serde_json::Number::from(n);
    number.as_f64().map(|x| Double {
        bits: x.to_bits(),
        display: x.to_string(),
        literal: serde_json::Value::from(x).to_string(),
    })
}

/// A value as the `serde_json` crate holds it.
#[verifier::external_type_specification]
#[verifier::external_body]
pub struct ExValue(serde_json::Value);

/// The tree of a text that is valid JSON, as `serde_json::from_str` reads it.
pub uninterp spec fn parsed(text: Seq<char>) -> Option<JsonView>;

/// The text of a tree, as `serde_json::to_string` writes it.
pub uninterp spec fn printed(v: JsonView) -> Seq<char>;

/// The list behind a text that is a JSON array of texts, or what is wrong with another text,
/// as `serde_json::from_str` reads it.
pub uninterp spec fn list_reading(text: Seq<char>) -> Result<Seq<Seq<char>>, Seq<char>>;

/// The list behind a text that is a JSON array of texts.
pub open spec fn parsed_list(text: Seq<char>) -> Option<Seq<Seq<char>>> {
    match list_reading(text) {
        Ok(list) => Some(list),
        Err(_) => None,
    }
}

/// The text of a list of texts, as `serde_json::to_string` writes it.
pub uninterp spec fn printed_list(list: Seq<Seq<char>>) -> Seq<char>;

/// A number as the `serde_json` crate holds it.
#[verifier::external_type_specification]
#[verifier::external_body]
pub struct ExNumber(serde_json::Number);

/// The tree of a `serde_json::Number`: unsigned where `as_u64` gives it, negative where `as_i64`
/// does, and a double otherwise.
#[verifier::external_body]
fn number_of(n: serde_json::Number) -> Json {
    n.as_u64().map(JsonNumber::Unsigned)
        .or_else(|| n.as_i64().map(JsonNumber::Negative))
        .or_else(|| n.as_f64().map(|x| JsonNumber::Double(Double { bits: x.to_bits(), display: x.to_string(), literal: n.to_string() })))
        .map(Json::Number).unwrap_or(Json::Null)
}

/// The tree of a `serde_json::Value`, variant by variant.
#[verifier::external_body]
fn tree_of(value: serde_json::Value) -> Json {
    match value {
        serde_json::Value::Null => Json::Null,
        serde_json::Value::Bool(b) => Json::Bool(b),
        serde_json::Value::Number(n) => number_of(n),
        serde_json::Value::String(s) => Json::Str(s),
        serde_json::Value::Array(a) => Json::Array(a.into_iter().map(tree_of).collect()),
        serde_json::Value::Object(o) => Json::Object(o.into_iter().map(|(k, v)| (k, tree_of(v))).collect()),
    }
}

/// The `serde_json::Value` of a double, by the literal that it is written as: `Null` where the
/// literal is no finite number.
#[verifier::external_body]
fn value_of_double(x: &Double) -> serde_json::Value {
    x.literal.parse().ok().and_then(serde_json::Number::from_f64).map(serde_json::Value::Number)
        .unwrap_or(serde_json::Value::Null)
}

/// The `serde_json::Value` of a tree, variant by variant.
#[verifier::external_body]
fn value_of(tree: &Json) -> serde_json::Value {
    match tree {
        Json::Null => serde_json::Value::Null,
        Json::Bool(b) => serde_json::Value::from(*b),
        Json::Number(JsonNumber::Unsigned(n)) => serde_json::Value::from(*n),
        Json::Number(JsonNumber::Negative(n)) => serde_json::Value::from(*n),
        Json::Number(JsonNumber::Double(x)) => value_of_double(x),
        Json::Str(s) => serde_json::Value::from(s.as_str()),
        Json::Array(a) => serde_json::Value::Array(a.iter().map(value_of).collect()),
        Json::Object(o) => serde_json::Value::Object(o.iter().map(|(k, v)| (k.clone(), value_of(v))).collect()),
    }
}

/// `serde_json::from_str` into a `Value`: whether a text is JSON, and the tree it then
/// gives, are a function of the text alone.
#[verifier::external_body]
pub(crate) fn parse(text: &str) -> (r: Option<Json>)
    ensures
        r.deep_view() == parsed(text@),
{
    serde_json::from_str(text).ok().map(tree_of)
}

/// Whether a tree is read back from its text as it was: its numbers are whole, the fields
/// of its objects stand in the order of their names, and it is nested no deeper than
/// `depth`.
pub open spec fn storable(v: JsonView, depth: nat) -> bool
    decreases depth,
{
    match v {
        JsonView::Null => true,
        JsonView::Bool(_) => true,
        JsonView::Str(_) => true,
        JsonView::Number(JsonNumberView::Unsigned(_)) => true,
        JsonView::Number(JsonNumberView::Negative(n)) => n < 0,
        JsonView::Number(JsonNumberView::Double(_)) => false,
        JsonView::Array(items) => {
            &&& depth > 0
            &&& forall|i: int| 0 <= i < items.len() ==> storable(#[trigger] items[i], (depth - 1) as nat)
        },
        JsonView::Object(fields) => {
            &&& depth > 0
            &&& forall|i: int, k: int|
                0 <= i < k < fields.len() ==> text::precedes((#[trigger] fields[i]).0, (#[trigger] fields[k]).0)
            &&& forall|i: int|
                0 <= i < fields.len() ==> storable((#[trigger] fields[i]).1, (depth - 1) as nat)
        },
    }
}

/// How deep a text may be nested for `serde_json::from_str` to read it.
pub const DEPTH_LIMIT: u64 = 127;

/// `serde_json::to_string` of a `Value`: the text is a function of the tree alone, and
/// `serde_json::from_str` gives the tree back from it where `storable` holds. Of a
/// tree with other numbers nothing more is stated, since reading rounds them.
#[verifier::external_body]
pub(crate) fn print(tree: &Json) -> (r: String)
    ensures
        r@ == printed(tree@),
        storable(tree@, DEPTH_LIMIT as nat) ==> parsed(r@) == Some(tree@),
{
    value_of(tree).to_string()
}

/// `serde_json::from_str` into a `Vec<String>`: whether a text is a JSON array of texts,
/// the list it then gives, and the message otherwise, are a function of the text alone.
#[verifier::external_body]
pub(crate) fn read_list(text: &str) -> (r: Result<Vec<String>, String>)
    ensures
        match list_reading(text@) {
            Ok(list) => r is Ok && r->Ok_0.deep_view() == list,
            Err(message) => r is Err && r->Err_0@ == message,
        },
{
    serde_json::from_str(text).map_err(|e: serde_json::Error| e.to_string())
}

/// The list behind a text that is a JSON array of texts.
pub(crate) fn parse_list(text: &str) -> (r: Option<Vec<String>>)
    ensures
        r.deep_view() == parsed_list(text@),
{
    match read_list(text) {
        Ok(list) => Some(list),
        Err(_) => None,
    }
}

/// `serde_json::to_string` of a `Vec<String>`: the text is a function of the list alone,
/// and `serde_json::from_str` gives the list back from it.
#[verifier::external_body]
pub(crate) fn print_list(list: &Vec<String>) -> (r: String)
    ensures
        r@ == printed_list(list.deep_view()),
        parsed_list(r@) == Some(list.deep_view()),
{
    serde_json::Value::from(list.clone()).to_string()
}

impl JsonNumber {
    /// The same number.
    pub fn copy(&self) -> (r: JsonNumber)
        ensures
            r@ == self@,
    {
        match self {
            JsonNumber::Unsigned(n) => JsonNumber::Unsigned(*n),
            JsonNumber::Negative(n) => JsonNumber::Negative(*n),
            JsonNumber::Double(x) => JsonNumber::Double(x.copy()),
        }
    }

    /// Whether two numbers are the same, written the same way.
    pub fn same(&self, other: &JsonNumber) -> (r: bool)
        ensures
            r == (self@ == other@),
    {
        match (self, other) {
            (JsonNumber::Unsigned(a), JsonNumber::Unsigned(b)) => *a == *b,
            (JsonNumber::Negative(a), JsonNumber::Negative(b)) => *a == *b,
            (JsonNumber::Double(a), JsonNumber::Double(b)) => a.same(b),
            _ => false,
        }
    }
}

impl Json {
    /// The same tree.
    pub fn copy(&self) -> (r: Json)
        ensures
            r@ == self@,
        decreases self,
    {
        match self {
            Json::Null => Json::Null,
            Json::Bool(b) => Json::Bool(*b),
            Json::Number(n) => Json::Number(n.copy()),
            Json::Str(s) => Json::Str(s.clone()),
            Json::Array(items) => {
                let mut copies: Vec<Json> = Vec::new();
                let mut i: usize = 0;
                while i < items.len()
                    invariant
                        0 <= i <= items@.len(),
                        copies@.len() == i,
                        decreases_to!(*self => *items),
                        forall|k: int| 0 <= k < i ==> (#[trigger] copies@[k])@ == items@[k]@,
                    decreases items@.len() - i,
                {
                    copies.push(items[i].copy());
                    i += 1;
                }
                let r = Json::Array(copies);
                assert(r@->Array_0 =~= self@->Array_0);
                r
            },
            Json::Object(fields) => {
                let mut copies: Vec<(String, Json)> = Vec::new();
                let mut i: usize = 0;
                while i < fields.len()
                    invariant
                        0 <= i <= fields@.len(),
                        copies@.len() == i,
                        decreases_to!(*self => *fields),
                        forall|k: int|
                            0 <= k < i ==> (#[trigger] copies@[k]).0@ == fields@[k].0@ && copies@[k].1@
                                == fields@[k].1@,
                    decreases fields@.len() - i,
                {
                    copies.push((fields[i].0.clone(), fields[i].1.copy()));
                    i += 1;
                }
                let r = Json::Object(copies);
                assert(r@->Object_0 =~= self@->Object_0);
                r
            },
        }
    }

    /// Whether two trees stand for the same value.
    pub fn same(&self, other: &Json) -> (r: bool)
        ensures
            r == (self@ == other@),
        decreases self,
    {
        match (self, other) {
            (Json::Null, Json::Null) => true,
            (Json::Bool(a), Json::Bool(b)) => *a == *b,
            (Json::Number(a), Json::Number(b)) => a.same(b),
            (Json::Str(a), Json::Str(b)) => *a == *b,
            (Json::Array(a), Json::Array(b)) => {
                if a.len() != b.len() {
                    assert(self@->Array_0.len() != other@->Array_0.len());
                    return false;
                }
                let mut i: usize = 0;
                while i < a.len()
                    invariant
                        0 <= i <= a@.len(),
                        a@.len() == b@.len(),
                        *self == Json::Array(*a),
                        *other == Json::Array(*b),
                        forall|k: int| 0 <= k < i ==> (#[trigger] a@[k])@ == b@[k]@,
                    decreases a@.len() - i,
                {
                    if !a[i].same(&b[i]) {
                        assert(self@->Array_0[i as int] != other@->Array_0[i as int]);
                        return false;
                    }
                    i += 1;
                }
                assert(self@->Array_0 =~= other@->Array_0);
                true
            },
            (Json::Object(a), Json::Object(b)) => {
                if a.len() != b.len() {
                    assert(self@->Object_0.len() != other@->Object_0.len());
                    return false;
                }
                let mut i: usize = 0;
                while i < a.len()
                    invariant
                        0 <= i <= a@.len(),
                        a@.len() == b@.len(),
                        *self == Json::Object(*a),
                        *other == Json::Object(*b),
                        forall|k: int|
                            0 <= k < i ==> (#[trigger] a@[k]).0@ == b@[k].0@ && a@[k].1@ == b@[k].1@,
                    decreases a@.len() - i,
                {
                    if a[i].0 != b[i].0 || !a[i].1.same(&b[i].1) {
                        assert(self@->Object_0[i as int] != other@->Object_0[i as int]);
                        return false;
                    }
                    i += 1;
                }
                assert(self@->Object_0 =~= other@->Object_0);
                true
            },
            _ => false,
        }
    }

    /// The field of an object that has a name.
    pub fn get(&self, name: &str) -> (r: Option<&Json>)
        ensures
            r.deep_view() == field(self@, name@),
    {
        match self {
            Json::Object(fields) => {
                let ghost seen = self@->Object_0;
                let ghost p = |f: (Seq<char>, JsonView)| f.0 == name@;
                let mut i: usize = 0;
                while i < fields.len()
                    invariant
                        0 <= i <= fields@.len(),
                        *self == Json::Object(*fields),
                        seen == self@->Object_0,
                        p == (|f: (Seq<char>, JsonView)| f.0 == name@),
                        forall|k: int| 0 <= k < i ==> !p(#[trigger] seen[k]),
                    decreases fields@.len() - i,
                {
                    if text::same_text(fields[i].0.as_str(), name) {
                        proof {
                            rows::lemma_first_where_hit(seen, p, i as int);
                        }
                        return Some(&fields[i].1);
                    }
                    i += 1;
                }
                proof {
                    rows::lemma_first_where_miss(seen, p);
                }
                None
            },
            _ => None,
        }
    }

    /// The text of a value that is a text.
    pub fn as_str(&self) -> (r: Option<&str>)
        ensures
            r.deep_view() == text_of(self@),
    {
        match self {
            Json::Str(s) => Some(s.as_str()),
            _ => None,
        }
    }

    /// The truth value of a value that is one.
    pub fn as_bool(&self) -> (r: Option<bool>)
        ensures
            r == bool_of(self@),
    {
        match self {
            Json::Bool(b) => Some(*b),
            _ => None,
        }
    }

    /// The whole number of a value that is one and fits in 64 bits with a sign.
    pub fn as_i64(&self) -> (r: Option<i64>)
        ensures
            r == int_of(self@),
    {
        match self {
            Json::Number(JsonNumber::Unsigned(n)) => if *n <= i64::MAX as u64 {
                Some(*n as i64)
            } else {
                None
            },
            Json::Number(JsonNumber::Negative(n)) => Some(*n),
            _ => None,
        }
    }

    /// The number of a value that is one, as a double.
    pub fn as_double(&self) -> (r: Option<Double>)
        ensures
            r.deep_view() == real_of(self@),
    {
        match self {
            Json::Number(JsonNumber::Unsigned(n)) => unsigned_as_double(*n),
            Json::Number(JsonNumber::Negative(n)) => negative_as_double(*n),
            Json::Number(JsonNumber::Double(x)) => Some(x.copy()),
            _ => None,
        }
    }

    /// The text in the field that has a name.
    pub fn str_field(&self, name: &str) -> (r: Option<&str>)
        ensures
            r.deep_view() == text_field(self@, name@),
    {
        match self.get(name) {
            Some(f) => f.as_str(),
            None => None,
        }
    }

    /// The truth value in the field that has a name.
    pub fn bool_field(&self, name: &str) -> (r: Option<bool>)
        ensures
            r == bool_field(self@, name@),
    {
        match self.get(name) {
            Some(f) => f.as_bool(),
            None => None,
        }
    }

    /// The whole number in the field that has a name.
    pub fn int_field(&self, name: &str) -> (r: Option<i64>)
        ensures
            r == int_field(self@, name@),
    {
        match self.get(name) {
            Some(f) => f.as_i64(),
            None => None,
        }
    }

    /// The double in the field that has a name.
    pub fn double_field(&self, name: &str) -> (r: Option<Double>)
        ensures
            r.deep_view() == real_field(self@, name@),
    {
        match self.get(name) {
            Some(f) => f.as_double(),
            None => None,
        }
    }
}

/// The texts of a value that is an array of nothing but texts.
pub open spec fn texts_of(v: JsonView) -> Option<Seq<Seq<char>>> {
    match v {
        JsonView::Array(items) => if forall|i: int| 0 <= i < items.len() ==> text_of(#[trigger] items[i]) is Some {
            Some(Seq::new(items.len(), |i: int| text_of(items[i])->0))
        } else {
            None
        },
        _ => None,
    }
}

/// The texts in the field that has a name.
pub open spec fn texts_field(v: JsonView, name: Seq<char>) -> Option<Seq<Seq<char>>> {
    match field(v, name) {
        Some(f) => texts_of(f),
        None => None,
    }
}

impl Json {
    /// The texts of a value that is an array of nothing but texts.
    pub fn as_texts(&self) -> (r: Option<Vec<String>>)
        ensures
            r.deep_view() == texts_of(self@),
    {
        match self {
            Json::Array(items) => {
                let ghost all = self@->Array_0;
                let mut out: Vec<String> = Vec::new();
                let mut i: usize = 0;
                while i < items.len()
                    invariant
                        0 <= i <= items@.len(),
                        *self == Json::Array(*items),
                        all == self@->Array_0,
                        all.len() == items@.len(),
                        out@.len() == i,
                        forall|k: int|
                            0 <= k < i ==> text_of(#[trigger] all[k]) is Some && text_of(all[k])->0
                                == out@[k]@,
                    decreases items@.len() - i,
                {
                    assert(all[i as int] == items@[i as int]@);
                    match items[i].as_str() {
                        Some(s) => out.push(s.to_string()),
                        None => {
                            assert(text_of(all[i as int]) is None);
                            return None;
                        },
                    }
                    i += 1;
                }
                assert(out.deep_view() =~= texts_of(self@)->0);
                Some(out)
            },
            _ => None,
        }
    }

    /// The texts in the field that has a name.
    pub fn texts_field(&self, name: &str) -> (r: Option<Vec<String>>)
        ensures
            r.deep_view() == texts_field(self@, name@),
    {
        match self.get(name) {
            Some(f) => f.as_texts(),
            None => None,
        }
    }
}

/// The fields of an object after one of them was given a value, in the order of their names.
pub open spec fn with_field(fields: Seq<(Seq<char>, JsonView)>, name: Seq<char>, value: JsonView) -> Seq<
    (Seq<char>, JsonView),
>
    decreases fields.len(),
{
    if fields.len() == 0 {
        seq![(name, value)]
    } else if fields[0].0 == name {
        seq![(name, value)] + fields.drop_first()
    } else if text::precedes(name, fields[0].0) {
        seq![(name, value)] + fields
    } else {
        seq![fields[0]] + with_field(fields.drop_first(), name, value)
    }
}

/// Whether a field has another name.
pub open spec fn named_otherwise(name: Seq<char>) -> spec_fn((Seq<char>, JsonView)) -> bool {
    |f: (Seq<char>, JsonView)| f.0 != name
}

/// A value after one of its fields was set. What has no fields yet becomes an object.
pub open spec fn assigned(v: JsonView, name: Seq<char>, value: JsonView) -> JsonView {
    match v {
        JsonView::Object(fields) => JsonView::Object(with_field(fields, name, value)),
        _ => JsonView::Object(seq![(name, value)]),
    }
}

/// A value without one of its fields.
pub open spec fn removed(v: JsonView, name: Seq<char>) -> JsonView {
    match v {
        JsonView::Object(fields) => JsonView::Object(fields.filter(named_otherwise(name))),
        _ => v,
    }
}

/// Whether a value can be given a field: an object, or nothing at all.
pub open spec fn assignable(v: JsonView) -> bool {
    v is Object || v is Null
}

proof fn lemma_with_field_hit(fields: Seq<(Seq<char>, JsonView)>, name: Seq<char>, value: JsonView, i: int)
    requires
        0 <= i < fields.len(),
        fields[i].0 == name,
        forall|k: int|
            0 <= k < i ==> (#[trigger] fields[k]).0 != name && !text::precedes(name, fields[k].0),
    ensures
        with_field(fields, name, value) == fields.update(i, (name, value)),
    decreases i,
{
    if i == 0 {
        assert(seq![(name, value)] + fields.drop_first() =~= fields.update(0, (name, value)));
    } else {
        let t = fields.drop_first();
        assert(fields[0].0 != name);
        assert forall|k: int| 0 <= k < i - 1 implies (#[trigger] t[k]).0 != name && !text::precedes(
            name,
            t[k].0,
        ) by {
            assert(t[k] == fields[k + 1]);
        }
        lemma_with_field_hit(t, name, value, i - 1);
        assert(seq![fields[0]] + t.update(i - 1, (name, value)) =~= fields.update(i, (name, value)));
    }
}

proof fn lemma_with_field_insert(fields: Seq<(Seq<char>, JsonView)>, name: Seq<char>, value: JsonView, i: int)
    requires
        0 <= i <= fields.len(),
        i < fields.len() ==> fields[i].0 != name && text::precedes(name, fields[i].0),
        forall|k: int|
            0 <= k < i ==> (#[trigger] fields[k]).0 != name && !text::precedes(name, fields[k].0),
    ensures
        with_field(fields, name, value) == fields.insert(i, (name, value)),
    decreases i,
{
    if i == 0 {
        assert(seq![(name, value)] + fields =~= fields.insert(0, (name, value)));
        if fields.len() == 0 {
            assert(seq![(name, value)] =~= fields.insert(0, (name, value)));
        }
    } else {
        let t = fields.drop_first();
        assert(fields[0].0 != name);
        assert forall|k: int| 0 <= k < i - 1 implies (#[trigger] t[k]).0 != name && !text::precedes(
            name,
            t[k].0,
        ) by {
            assert(t[k] == fields[k + 1]);
        }
        lemma_with_field_insert(t, name, value, i - 1);
        assert(seq![fields[0]] + t.insert(i - 1, (name, value)) =~= fields.insert(i, (name, value)));
    }
}

proof fn lemma_with_field_read(fields: Seq<(Seq<char>, JsonView)>, name: Seq<char>, value: JsonView, other: Seq<char>)
    ensures
        rows::first_where(with_field(fields, name, value), named(other)) == (if other == name {
            Some((name, value))
        } else {
            rows::first_where(fields, named(other))
        }),
    decreases fields.len(),
{
    reveal_with_fuel(rows::first_where, 2);
    let after = with_field(fields, name, value);
    if fields.len() == 0 {
        assert(after.drop_first() =~= Seq::empty());
    } else if fields[0].0 == name {
        assert(after.drop_first() =~= fields.drop_first());
    } else if text::precedes(name, fields[0].0) {
        assert(after.drop_first() =~= fields);
    } else {
        lemma_with_field_read(fields.drop_first(), name, value, other);
        assert(after.drop_first() =~= with_field(fields.drop_first(), name, value));
        assert(after[0] == fields[0]);
    }
}

proof fn lemma_without_field_read(fields: Seq<(Seq<char>, JsonView)>, name: Seq<char>, other: Seq<char>)
    ensures
        rows::first_where(fields.filter(named_otherwise(name)), named(other)) == (if other == name {
            None
        } else {
            rows::first_where(fields, named(other))
        }),
    decreases fields.len(),
{
    let p = named_otherwise(name);
    if fields.len() == 0 {
        reveal(Seq::filter);
        assert(fields.filter(p) =~= Seq::empty());
    } else {
        let t = fields.drop_first();
        lemma_without_field_read(t, name, other);
        assert(fields =~= seq![fields[0]] + t);
        t.lemma_filter_prepend(fields[0], p);
        if fields[0].0 != name {
            let f = fields.filter(p);
            assert(f =~= seq![fields[0]] + t.filter(p));
            assert(f.drop_first() =~= t.filter(p));
        }
    }
}

/// A field that was set reads as it was set, and every other field as before.
pub proof fn law_assigned_field_reads_back(v: JsonView, name: Seq<char>, value: JsonView, other: Seq<char>)
    requires
        assignable(v),
    ensures
        field(assigned(v, name, value), name) == Some(value),
        other != name ==> field(assigned(v, name, value), other) == field(v, other),
{
    let fields = match v {
        JsonView::Object(fields) => fields,
        _ => Seq::empty(),
    };
    lemma_with_field_read(fields, name, value, name);
    lemma_with_field_read(fields, name, value, other);
    assert(named(name) =~= (|f: (Seq<char>, JsonView)| f.0 == name));
    assert(named(other) =~= (|f: (Seq<char>, JsonView)| f.0 == other));
    if !(v is Object) {
        assert(with_field(fields, name, value) =~= seq![(name, value)]);
        assert(rows::first_where(fields, named(other)) is None);
    }
}

/// A field that was removed is not there, and every other field reads as before.
pub proof fn law_removed_field_is_gone(v: JsonView, name: Seq<char>, other: Seq<char>)
    ensures
        field(removed(v, name), name) is None,
        other != name ==> field(removed(v, name), other) == field(v, other),
{
    assert(named(name) =~= (|f: (Seq<char>, JsonView)| f.0 == name));
    assert(named(other) =~= (|f: (Seq<char>, JsonView)| f.0 == other));
    if let JsonView::Object(fields) = v {
        lemma_without_field_read(fields, name, name);
        lemma_without_field_read(fields, name, other);
    }
}

proof fn lemma_with_field_member(fields: Seq<(Seq<char>, JsonView)>, name: Seq<char>, value: JsonView, i: int)
    requires
        0 <= i < with_field(fields, name, value).len(),
    ensures
        with_field(fields, name, value)[i] == (name, value) || fields.contains(
            with_field(fields, name, value)[i],
        ),
    decreases fields.len(),
{
    let after = with_field(fields, name, value);
    if fields.len() > 0 {
        let t = fields.drop_first();
        if fields[0].0 == name {
            if i > 0 {
                assert(after[i] == fields[i]);
            }
        } else if text::precedes(name, fields[0].0) {
            if i > 0 {
                assert(after[i] == fields[i - 1]);
            }
        } else if i == 0 {
            assert(after[0] == fields[0]);
        } else {
            lemma_with_field_member(t, name, value, i - 1);
            assert(after[i] == with_field(t, name, value)[i - 1]);
            if t.contains(after[i]) {
                let k = choose|k: int| 0 <= k < t.len() && t[k] == after[i];
                assert(fields[k + 1] == after[i]);
            }
        }
    }
}

/// Whether fields stand in the order of their names.
pub open spec fn in_name_order(fields: Seq<(Seq<char>, JsonView)>) -> bool {
    forall|i: int, k: int|
        0 <= i < k < fields.len() ==> text::precedes((#[trigger] fields[i]).0, (#[trigger] fields[k]).0)
}

proof fn lemma_with_field_order(fields: Seq<(Seq<char>, JsonView)>, name: Seq<char>, value: JsonView)
    requires
        in_name_order(fields),
    ensures
        in_name_order(with_field(fields, name, value)),
    decreases fields.len(),
{
    let after = with_field(fields, name, value);
    if fields.len() > 0 {
        let t = fields.drop_first();
        assert(in_name_order(t)) by {
            assert forall|i: int, k: int| 0 <= i < k < t.len() implies text::precedes(
                (#[trigger] t[i]).0,
                (#[trigger] t[k]).0,
            ) by {
                assert(t[i] == fields[i + 1]);
                assert(t[k] == fields[k + 1]);
            }
        }
        if fields[0].0 == name {
            assert forall|i: int, k: int| 0 <= i < k < after.len() implies text::precedes(
                (#[trigger] after[i]).0,
                (#[trigger] after[k]).0,
            ) by {
                assert(after[k] == fields[k]);
                assert(after[i].0 == fields[i].0);
            }
        } else if text::precedes(name, fields[0].0) {
            assert forall|i: int, k: int| 0 <= i < k < after.len() implies text::precedes(
                (#[trigger] after[i]).0,
                (#[trigger] after[k]).0,
            ) by {
                assert(after[k] == fields[k - 1]);
                if i == 0 {
                    if k > 1 {
                        assert(text::precedes(fields[0].0, fields[k - 1].0));
                        text::lemma_precedes_transitive(name, fields[0].0, fields[k - 1].0);
                    }
                } else {
                    assert(after[i] == fields[i - 1]);
                }
            }
        } else {
            text::lemma_precedes_total(name, fields[0].0);
            lemma_with_field_order(t, name, value);
            let rest = with_field(t, name, value);
            assert forall|i: int, k: int| 0 <= i < k < after.len() implies text::precedes(
                (#[trigger] after[i]).0,
                (#[trigger] after[k]).0,
            ) by {
                assert(after[k] == rest[k - 1]);
                if i == 0 {
                    lemma_with_field_member(t, name, value, k - 1);
                    if t.contains(rest[k - 1]) {
                        let m = choose|m: int| 0 <= m < t.len() && t[m] == rest[k - 1];
                        assert(fields[m + 1] == t[m]);
                        assert(text::precedes(fields[0].0, fields[m + 1].0));
                    }
                } else {
                    assert(after[i] == rest[i - 1]);
                }
            }
        }
    }
}

/// A value that is read back from its text stays one when a field is set to such a value.
pub proof fn law_assigned_stays_storable(v: JsonView, name: Seq<char>, value: JsonView, depth: nat)
    requires
        assignable(v),
        depth > 0,
        storable(v, depth),
        storable(value, (depth - 1) as nat),
    ensures
        storable(assigned(v, name, value), depth),
{
    if let JsonView::Object(fields) = v {
        lemma_with_field_order(fields, name, value);
        let after = with_field(fields, name, value);
        assert forall|i: int| 0 <= i < after.len() implies storable((#[trigger] after[i]).1, (depth - 1) as nat) by {
            lemma_with_field_member(fields, name, value, i);
            if fields.contains(after[i]) {
                let k = choose|k: int| 0 <= k < fields.len() && fields[k] == after[i];
                assert(storable(fields[k].1, (depth - 1) as nat));
            }
        }
    }
}

proof fn lemma_filter_order(fields: Seq<(Seq<char>, JsonView)>, p: spec_fn((Seq<char>, JsonView)) -> bool)
    requires
        in_name_order(fields),
    ensures
        in_name_order(fields.filter(p)),
    decreases fields.len(),
{
    reveal(Seq::filter);
    if fields.len() > 0 {
        let t = fields.drop_last();
        assert(in_name_order(t)) by {
            assert forall|i: int, k: int| 0 <= i < k < t.len() implies text::precedes(
                (#[trigger] t[i]).0,
                (#[trigger] t[k]).0,
            ) by {
                assert(t[i] == fields[i]);
                assert(t[k] == fields[k]);
            }
        }
        lemma_filter_order(t, p);
        let rest = t.filter(p);
        let after = fields.filter(p);
        assert forall|i: int, k: int| 0 <= i < k < after.len() implies text::precedes(
            (#[trigger] after[i]).0,
            (#[trigger] after[k]).0,
        ) by {
            assert(after[i] == rest[i]);
            if k < rest.len() {
                assert(after[k] == rest[k]);
            } else {
                assert(rest.contains(rest[i]));
                rows::lemma_filter_member(t, p, rest[i]);
                let m = choose|m: int| 0 <= m < t.len() && t[m] == rest[i];
                assert(fields[m] == rest[i]);
                assert(after[k] == fields[fields.len() - 1]);
            }
        }
    }
}

/// A value that is read back from its text stays one when a field is removed.
pub proof fn law_removed_stays_storable(v: JsonView, name: Seq<char>, depth: nat)
    requires
        storable(v, depth),
    ensures
        storable(removed(v, name), depth),
{
    if let JsonView::Object(fields) = v {
        let p = named_otherwise(name);
        lemma_filter_order(fields, p);
        let after = fields.filter(p);
        assert forall|i: int| 0 <= i < after.len() implies storable((#[trigger] after[i]).1, (depth - 1) as nat) by {
            assert(after.contains(after[i]));
            rows::lemma_filter_member(fields, p, after[i]);
            let k = choose|k: int| 0 <= k < fields.len() && fields[k] == after[i];
            assert(storable(fields[k].1, (depth - 1) as nat));
        }
    }
}

impl Json {
    /// Sets a field of an object; nothing at all becomes an object that has it.
    pub fn assign(&mut self, name: &str, value: Json)
        requires
            assignable(old(self)@),
        ensures
            final(self)@ == assigned(old(self)@, name@, value@),
    {
        let ghost start = self@;
        let mut fields: Vec<(String, Json)> = Vec::new();
        let mut placed = false;
        let ghost given = value@;
        let copy = value.copy();
        match self {
            Json::Object(present) => {
                let ghost all = start->Object_0;
                let mut i: usize = 0;
                while i < present.len() && !text::same_text(present[i].0.as_str(), name) && !text::is_before(
                    name,
                    present[i].0.as_str(),
                )
                    invariant
                        0 <= i <= present@.len(),
                        start == JsonView::Object(all),
                        all.len() == present@.len(),
                        forall|k: int|
                            0 <= k < all.len() ==> (#[trigger] all[k]) == (present@[k].0@, present@[k].1@),
                        forall|k: int|
                            0 <= k < i ==> (#[trigger] all[k]).0 != name@ && !text::precedes(
                                name@,
                                all[k].0,
                            ),
                    decreases present@.len() - i,
                {
                    i += 1;
                }
                let mut k: usize = 0;
                while k < present.len()
                    invariant
                        0 <= k <= present@.len(),
                        fields@.len() == k,
                        forall|n: int|
                            0 <= n < k ==> (#[trigger] fields@[n]).0@ == present@[n].0@ && fields@[n].1@
                                == present@[n].1@,
                    decreases present@.len() - k,
                {
                    fields.push((present[k].0.clone(), present[k].1.copy()));
                    k += 1;
                }
                if i < fields.len() && text::same_text(fields[i].0.as_str(), name) {
                    proof {
                        lemma_with_field_hit(all, name@, given, i as int);
                    }
                    fields.set(i, pair(name, copy));
                    assert(tree_view(Json::Object(fields))->Object_0 =~= all.update(
                        i as int,
                        (name@, given),
                    ));
                } else {
                    proof {
                        lemma_with_field_insert(all, name@, given, i as int);
                    }
                    fields.insert(i, pair(name, copy));
                    assert(tree_view(Json::Object(fields))->Object_0 =~= all.insert(
                        i as int,
                        (name@, given),
                    ));
                }
                placed = true;
            },
            _ => {},
        }
        if !placed {
            fields = Vec::new();
            fields.push(pair(name, value));
            assert(tree_view(Json::Object(fields))->Object_0 =~= seq![(name@, given)]);
        }
        *self = Json::Object(fields);
    }

    /// A value without one of its fields.
    pub fn without(&self, name: &str) -> (r: Json)
        ensures
            r@ == removed(self@, name@),
    {
        match self {
            Json::Object(fields) => {
                let ghost all = self@->Object_0;
                let ghost p = named_otherwise(name@);
                let mut kept: Vec<(String, Json)> = Vec::new();
                let mut i: usize = 0;
                assert(tree_view(Json::Object(kept))->Object_0 =~= all.take(0).filter(p)) by {
                    reveal(Seq::filter);
                }
                while i < fields.len()
                    invariant
                        0 <= i <= fields@.len(),
                        *self == Json::Object(*fields),
                        all == self@->Object_0,
                        p == named_otherwise(name@),
                        tree_view(Json::Object(kept)) == JsonView::Object(all.take(i as int).filter(p)),
                    decreases fields@.len() - i,
                {
                    proof {
                        assert(all[i as int] == (fields@[i as int].0@, fields@[i as int].1@));
                        rows::lemma_filter_step(all, p, i as int);
                    }
                    if !text::same_text(fields[i].0.as_str(), name) {
                        let ghost before = kept;
                        let ghost seen = tree_view(Json::Object(before))->Object_0;
                        kept.push((fields[i].0.clone(), fields[i].1.copy()));
                        assert(tree_view(Json::Object(kept))->Object_0 =~= seen.push(all[i as int]));
                    }
                    i += 1;
                }
                proof {
                    rows::lemma_take_all(all);
                }
                Json::Object(kept)
            },
            _ => self.copy(),
        }
    }
}

/// The value of a text that may be missing.
pub open spec fn optional_text(s: Option<Seq<char>>) -> JsonView {
    match s {
        Some(s) => JsonView::Str(s),
        None => JsonView::Null,
    }
}

/// The value of a double: a number, or null where it is none.
pub open spec fn double_value(x: DoubleView) -> JsonView {
    if crate::double::finite(x.bits) {
        JsonView::Number(JsonNumberView::Double(x))
    } else {
        JsonView::Null
    }
}

/// The value of a double that may be missing.
pub open spec fn optional_double(x: Option<DoubleView>) -> JsonView {
    match x {
        Some(x) => double_value(x),
        None => JsonView::Null,
    }
}

/// The value of a text.
pub fn of_text(s: &str) -> (r: Json)
    ensures
        r@ == JsonView::Str(s@),
{
    Json::Str(s.to_string())
}

/// The value of a text that may be missing.
pub fn of_option(s: &Option<String>) -> (r: Json)
    ensures
        r@ == optional_text(s.deep_view()),
{
    match s {
        Some(s) => Json::Str(s.clone()),
        None => Json::Null,
    }
}

/// The value of a double: a number, or null where it is none.
pub fn of_double(x: &Double) -> (r: Json)
    ensures
        r@ == double_value(x@),
{
    if x.is_finite() {
        Json::Number(JsonNumber::Double(x.copy()))
    } else {
        Json::Null
    }
}

/// The value of a double that may be missing.
pub fn of_optional_double(x: &Option<Double>) -> (r: Json)
    ensures
        r@ == optional_double(x.deep_view()),
{
    match x {
        Some(x) => of_double(x),
        None => Json::Null,
    }
}

/// The value of a whole number.
pub open spec fn int_value(n: i64) -> JsonView {
    if n >= 0 {
        JsonView::Number(JsonNumberView::Unsigned(n as u64))
    } else {
        JsonView::Number(JsonNumberView::Negative(n))
    }
}

/// The value of a whole number.
pub fn of_int(n: i64) -> (r: Json)
    ensures
        r@ == int_value(n),
        int_of(r@) == Some(n),
{
    if n >= 0 {
        Json::Number(JsonNumber::Unsigned(n as u64))
    } else {
        Json::Number(JsonNumber::Negative(n))
    }
}

/// The value of a truth value.
pub fn of_bool(b: bool) -> (r: Json)
    ensures
        r@ == JsonView::Bool(b),
{
    Json::Bool(b)
}

/// A field of an object.
pub fn pair(name: &str, value: Json) -> (r: (String, Json))
    ensures
        r.0@ == name@,
        r.1 == value,
{
    (name.to_string(), value)
}

/// What a value is made from is what it reads as, and it reads as nothing else.
pub proof fn law_plain_values_read_back(n: i64, s: Seq<char>, b: bool)
    ensures
        int_of(int_value(n)) == Some(n),
        text_of(JsonView::Str(s)) == Some(s),
        bool_of(JsonView::Bool(b)) == Some(b),
        text_of(optional_text(Some(s))) == Some(s),
        text_of(optional_text(None)) is None,
        int_of(JsonView::Str(s)) is None && bool_of(JsonView::Str(s)) is None && real_of(JsonView::Str(s)) is None,
        text_of(int_value(n)) is None && bool_of(int_value(n)) is None,
        text_of(JsonView::Bool(b)) is None && int_of(JsonView::Bool(b)) is None,
{
}

} // verus!
