//! JSON values: a plain tree that the library reads and builds, and the
//! conversion between that tree and text, which `serde_json` does.

use vstd::prelude::*;

use crate::number::parse_i64;
use crate::text::{same_text, trim};

verus! {

/// A number that is no `i64`, as `serde_json` holds it. Only reading a text makes
/// one.
#[derive(Debug, PartialEq)]
pub struct WideNumber {
    number: serde_json::Number,
}

/// A JSON value.
#[derive(Debug, PartialEq)]
pub enum Json {
    Null,
    Bool(bool),
    /// A number that is an `i64`.
    Int(i64),
    /// Any other number: a fraction, or one beyond `i64`.
    Number(WideNumber),
    Str(String),
    Array(Vec<Json>),
    /// The fields in order; of two with one name the later counts.
    Object(Vec<(String, Json)>),
}

/// What a JSON value is: an object maps names to values.
#[verifier::ext_equal]
pub enum JsonView {
    Null,
    Bool(bool),
    Int(i64),
    Number(WideNumber),
    Str(Seq<char>),
    Array(Seq<JsonView>),
    Object(Map<Seq<char>, JsonView>),
}

impl View for Json {
    type V = JsonView;

    open spec fn view(&self) -> JsonView {
        json_view(*self)
    }
}

pub open spec fn json_view(j: Json) -> JsonView
    decreases j,
{
    match j {
        Json::Null => JsonView::Null,
        Json::Bool(b) => JsonView::Bool(b),
        Json::Int(i) => JsonView::Int(i),
        Json::Number(n) => JsonView::Number(n),
        Json::Str(s) => JsonView::Str(s@),
        Json::Array(items) => JsonView::Array(items_view(items@)),
        Json::Object(fields) => JsonView::Object(fields_view(fields@)),
    }
}

/// The values of an array's items.
pub open spec fn items_view(items: Seq<Json>) -> Seq<JsonView>
    decreases items,
{
    Seq::new(
        items.len(),
        |i: int|
            if 0 <= i < items.len() {
                json_view(items[i])
            } else {
                JsonView::Null
            },
    )
}

/// The map that an object's fields make.
pub open spec fn fields_view(fields: Seq<(String, Json)>) -> Map<Seq<char>, JsonView>
    decreases fields,
{
    if fields.len() == 0 {
        Map::empty()
    } else {
        fields_view(fields.drop_last()).insert(fields.last().0@, json_view(fields.last().1))
    }
}

/// `serde_json::Value` is opaque here; [`value_json`] says what one holds.
#[verifier::external_type_specification]
#[verifier::external_body]
pub struct ExValue(serde_json::Value);

/// `serde_json::Number` is opaque here: it is only carried from a text that was
/// read to a text that is printed.
#[verifier::external_type_specification]
#[verifier::external_body]
pub struct ExNumber(serde_json::Number);

/// `serde_json::Map` is opaque here; [`map_json`] says what one holds.
#[verifier::external_type_specification]
#[verifier::external_body]
#[verifier::reject_recursive_types(K)]
#[verifier::reject_recursive_types(V)]
pub struct ExMap<K, V>(serde_json::Map<K, V>);

/// What a `serde_json::Value` holds.
pub uninterp spec fn value_json(v: serde_json::Value) -> JsonView;

/// What a `serde_json::Map` holds: a value for each of its keys.
pub uninterp spec fn map_json(m: serde_json::Map<String, serde_json::Value>) -> Map<
    Seq<char>,
    JsonView,
>;

/// What `serde_json::from_str` reads in a text: a value, or the message of the
/// error.
pub uninterp spec fn json_parsed(text: Seq<char>) -> Result<JsonView, Seq<char>>;

/// The compact text that `serde_json` prints for a value.
pub uninterp spec fn json_text(v: JsonView) -> Seq<char>;

/// The indented text that `serde_json::to_string_pretty` prints for a value.
pub uninterp spec fn json_pretty(v: JsonView) -> Seq<char>;

/// The outermost level of a value.
enum Shape {
    Null,
    Bool(bool),
    Int(i64),
    Number(WideNumber),
    Str(String),
    Array(Vec<serde_json::Value>),
    Object(serde_json::Map<String, serde_json::Value>),
}

/// What the items hold.
spec fn value_items(items: Seq<serde_json::Value>) -> Seq<JsonView> {
    items.map_values(|v: serde_json::Value| value_json(v))
}

/// The map that the fields make.
spec fn value_fields(fields: Seq<(String, serde_json::Value)>) -> Map<Seq<char>, JsonView>
    decreases fields.len(),
{
    if fields.len() == 0 {
        Map::empty()
    } else {
        value_fields(fields.drop_last()).insert(fields.last().0@, value_json(fields.last().1))
    }
}

/// The map without a field.
spec fn no_fields() -> Map<Seq<char>, JsonView> {
    Map::empty()
}

/// Whether no two fields have one name.
spec fn distinct_names(fields: Seq<(String, serde_json::Value)>) -> bool {
    forall|i: int, j: int|
        0 <= i < j < fields.len() ==> (#[trigger] fields[i]).0@ != (#[trigger] fields[j]).0@
}

/// What a value of this shape holds.
spec fn shape_json(s: Shape) -> JsonView {
    match s {
        Shape::Null => JsonView::Null,
        Shape::Bool(b) => JsonView::Bool(b),
        Shape::Int(i) => JsonView::Int(i),
        Shape::Number(n) => JsonView::Number(n),
        Shape::Str(s) => JsonView::Str(s@),
        Shape::Array(items) => JsonView::Array(value_items(items@)),
        Shape::Object(fields) => JsonView::Object(map_json(fields)),
    }
}

/// An object with one field, a string.
pub open spec fn one_string(name: Seq<char>, value: Seq<char>) -> JsonView {
    JsonView::Object(Map::<Seq<char>, JsonView>::empty().insert(name, JsonView::Str(value)))
}

/// How deeply arrays and objects may be nested in what is sure to read back.
pub const NESTING: usize = 100;

/// Whether `serde_json` may read more into a field's name than a name: the ones that it
/// reserves begin with `$`.
pub open spec fn reserved(name: Seq<char>) -> bool {
    name.len() > 0 && name[0] == '$'
}

/// Whether a value has no number beyond `i64` and no reserved name in it and is nested
/// no deeper than `depth`.
pub open spec fn plain(v: JsonView, depth: nat) -> bool
    decreases depth,
{
    match v {
        JsonView::Number(_) => false,
        JsonView::Array(items) => depth > 0 && forall|i: int|
            0 <= i < items.len() ==> plain(#[trigger] items[i], (depth - 1) as nat),
        JsonView::Object(fields) => depth > 0 && forall|name: Seq<char>| #[trigger]
            fields.contains_key(name) ==> !reserved(name) && plain(
            fields[name],
            (depth - 1) as nat,
        ),
        _ => true,
    }
}

/// Whether `s` is made of ASCII letters and digits.
pub open spec fn alphanumeric(s: Seq<char>) -> bool {
    forall|i: int| 0 <= i < s.len() ==> ascii_alphanumeric(#[trigger] s[i])
}

/// Whether `c` is an ASCII letter or digit.
pub open spec fn ascii_alphanumeric(c: char) -> bool {
    'a' <= c <= 'z' || 'A' <= c <= 'Z' || '0' <= c <= '9'
}

/// What an object with a single string field is printed as, where the field's name
/// and text are letters and digits.
pub open spec fn short_form(v: JsonView, text: Seq<char>) -> bool {
    forall|name: Seq<char>, value: Seq<char>|
        v == #[trigger] one_string(name, value) && alphanumeric(name) && alphanumeric(value)
            ==> text == one_string_text(name, value)
}

/// An object with a single string field, in its compact text.
pub open spec fn one_string_text(name: Seq<char>, value: Seq<char>) -> Seq<char> {
    seq!['{', '"'] + name + seq!['"', ':', '"'] + value + seq!['"', '}']
}

/// Whether `text` is JSON for `v`.
pub open spec fn reads_as(text: Seq<char>, v: JsonView) -> bool {
    json_parsed(text) == Ok::<JsonView, Seq<char>>(v)
}

/// Reads a text with `serde_json::from_str`. The value, or the text of the error,
/// is what [`json_parsed`] names.
#[verifier::external_body]
fn value_from_str(text: &str) -> (r: Result<serde_json::Value, String>)
    ensures
        json_parsed(text@) == (match r {
            Ok(v) => Ok(value_json(v)),
            Err(message) => Err(message@),
        }),
{
    serde_json::from_str::<serde_json::Value>(text).map_err(|e| e.to_string())
}

/// Takes a `serde_json::Value` apart, a variant for a variant; a number is an
/// integer where `Number::as_i64` gives one. The piece holds what the value holds.
#[verifier::external_body]
fn open_value(v: serde_json::Value) -> (s: Shape)
    ensures
        shape_json(s) == value_json(v),
{
    match v {
        serde_json::Value::Null => Shape::Null,
        serde_json::Value::Bool(b) => Shape::Bool(b),
        serde_json::Value::Number(number) => match number.as_i64() {
            Some(i) => Shape::Int(i),
            None => Shape::Number(WideNumber { number }),
        },
        serde_json::Value::String(s) => Shape::Str(s),
        serde_json::Value::Array(items) => Shape::Array(items),
        serde_json::Value::Object(fields) => Shape::Object(fields),
    }
}

/// Puts a `serde_json::Value` together, a variant for a variant. The value holds
/// what the piece holds.
#[verifier::external_body]
fn seal_value(s: Shape) -> (v: serde_json::Value)
    ensures
        value_json(v) == shape_json(s),
{
    match s {
        Shape::Null => serde_json::Value::Null,
        Shape::Bool(b) => serde_json::Value::Bool(b),
        Shape::Int(i) => serde_json::Value::from(i),
        Shape::Number(n) => serde_json::Value::Number(n.number),
        Shape::Str(s) => serde_json::Value::String(s),
        Shape::Array(items) => serde_json::Value::Array(items),
        Shape::Object(fields) => serde_json::Value::Object(fields),
    }
}

/// Calls `serde_json::Map::into_iter`: every key comes out once, with its value.
#[verifier::external_body]
fn map_fields(m: serde_json::Map<String, serde_json::Value>) -> (fields: Vec<
    (String, serde_json::Value),
>)
    ensures
        value_fields(fields@) == map_json(m),
        distinct_names(fields@),
{
    m.into_iter().collect()
}

/// Calls `serde_json::Map::new`: the map is empty.
#[verifier::external_body]
fn empty_map() -> (m: serde_json::Map<String, serde_json::Value>)
    ensures
        map_json(m) == no_fields(),
{
    serde_json::Map::new()
}

/// Calls `serde_json::Map::insert`: the key gets the value, in place of one that it
/// had.
#[verifier::external_body]
fn insert_field(
    m: &mut serde_json::Map<String, serde_json::Value>,
    name: String,
    value: serde_json::Value,
)
    ensures
        map_json(*final(m)) == map_json(*old(m)).insert(name@, value_json(value)),
{
    m.insert(name, value);
}

/// Prints a value with `Value`'s `to_string`: the compact text that [`json_text`]
/// names. An object with a single string field is printed as that field alone. Where
/// no number goes beyond `i64`, no name begins with `$` and nothing is nested too
/// deeply, the text reads back as the value.
#[verifier::external_body]
fn value_to_string(v: &serde_json::Value) -> (text: String)
    ensures
        text@ == json_text(value_json(*v)),
        short_form(value_json(*v), text@),
        plain(value_json(*v), NESTING as nat) ==> reads_as(text@, value_json(*v)),
{
    v.to_string()
}

/// Prints a value with `serde_json::to_string_pretty`: the text that
/// [`json_pretty`] names. Printing a `Value` does not fail. Where no number goes
/// beyond `i64`, no name begins with `$` and nothing is nested too deeply, the text
/// reads back as the value.
#[verifier::external_body]
fn value_to_string_pretty(v: &serde_json::Value) -> (text: String)
    ensures
        text@ == json_pretty(value_json(*v)),
        plain(value_json(*v), NESTING as nat) ==> reads_as(text@, value_json(*v)),
{
    serde_json::to_string_pretty(v).unwrap_or_default()
}

/// Each of several fields with distinct names is in the map that they make.
proof fn lemma_value_fields_hold(fields: Seq<(String, serde_json::Value)>, i: int)
    requires
        distinct_names(fields),
        0 <= i < fields.len(),
    ensures
        value_fields(fields).contains_key(fields[i].0@),
        value_fields(fields)[fields[i].0@] == value_json(fields[i].1),
    decreases fields.len(),
{
    let init = fields.drop_last();
    if i < fields.len() - 1 {
        assert(init[i] == fields[i]);
        assert forall|a: int, b: int| 0 <= a < b < init.len() implies (#[trigger] init[a]).0@ != (
        #[trigger] init[b]).0@ by {
            assert(init[a] == fields[a] && init[b] == fields[b]);
        }
        lemma_value_fields_hold(init, i);
        assert(fields[i].0@ != fields[fields.len() - 1].0@);
    }
}

pub proof fn lemma_item_is_smaller(items: Seq<JsonView>, i: int)
    requires
        0 <= i < items.len(),
    ensures
        decreases_to!(JsonView::Array(items) => items[i]),
{
    let whole = JsonView::Array(items);
    assert(decreases_to!(whole => whole->Array_0));
    assert(decreases_to!(whole->Array_0 => (whole->Array_0)[i]));
}

pub proof fn lemma_field_is_smaller(fields: Map<Seq<char>, JsonView>, name: Seq<char>)
    requires
        fields.contains_key(name),
    ensures
        decreases_to!(JsonView::Object(fields) => fields[name]),
{
    let whole = JsonView::Object(fields);
    assert(decreases_to!(whole => (whole->Object_0)[name]));
}

/// The tree of a `serde_json::Value`.
fn json_of(v: serde_json::Value) -> (j: Json)
    ensures
        j@ == value_json(v),
    decreases value_json(v),
{
    let ghost whole = value_json(v);
    match open_value(v) {
        Shape::Null => Json::Null,
        Shape::Bool(b) => Json::Bool(b),
        Shape::Int(i) => Json::Int(i),
        Shape::Number(n) => Json::Number(n),
        Shape::Str(s) => Json::Str(s),
        Shape::Array(items) => {
            let ghost all = items@;
            let mut list: Vec<Json> = Vec::new();
            for item in it: items
                invariant
                    it.seq() == all,
                    whole == JsonView::Array(value_items(all)),
                    whole == value_json(v),
                    items_view(list@) == value_items(all).take(it.index() as int),
            {
                assert(value_items(all)[it.index() as int] == value_json(item));
                proof {
                    lemma_item_is_smaller(value_items(all), it.index() as int);
                }
                let ghost before = list@;
                list.push(json_of(item));
                assert(items_view(list@) =~= items_view(before).push(value_json(item)));
                assert(items_view(list@) =~= value_items(all).take(it.index() + 1));
            }
            assert(items_view(list@) =~= value_items(all));
            Json::Array(list)
        },
        Shape::Object(map) => {
            let fields = map_fields(map);
            let ghost all = fields@;
            let mut list: Vec<(String, Json)> = Vec::new();
            for field in it: fields
                invariant
                    it.seq() == all,
                    whole == JsonView::Object(value_fields(all)),
                    whole == value_json(v),
                    distinct_names(all),
                    fields_view(list@) == value_fields(all.take(it.index() as int)),
            {
                proof {
                    lemma_value_fields_hold(all, it.index() as int);
                    lemma_field_is_smaller(value_fields(all), field.0@);
                    assert(all.take(it.index() + 1).drop_last() =~= all.take(it.index() as int));
                }
                let ghost before = list@;
                let (name, value) = field;
                list.push((name, json_of(value)));
                assert(list@.drop_last() =~= before);
            }
            assert(all.take(all.len() as int) =~= all);
            Json::Object(list)
        },
    }
}

/// The `serde_json::Value` of a tree.
fn value_of(j: Json) -> (v: serde_json::Value)
    ensures
        value_json(v) == j@,
    decreases j,
{
    match j {
        Json::Null => seal_value(Shape::Null),
        Json::Bool(b) => seal_value(Shape::Bool(b)),
        Json::Int(i) => seal_value(Shape::Int(i)),
        Json::Number(n) => seal_value(Shape::Number(n)),
        Json::Str(s) => seal_value(Shape::Str(s)),
        Json::Array(items) => {
            let ghost all = items@;
            let mut list: Vec<serde_json::Value> = Vec::new();
            for item in it: items
                invariant
                    it.seq() == all,
                    j == Json::Array(items),
                    all == items@,
                    value_items(list@) == items_view(all).take(it.index() as int),
            {
                assert(decreases_to!(j => j->Array_0));
                assert(decreases_to!(j->Array_0 => (j->Array_0)@));
                assert(decreases_to!((j->Array_0)@ => (j->Array_0)@[it.index() as int]));
                assert(items_view(all)[it.index() as int] == json_view(item));
                let ghost before = list@;
                list.push(value_of(item));
                assert(value_items(list@) =~= value_items(before).push(json_view(item)));
                assert(value_items(list@) =~= items_view(all).take(it.index() + 1));
            }
            assert(value_items(list@) =~= items_view(all));
            seal_value(Shape::Array(list))
        },
        Json::Object(fields) => {
            let ghost all = fields@;
            let mut map = empty_map();
            for field in it: fields
                invariant
                    it.seq() == all,
                    j == Json::Object(fields),
                    all == fields@,
                    map_json(map) == fields_view(all.take(it.index() as int)),
            {
                proof {
                    assert(decreases_to!(j => j->Object_0));
                    assert(decreases_to!(j->Object_0 => (j->Object_0)@));
                    assert(decreases_to!((j->Object_0)@ => (j->Object_0)@[it.index() as int]));
                    assert(decreases_to!(field => field.1));
                    assert(all.take(it.index() + 1).drop_last() =~= all.take(it.index() as int));
                }
                let (name, value) = field;
                insert_field(&mut map, name, value_of(value));
            }
            assert(all.take(all.len() as int) =~= all);
            seal_value(Shape::Object(map))
        },
    }
}

/// A value that was read, or why none was.
pub open spec fn result_view(r: Result<Json, String>) -> Result<JsonView, Seq<char>> {
    match r {
        Ok(j) => Ok(j@),
        Err(message) => Err(message@),
    }
}

/// What a text holds, read as JSON, or why it is none.
pub fn parse_json(text: &str) -> (r: Result<Json, String>)
    ensures
        result_view(r) == json_parsed(text@),
{
    match value_from_str(text) {
        Ok(v) => Ok(json_of(v)),
        Err(message) => Err(message),
    }
}

/// The compact text of a value.
pub fn compact(j: Json) -> (text: String)
    ensures
        text@ == json_text(j@),
        short_form(j@, text@),
        plain(j@, NESTING as nat) ==> reads_as(text@, j@),
{
    value_to_string(&value_of(j))
}

/// The indented text of a value.
pub fn pretty(j: Json) -> (text: String)
    ensures
        text@ == json_pretty(j@),
        plain(j@, NESTING as nat) ==> reads_as(text@, j@),
{
    value_to_string_pretty(&value_of(j))
}

/// The fields, and after them the field `name`.
pub fn with_field(fields: Vec<(String, Json)>, name: &str, value: Json) -> (more: Vec<
    (String, Json),
>)
    ensures
        fields_view(more@) == fields_view(fields@).insert(name@, value@),
{
    let mut more = fields;
    more.push((name.to_string(), value));
    assert(more@.drop_last() =~= fields@);
    more
}

/// The fields, and after them the string field `name`.
pub fn with_text(fields: Vec<(String, Json)>, name: &str, text: &str) -> (more: Vec<
    (String, Json),
>)
    ensures
        fields_view(more@) == fields_view(fields@).insert(name@, JsonView::Str(text@)),
{
    with_field(fields, name, Json::Str(text.to_string()))
}

impl JsonView {
    /// The field `name` of an object.
    pub open spec fn field(self, name: Seq<char>) -> Option<JsonView> {
        match self {
            JsonView::Object(fields) => if fields.contains_key(name) {
                Some(fields[name])
            } else {
                None
            },
            _ => None,
        }
    }

    /// The text of a string.
    pub open spec fn text(self) -> Option<Seq<char>> {
        match self {
            JsonView::Str(s) => Some(s),
            _ => None,
        }
    }

    /// The items of an array.
    pub open spec fn items(self) -> Option<Seq<JsonView>> {
        match self {
            JsonView::Array(items) => Some(items),
            _ => None,
        }
    }

    /// The integer that a number is, or that a string holds between blanks.
    pub open spec fn integer(self) -> Option<int> {
        match self {
            JsonView::Int(i) => Some(i as int),
            JsonView::Str(s) => crate::number::number_within(
                crate::text::trimmed(s),
                i64::MIN as int,
                i64::MAX as int,
            ),
            _ => None,
        }
    }

    /// The text of the field `name`, or the empty text.
    pub open spec fn field_text(self, name: Seq<char>) -> Seq<char> {
        match self.field(name) {
            Some(JsonView::Str(s)) => s,
            _ => Seq::empty(),
        }
    }

    /// The integer in the field `name`, or zero.
    pub open spec fn field_integer(self, name: Seq<char>) -> int {
        match self.field(name) {
            Some(v) => match v.integer() {
                Some(i) => i,
                None => 0,
            },
            None => 0,
        }
    }

    /// Whether the field `name` is `true`.
    pub open spec fn field_true(self, name: Seq<char>) -> bool {
        self.field(name) == Some(JsonView::Bool(true))
    }

    /// The items of the array in the field `name`.
    pub open spec fn field_items(self, name: Seq<char>) -> Option<Seq<JsonView>> {
        match self.field(name) {
            Some(v) => v.items(),
            None => None,
        }
    }
}

/// Numeric fields arrive either as JSON numbers or as quoted strings. Accepts
/// both.
pub fn as_i64(v: &Json) -> (n: Option<i64>)
    ensures
        n == (match v@.integer() {
            Some(i) => Some(i as i64),
            None => None,
        }),
{
    match v {
        Json::Int(i) => Some(*i),
        Json::Str(s) => parse_i64(trim(s.as_str())),
        _ => None,
    }
}

impl Json {
    /// The field `name` of an object.
    pub fn get(&self, name: &str) -> (found: Option<&Json>)
        ensures
            self@.field(name@) == (match found {
                Some(v) => Some(v@),
                None => None,
            }),
    {
        match self {
            Json::Object(fields) => {
                let mut i: usize = fields.len();
                assert(fields@.take(i as int) =~= fields@);
                while i > 0
                    invariant
                        *self == Json::Object(*fields),
                        i <= fields@.len(),
                        fields_view(fields@).contains_key(name@) == fields_view(
                            fields@.take(i as int),
                        ).contains_key(name@),
                        fields_view(fields@)[name@] == fields_view(fields@.take(i as int))[name@],
                    decreases i,
                {
                    assert(fields@.take(i as int).drop_last() =~= fields@.take(i - 1));
                    i = i - 1;
                    if same_text(fields[i].0.as_str(), name) {
                        return Some(&fields[i].1);
                    }
                }
                None
            },
            _ => None,
        }
    }

    /// The text of a string.
    pub fn as_str(&self) -> (text: Option<&str>)
        ensures
            self@.text() == (match text {
                Some(s) => Some(s@),
                None => None,
            }),
    {
        match self {
            Json::Str(s) => Some(s.as_str()),
            _ => None,
        }
    }

    /// The items of an array.
    pub fn as_array(&self) -> (items: Option<&Vec<Json>>)
        ensures
            self@.items() == (match items {
                Some(items) => Some(items_view(items@)),
                None => None,
            }),
    {
        match self {
            Json::Array(items) => Some(items),
            _ => None,
        }
    }

    /// The text of the field `name`, or the empty text.
    pub fn text_of(&self, name: &str) -> (text: String)
        ensures
            text@ == self@.field_text(name@),
    {
        match self.get(name) {
            Some(Json::Str(s)) => s.clone(),
            _ => String::new(),
        }
    }

    /// The integer in the field `name`, or zero.
    pub fn integer_of(&self, name: &str) -> (n: i64)
        ensures
            n == self@.field_integer(name@),
    {
        match self.get(name) {
            Some(v) => match as_i64(v) {
                Some(i) => i,
                None => 0,
            },
            None => 0,
        }
    }

    /// Whether the field `name` is `true`.
    pub fn is_true(&self, name: &str) -> (yes: bool)
        ensures
            yes == self@.field_true(name@),
    {
        match self.get(name) {
            Some(Json::Bool(b)) => *b,
            _ => false,
        }
    }

    /// The items of the array in the field `name`.
    pub fn items_of(&self, name: &str) -> (items: Option<&Vec<Json>>)
        ensures
            self@.field_items(name@) == (match items {
                Some(items) => Some(items_view(items@)),
                None => None,
            }),
    {
        match self.get(name) {
            Some(v) => v.as_array(),
            None => None,
        }
    }
}

/// A number means the same quoted or not.
pub proof fn law_quoted_integer_is_the_integer(n: i64)
    ensures
        JsonView::Str(crate::number::decimal(n as int)).integer() == Some(n as int),
        JsonView::Int(n).integer() == Some(n as int),
{
    crate::number::law_decimal_reads_back(n as int);
    crate::number::lemma_decimal_is_trimmed(n as int);
}

/// A field that an object was given has the value that it was given, and the fields of
/// other names are as before.
pub proof fn law_fields_are_found_by_name(
    fields: Map<Seq<char>, JsonView>,
    name: Seq<char>,
    value: JsonView,
    other: Seq<char>,
)
    ensures
        JsonView::Object(fields.insert(name, value)).field(name) == Some(value),
        other != name ==> JsonView::Object(fields.insert(name, value)).field(other)
            == JsonView::Object(fields).field(other),
        JsonView::Object(Map::empty()).field(name) is None,
{
}

/// Only objects have fields.
pub proof fn law_only_objects_have_fields(v: JsonView, name: Seq<char>)
    requires
        !(v is Object),
    ensures
        v.field(name) is None,
        v.field_text(name).len() == 0,
        v.field_integer(name) == 0,
        !v.field_true(name),
        v.field_items(name) is None,
{
}

/// A value is an integer exactly where it is a number of 64 bits, or a string that holds
/// one between blanks.
pub proof fn law_integers_are_numbers_or_quoted(v: JsonView)
    ensures
        v.integer() == match v {
            JsonView::Int(n) => Some(n as int),
            JsonView::Str(s) => crate::number::number_within(
                crate::text::trimmed(s),
                i64::MIN as int,
                i64::MAX as int,
            ),
            _ => None,
        },
{
}

} // verus!
