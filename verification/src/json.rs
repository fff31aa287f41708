//! JSON values: a tree of plain values, read from text and written to it by `serde_json`.

use vstd::prelude::*;

use crate::seqs::views;
use crate::text::{opt_str, str_eq, strs};

verus! {

/// A JSON value. In an object the last of several fields with one name counts.
#[derive(Debug)]
pub enum Json {
    Null,
    Bool(bool),
    /// A whole number that is not negative.
    Unsigned(u64),
    /// Any other number; which one, nothing here depends on.
    OtherNumber,
    Text(String),
    Array(Vec<Json>),
    Object(Vec<(String, Json)>),
}

/// The model of a JSON value.
#[verifier::ext_equal]
pub enum JsonView {
    Null,
    Bool(bool),
    Unsigned(u64),
    OtherNumber,
    Text(Seq<char>),
    Array(Seq<JsonView>),
    Object(Map<Seq<char>, JsonView>),
}

/// The model of a JSON value.
pub open spec fn json_view(j: Json) -> JsonView
    decreases j, 0int,
{
    match j {
        Json::Null => JsonView::Null,
        Json::Bool(b) => JsonView::Bool(b),
        Json::Unsigned(n) => JsonView::Unsigned(n),
        Json::OtherNumber => JsonView::OtherNumber,
        Json::Text(s) => JsonView::Text(s@),
        Json::Array(items) => JsonView::Array(
            Seq::new(
                items@.len(),
                |i: int|
                    if 0 <= i < items@.len() {
                        json_view(items@[i])
                    } else {
                        JsonView::Null
                    },
            ),
        ),
        Json::Object(fields) => JsonView::Object(field_map(fields@, fields@.len() as int)),
    }
}

/// The first `n` fields of an object, by their names.
pub open spec fn field_map(fields: Seq<(String, Json)>, n: int) -> Map<Seq<char>, JsonView>
    decreases fields, n,
{
    if n <= 0 || n > fields.len() {
        Map::empty()
    } else {
        field_map(fields, n - 1).insert(fields[n - 1].0@, json_view(fields[n - 1].1))
    }
}

impl View for Json {
    type V = JsonView;

    open spec fn view(&self) -> JsonView {
        json_view(*self)
    }
}

// ---------------------------------------------------------------------------
// Reading a value
// ---------------------------------------------------------------------------
impl JsonView {
    /// The field of an object.
    pub open spec fn field(self, name: Seq<char>) -> Option<JsonView> {
        match self {
            JsonView::Object(fields) => if fields.dom().contains(name) {
                Some(fields[name])
            } else {
                None
            },
            _ => None,
        }
    }

    /// The field of an object, where it is a text.
    pub open spec fn text_field(self, name: Seq<char>) -> Option<Seq<char>> {
        match self.field(name) {
            Some(JsonView::Text(t)) => Some(t),
            _ => None,
        }
    }

    /// The field of an object, where it is a whole number.
    pub open spec fn number_field(self, name: Seq<char>) -> Option<u64> {
        match self.field(name) {
            Some(JsonView::Unsigned(n)) => Some(n),
            _ => None,
        }
    }

    /// The field of an object, where it is an array.
    pub open spec fn array_field(self, name: Seq<char>) -> Option<Seq<JsonView>> {
        match self.field(name) {
            Some(JsonView::Array(items)) => Some(items),
            _ => None,
        }
    }
}

/// Those of the first `n` values that are texts.
pub open spec fn texts_of(items: Seq<JsonView>, n: int) -> Seq<Seq<char>>
    decreases n,
{
    if n <= 0 {
        seq![]
    } else {
        match items[n - 1] {
            JsonView::Text(t) => texts_of(items, n - 1).push(t),
            _ => texts_of(items, n - 1),
        }
    }
}

proof fn lemma_field_map(fields: Seq<(String, Json)>, n: int, from: int, name: Seq<char>)
    requires
        0 <= from <= n <= fields.len(),
        forall|k: int| from <= k < n ==> (#[trigger] fields[k]).0@ != name,
    ensures
        field_map(fields, n).dom().contains(name) <==> field_map(fields, from).dom().contains(name),
        field_map(fields, n).dom().contains(name) ==> field_map(fields, n)[name] == field_map(
            fields,
            from,
        )[name],
    decreases n - from,
{
    if from < n {
        lemma_field_map(fields, n - 1, from, name);
    }
}

impl Json {
    /// The field of an object.
    pub fn get(&self, name: &str) -> (r: Option<&Json>)
        ensures
            match r {
                Some(j) => self@.field(name@) == Some(j@),
                None => self@.field(name@) is None,
            },
    {
        match self {
            Json::Object(fields) => {
                let mut n: usize = fields.len();
                while n > 0
                    invariant
                        n <= fields@.len(),
                        *self == Json::Object(*fields),
                        forall|k: int| n <= k < fields@.len() ==> (#[trigger] fields@[k]).0@ != name@,
                    decreases n,
                {
                    if str_eq(fields[n - 1].0.as_str(), name) {
                        proof {
                            lemma_field_map(fields@, fields@.len() as int, n as int, name@);
                            assert(field_map(fields@, n as int) == field_map(
                                fields@,
                                n - 1,
                            ).insert(name@, json_view(fields@[n - 1].1)));
                        }
                        return Some(&fields[n - 1].1);
                    }
                    n -= 1;
                }
                proof {
                    lemma_field_map(fields@, fields@.len() as int, 0, name@);
                }
                None
            },
            _ => None,
        }
    }

    /// The text that the value is.
    pub fn as_str(&self) -> (r: Option<&String>)
        ensures
            match r {
                Some(s) => self@ == JsonView::Text(s@),
                None => !(self@ is Text),
            },
    {
        match self {
            Json::Text(s) => Some(s),
            _ => None,
        }
    }

    /// The whole number that the value is.
    pub fn as_u64(&self) -> (r: Option<u64>)
        ensures
            match r {
                Some(n) => self@ == JsonView::Unsigned(n),
                None => !(self@ is Unsigned),
            },
    {
        match self {
            Json::Unsigned(n) => Some(*n),
            _ => None,
        }
    }

    /// The truth value that the value is.
    pub fn as_bool(&self) -> (r: Option<bool>)
        ensures
            match r {
                Some(b) => self@ == JsonView::Bool(b),
                None => !(self@ is Bool),
            },
    {
        match self {
            Json::Bool(b) => Some(*b),
            _ => None,
        }
    }

    /// The values of the array that the value is.
    pub fn as_array(&self) -> (r: Option<&Vec<Json>>)
        ensures
            match r {
                Some(items) => self@ == JsonView::Array(views(items@)),
                None => !(self@ is Array),
            },
    {
        match self {
            Json::Array(items) => {
                assert(json_view(*self)->Array_0 =~= views(items@));
                Some(items)
            },
            _ => None,
        }
    }

    /// Whether the value is an object.
    pub fn is_object(&self) -> (r: bool)
        ensures
            r == (self@ is Object),
    {
        match self {
            Json::Object(_) => true,
            _ => false,
        }
    }

    /// Whether the value is null.
    pub fn is_null(&self) -> (r: bool)
        ensures
            r == (self@ is Null),
    {
        match self {
            Json::Null => true,
            _ => false,
        }
    }

    /// The field of an object, where it is a text.
    pub fn get_str(&self, name: &str) -> (r: Option<&String>)
        ensures
            match r {
                Some(s) => self@.text_field(name@) == Some(s@),
                None => self@.text_field(name@) is None,
            },
    {
        match self.get(name) {
            Some(j) => j.as_str(),
            None => None,
        }
    }

    /// The field of an object, where it is a whole number.
    pub fn get_u64(&self, name: &str) -> (r: Option<u64>)
        ensures
            r == self@.number_field(name@),
    {
        match self.get(name) {
            Some(j) => j.as_u64(),
            None => None,
        }
    }

    /// The field of an object, where it is an array.
    pub fn get_array(&self, name: &str) -> (r: Option<&Vec<Json>>)
        ensures
            match r {
                Some(items) => self@.array_field(name@) == Some(views(items@)),
                None => self@.array_field(name@) is None,
            },
    {
        match self.get(name) {
            Some(j) => j.as_array(),
            None => None,
        }
    }
}

/// The texts among the values of an array.
pub fn strings_of(items: &Vec<Json>) -> (r: Vec<String>)
    ensures
        strs(r@) == texts_of(views(items@), items@.len() as int),
{
    let mut r: Vec<String> = Vec::new();
    let mut i: usize = 0;
    assert(strs(r@) == Seq::<Seq<char>>::empty());
    while i < items.len()
        invariant
            i <= items@.len(),
            strs(r@) == texts_of(views(items@), i as int),
        decreases items@.len() - i,
    {
        let ghost before = strs(r@);
        if let Some(s) = items[i].as_str() {
            r.push(s.clone());
            assert(strs(r@) == before.push(s@));
        }
        i += 1;
    }
    r
}

// ---------------------------------------------------------------------------
// Building a value
// ---------------------------------------------------------------------------
/// An object that is being put together.
#[derive(Debug)]
pub struct Fields {
    entries: Vec<(String, Json)>,
}

impl Fields {
    /// The fields by their names.
    pub closed spec fn map(&self) -> Map<Seq<char>, JsonView> {
        field_map(self.entries@, self.entries@.len() as int)
    }

    /// An object without fields.
    pub fn new() -> (r: Self)
        ensures
            r.map() == Map::<Seq<char>, JsonView>::empty(),
    {
        Fields { entries: Vec::new() }
    }

    /// The object with one more field.
    pub fn with(self, name: &str, value: Json) -> (r: Self)
        ensures
            r.map() == self.map().insert(name@, value@),
    {
        let mut entries = self.entries;
        let ghost before = entries@;
        entries.push((name.to_string(), value));
        proof {
            lemma_field_map_prefix(entries@, before, before.len() as int);
        }
        Fields { entries }
    }

    /// The object.
    pub fn done(self) -> (r: Json)
        ensures
            r@ == JsonView::Object(self.map()),
    {
        Json::Object(self.entries)
    }
}

proof fn lemma_field_map_prefix(a: Seq<(String, Json)>, b: Seq<(String, Json)>, n: int)
    requires
        n <= b.len() <= a.len(),
        forall|i: int| 0 <= i < n ==> #[trigger] a[i] == b[i],
    ensures
        field_map(a, n) == field_map(b, n),
    decreases n,
{
    if n > 0 {
        lemma_field_map_prefix(a, b, n - 1);
    }
}

/// A text as a JSON value.
pub fn json_string(s: &str) -> (r: Json)
    ensures
        r@ == JsonView::Text(s@),
{
    Json::Text(s.to_string())
}

/// A number as a JSON value.
pub fn json_number(n: usize) -> (r: Json)
    ensures
        r@ == JsonView::Unsigned(n as u64),
{
    Json::Unsigned(n as u64)
}

/// The model of an optional text: null where there is none.
pub open spec fn text_or_null(s: Option<Seq<char>>) -> JsonView {
    match s {
        Some(t) => JsonView::Text(t),
        None => JsonView::Null,
    }
}

/// An optional text as a JSON value: null where there is none.
pub fn optional_text(s: &Option<String>) -> (r: Json)
    ensures
        r@ == text_or_null(opt_str(*s)),
{
    match s {
        Some(t) => Json::Text(t.clone()),
        None => Json::Null,
    }
}

/// The model of an optional number: null where there is none.
pub open spec fn number_or_null(n: Option<usize>) -> JsonView {
    match n {
        Some(k) => JsonView::Unsigned(k as u64),
        None => JsonView::Null,
    }
}

/// An optional number as a JSON value: null where there is none.
pub fn optional_number(n: Option<usize>) -> (r: Json)
    ensures
        r@ == number_or_null(n),
{
    match n {
        Some(k) => Json::Unsigned(k as u64),
        None => Json::Null,
    }
}

/// The model of a range: an array of its two ends.
pub open spec fn range_view(range: (usize, usize)) -> JsonView {
    JsonView::Array(
        seq![JsonView::Unsigned(range.0 as u64), JsonView::Unsigned(range.1 as u64)],
    )
}

/// A range as a JSON value: an array of its two ends.
pub fn json_range(ends: (usize, usize)) -> (r: Json)
    ensures
        r@ == range_view(ends),
{
    let mut items: Vec<Json> = Vec::new();
    items.push(json_number(ends.0));
    items.push(json_number(ends.1));
    assert(views(items@) =~= range_view(ends)->Array_0);
    json_array(items)
}

/// An array as a JSON value.
pub fn json_array(items: Vec<Json>) -> (r: Json)
    ensures
        r@ == JsonView::Array(views(items@)),
{
    let ghost all = views(items@);
    let r = Json::Array(items);
    assert(json_view(r)->Array_0 =~= all);
    r
}

/// The model of an optional range: null where there is none.
pub open spec fn range_or_null(r: Option<(usize, usize)>) -> JsonView {
    match r {
        Some(range) => range_view(range),
        None => JsonView::Null,
    }
}

/// An optional range as a JSON value: null where there is none.
pub fn optional_range(given: Option<(usize, usize)>) -> (r: Json)
    ensures
        r@ == range_or_null(given),
{
    match given {
        Some(ends) => json_range(ends),
        None => Json::Null,
    }
}

/// The model of a list of texts.
pub open spec fn texts_view(texts: Seq<Seq<char>>) -> JsonView {
    JsonView::Array(Seq::new(texts.len(), |i: int| JsonView::Text(texts[i])))
}

/// A list of texts as a JSON value.
pub fn json_strings(list: &Vec<String>) -> (r: Json)
    ensures
        r@ == texts_view(strs(list@)),
{
    let mut items: Vec<Json> = Vec::new();
    let mut i: usize = 0;
    while i < list.len()
        invariant
            i <= list@.len(),
            items@.len() == i,
            forall|k: int| 0 <= k < i ==> (#[trigger] items@[k])@ == JsonView::Text(list@[k]@),
        decreases list@.len() - i,
    {
        items.push(json_string(list[i].as_str()));
        i += 1;
    }
    let ghost all = views(items@);
    assert(all =~= texts_view(strs(list@))->Array_0);
    json_array(items)
}

// ---------------------------------------------------------------------------
// Text
// ---------------------------------------------------------------------------
/// A value of `serde_json`.
#[verifier::external_type_specification]
#[verifier::external_body]
pub struct ExValue(serde_json::Value);

/// An error of `serde_json`.
#[verifier::external_type_specification]
#[verifier::external_body]
pub struct ExJsonError(serde_json::Error);

/// What a value of `serde_json` holds.
pub uninterp spec fn contents(v: serde_json::Value) -> JsonView;

/// What `serde_json::from_str` reads from a text, where it is the text of a value.
pub uninterp spec fn parsed(text: Seq<char>) -> Option<JsonView>;

/// The text that `Display` of `serde_json::Value` gives for a value.
pub uninterp spec fn json_text(value: JsonView) -> Seq<char>;

/// The text that `serde_json::to_string_pretty` gives for a value.
pub uninterp spec fn pretty_json_text(value: JsonView) -> Seq<char>;

/// A value in which every number is a whole number that is not negative, and in which
/// arrays and objects are nested no more than `levels` deep.
pub open spec fn plain(j: JsonView, levels: nat) -> bool
    decreases levels,
{
    match j {
        JsonView::OtherNumber => false,
        JsonView::Array(items) => levels > 0 && forall|i: int|
            0 <= i < items.len() ==> plain(#[trigger] items[i], (levels - 1) as nat),
        JsonView::Object(fields) => levels > 0 && forall|k: Seq<char>|
            fields.dom().contains(k) ==> plain(#[trigger] fields[k], (levels - 1) as nat),
        _ => true,
    }
}

/// A value that can be written out as a text and read back from it: one with whole numbers
/// only, and nested no deeper than `serde_json` reads.
pub open spec fn writable(j: JsonView) -> bool {
    plain(j, 127)
}

/// Fields with plain values.
pub open spec fn plain_fields(fields: Map<Seq<char>, JsonView>, levels: nat) -> bool {
    forall|k: Seq<char>| fields.dom().contains(k) ==> plain(#[trigger] fields[k], levels)
}

/// An object is plain where its fields are.
pub broadcast proof fn object_of_plain_fields(fields: Map<Seq<char>, JsonView>, levels: nat)
    requires
        levels > 0,
        plain_fields(fields, (levels - 1) as nat),
    ensures
        #[trigger] plain(JsonView::Object(fields), levels),
{
}

/// Fields stay plain when a field with a plain value is added.
pub broadcast proof fn plain_fields_with_one_more(
    fields: Map<Seq<char>, JsonView>,
    name: Seq<char>,
    value: JsonView,
    levels: nat,
)
    requires
        plain_fields(fields, levels),
        plain(value, levels),
    ensures
        #[trigger] plain_fields(fields.insert(name, value), levels),
{
    let more = fields.insert(name, value);
    assert forall|k: Seq<char>| more.dom().contains(k) implies plain(#[trigger] more[k], levels) by {
        if k != name {
            assert(more[k] == fields[k]);
        }
    }
}

/// No fields are plain fields.
pub broadcast proof fn no_fields_are_plain(levels: nat)
    ensures
        #[trigger] plain_fields(Map::<Seq<char>, JsonView>::empty(), levels),
{
}

/// What makes objects plain.
pub broadcast group group_plain_fields {
    object_of_plain_fields,
    plain_fields_with_one_more,
    no_fields_are_plain,
}

/// The values of an array are plain where the array is, one level deeper.
pub proof fn plain_array_has_plain_items(items: Seq<JsonView>, levels: nat)
    requires
        plain(JsonView::Array(items), levels),
    ensures
        levels > 0,
        forall|i: int|
            0 <= i < items.len() ==> plain(#[trigger] items[i], (levels - 1) as nat),
{
    let j = JsonView::Array(items);
    assert(plain(j, levels));
    assert forall|i: int| 0 <= i < items.len() implies plain(
        #[trigger] items[i],
        (levels - 1) as nat,
    ) by {
        assert(j->Array_0[i] == items[i]);
    }
}

/// Ranges and lists of texts are plain.
pub proof fn ranges_and_texts_are_plain(
    range: Option<(usize, usize)>,
    ends: (usize, usize),
    list: Seq<Seq<char>>,
    levels: nat,
)
    requires
        levels > 0,
    ensures
        plain(range_or_null(range), levels),
        plain(range_view(ends), levels),
        plain(texts_view(list), levels),
{
    reveal_with_fuel(plain, 2);
}

/// Calls `serde_json::from_str` for a `serde_json::Value`. What it reads, and whether the
/// text is that of a value at all, depends on the text alone.
#[verifier::external_body]
fn read_value(text: &str) -> (r: Result<serde_json::Value, serde_json::Error>)
    ensures
        match r {
            Ok(v) => parsed(text@) == Some(contents(v)),
            Err(_) => parsed(text@) is None,
        },
{
    serde_json::from_str::<serde_json::Value>(text)
}

/// Takes a `serde_json::Value` apart: by its variants, `Number::as_u64`, and the values of
/// its arrays and maps. The result is what the value holds.
#[verifier::external_body]
fn tree_of(v: &serde_json::Value) -> (r: Json)
    ensures
        r@ == contents(*v),
{
    match v {
        serde_json::Value::Null => Json::Null,
        serde_json::Value::Bool(b) => Json::Bool(*b),
        serde_json::Value::Number(n) => n.as_u64().map_or(Json::OtherNumber, Json::Unsigned),
        serde_json::Value::String(s) => Json::Text(s.clone()),
        serde_json::Value::Array(items) => Json::Array(items.iter().map(tree_of).collect()),
        serde_json::Value::Object(fields) => Json::Object(
            fields.iter().map(|(k, x)| (k.clone(), tree_of(x))).collect(),
        ),
    }
}

/// Puts a `serde_json::Value` together, which holds what the tree does. Of fields with one
/// name the map of `serde_json` keeps the last.
#[verifier::external_body]
fn value_from(j: &Json) -> (r: serde_json::Value)
    requires
        writable(j@),
    ensures
        contents(r) == j@,
{
    match j {
        Json::Null | Json::OtherNumber => serde_json::Value::Null,
        Json::Bool(b) => serde_json::Value::Bool(*b),
        Json::Unsigned(n) => serde_json::Value::from(*n),
        Json::Text(s) => serde_json::Value::String(s.clone()),
        Json::Array(items) => serde_json::Value::Array(items.iter().map(value_from).collect()),
        Json::Object(fields) => serde_json::Value::Object(
            fields.iter().map(|(k, x)| (k.clone(), value_from(x))).collect(),
        ),
    }
}

/// Calls `to_string` of a `serde_json::Value`, that is its `Display`. The text depends on
/// what the value holds alone, and `serde_json::from_str` reads the same from it. What it is
/// for a number that is negative or not whole is left open, and so is what is read where
/// the value is nested deeper than the 127 levels that `serde_json` reads.
#[verifier::external_body]
fn value_text(v: &serde_json::Value) -> (r: String)
    ensures
        writable(contents(*v)) ==> r@ == json_text(contents(*v)) && parsed(r@) == Some(
            contents(*v),
        ),
{
    v.to_string()
}

/// Calls `serde_json::to_string_pretty` for a `serde_json::Value`, which succeeds, as every
/// value can be written. The text depends on what the value holds alone, and
/// `serde_json::from_str` reads the same from it. As with `value_text`, nothing is said of
/// values with other numbers, or nested deeper than `serde_json` reads.
#[verifier::external_body]
fn pretty_value_text(v: &serde_json::Value) -> (r: Result<String, serde_json::Error>)
    ensures
        r is Ok,
        writable(contents(*v)) ==> r->Ok_0@ == pretty_json_text(contents(*v)) && parsed(
            r->Ok_0@,
        ) == Some(contents(*v)),
{
    serde_json::to_string_pretty(v)
}

/// The value that a text stands for.
pub fn parse_json(text: &str) -> (r: Option<Json>)
    ensures
        match r {
            Some(j) => parsed(text@) == Some(j@),
            None => parsed(text@) is None,
        },
{
    match read_value(text) {
        Ok(v) => Some(tree_of(&v)),
        Err(_) => None,
    }
}

/// The text of a value, from which the value can be read again.
pub fn print_json(j: &Json) -> (r: String)
    requires
        writable(j@),
    ensures
        r@ == json_text(j@),
        parsed(r@) == Some(j@),
{
    value_text(&value_from(j))
}

/// What a value of `serde_json` holds.
pub fn json_of_value(v: &serde_json::Value) -> (r: Json)
    ensures
        r@ == contents(*v),
{
    tree_of(v)
}

/// The text of a value of `serde_json`, on one line or spread over several, from which the
/// value can be read again. What it is for a value with a number that is negative or not
/// whole is left open.
pub fn json_output(v: &serde_json::Value, pretty: bool) -> (r: String)
    ensures
        writable(contents(*v)) ==> r@ == (if pretty {
            pretty_json_text(contents(*v))
        } else {
            json_text(contents(*v))
        }) && parsed(r@) == Some(contents(*v)),
{
    if pretty {
        pretty_value_text(v).unwrap()
    } else {
        value_text(v)
    }
}

/// A field is found by its name, in an object alone, and putting one field in leaves the others
/// as they are.
pub proof fn fields_are_found_by_name(
    fields: Map<Seq<char>, JsonView>,
    name: Seq<char>,
    value: JsonView,
    other: Seq<char>,
)
    ensures
        ({
            let object = JsonView::Object(fields.insert(name, value));
            &&& object.field(name) == Some(value)
            &&& other != name ==> object.field(other) == JsonView::Object(fields).field(other)
            &&& JsonView::Object(Map::empty()).field(name) is None
            &&& !(value is Object) ==> value.field(name) is None
            &&& value is Text <==> object.text_field(name) == Some(value->Text_0)
            &&& value is Unsigned <==> object.number_field(name) == Some(value->Unsigned_0)
            &&& value is Array <==> object.array_field(name) == Some(value->Array_0)
            &&& !(value is Text) ==> object.text_field(name) is None
            &&& !(value is Unsigned) ==> object.number_field(name) is None
            &&& !(value is Array) ==> object.array_field(name) is None
        }),
{
}

/// What there is to say of a value is said by a value of its kind, and null stands for what
/// there is not.
pub proof fn values_are_said_by_their_kind(
    text: Seq<char>,
    n: usize,
    ends: (usize, usize),
    texts: Seq<Seq<char>>,
)
    ensures
        text_or_null(None) is Null && number_or_null(None) is Null && range_or_null(None) is Null,
        text_or_null(Some(text)) == JsonView::Text(text),
        number_or_null(Some(n)) == JsonView::Unsigned(n as u64),
        range_or_null(Some(ends)) matches JsonView::Array(items) && items.len() == 2 && items[0]
            == JsonView::Unsigned(ends.0 as u64) && items[1] == JsonView::Unsigned(ends.1 as u64),
        texts_view(texts) matches JsonView::Array(items) && items.len() == texts.len()
            && texts_of(items, items.len() as int) == texts,
{
    lemma_texts_are_read_back(texts, texts.len() as int);
    assert(texts.take(texts.len() as int) =~= texts);
}

proof fn lemma_texts_are_read_back(texts: Seq<Seq<char>>, n: int)
    requires
        0 <= n <= texts.len(),
    ensures
        texts_of(texts_view(texts)->Array_0, n) == texts.take(n),
    decreases n,
{
    if n > 0 {
        lemma_texts_are_read_back(texts, n - 1);
        assert(texts.take(n) =~= texts.take(n - 1).push(texts[n - 1]));
    } else {
        assert(texts.take(0) =~= seq![]);
    }
}

} // verus!
