//! JSON values as the library reads them.

use crate::number::decimal;
use crate::text::{opt_str, opt_text, str_eq};
use vstd::prelude::*;

verus! {

/// What a JSON value holds. A number is `Unsigned` where it is a whole number of
/// at most 64 bits and `Number`, by its text, otherwise.
pub enum JsonView {
    Null,
    Bool(bool),
    Unsigned(u64),
    Number(Seq<char>),
    Text(Seq<char>),
    List(Seq<JsonView>),
    Object(Seq<(Seq<char>, JsonView)>),
}

/// A JSON value. An object holds its entries in the order of its map.
#[derive(Debug)]
pub enum Json {
    Null,
    Bool(bool),
    Unsigned(u64),
    Number(String),
    Text(String),
    List(Vec<Json>),
    Object(Vec<(String, Json)>),
}

impl JsonView {
    /// The value of the first entry under `key`.
    pub open spec fn at(self, key: Seq<char>) -> Option<JsonView> {
        match self {
            JsonView::Object(entries) => first_at(entries, key),
            _ => None,
        }
    }

    pub open spec fn text(self) -> Option<Seq<char>> {
        match self {
            JsonView::Text(t) => Some(t),
            _ => None,
        }
    }

    pub open spec fn truth(self) -> Option<bool> {
        match self {
            JsonView::Bool(b) => Some(b),
            _ => None,
        }
    }

    pub open spec fn unsigned(self) -> Option<u64> {
        match self {
            JsonView::Unsigned(n) => Some(n),
            _ => None,
        }
    }

    pub open spec fn items(self) -> Option<Seq<JsonView>> {
        match self {
            JsonView::List(v) => Some(v),
            _ => None,
        }
    }

    /// The text under `key`.
    pub open spec fn text_at(self, key: Seq<char>) -> Option<Seq<char>> {
        match self.at(key) {
            Some(v) => v.text(),
            None => None,
        }
    }

    /// The truth value under `key`.
    pub open spec fn truth_at(self, key: Seq<char>) -> Option<bool> {
        match self.at(key) {
            Some(v) => v.truth(),
            None => None,
        }
    }

    /// The whole number under `key`.
    pub open spec fn unsigned_at(self, key: Seq<char>) -> Option<u64> {
        match self.at(key) {
            Some(v) => v.unsigned(),
            None => None,
        }
    }
}

/// The value of the first of `entries` under `key`.
pub open spec fn first_at(entries: Seq<(Seq<char>, JsonView)>, key: Seq<char>) -> Option<JsonView>
    decreases entries.len(),
{
    if entries.len() == 0 {
        None
    } else if entries[0].0 == key {
        Some(entries[0].1)
    } else {
        first_at(entries.skip(1), key)
    }
}

/// What is read from an optional value.
pub open spec fn opt_json(v: Option<&Json>) -> Option<JsonView> {
    match v {
        Some(j) => Some(j@),
        None => None,
    }
}

impl View for Json {
    type V = JsonView;

    open spec fn view(&self) -> JsonView {
        self.model()
    }
}

impl Json {
    pub open spec fn model(&self) -> JsonView
        decreases self,
    {
        match *self {
            Json::Null => JsonView::Null,
            Json::Bool(b) => JsonView::Bool(b),
            Json::Unsigned(n) => JsonView::Unsigned(n),
            Json::Number(t) => JsonView::Number(t@),
            Json::Text(t) => JsonView::Text(t@),
            Json::List(v) => JsonView::List(
                Seq::new(
                    v@.len(),
                    |i: int|
                        if 0 <= i < v@.len() {
                            v@[i].model()
                        } else {
                            JsonView::Null
                        },
                ),
            ),
            Json::Object(v) => JsonView::Object(
                Seq::new(
                    v@.len(),
                    |i: int|
                        (
                            v@[i].0@,
                            if 0 <= i < v@.len() {
                                v@[i].1.model()
                            } else {
                                JsonView::Null
                            },
                        ),
                ),
            ),
        }
    }

    /// The value of the first entry under `key`.
    pub fn get(&self, key: &str) -> (r: Option<&Json>)
        ensures
            opt_json(r) == self@.at(key@),
    {
        match self {
            Json::Object(entries) => {
                let ghost model = self@->Object_0;
                let mut i: usize = 0;
                assert(model.skip(0) =~= model);
                while i < entries.len()
                    invariant
                        i <= entries@.len(),
                        model == self@->Object_0,
                        *self == Json::Object(*entries),
                        first_at(model.skip(i as int), key@) == first_at(model, key@),
                    decreases entries@.len() - i,
                {
                    assert(model.skip(i as int)[0] == model[i as int]);
                    assert(model.skip(i as int).skip(1) =~= model.skip(i + 1));
                    if str_eq(entries[i].0.as_str(), key) {
                        return Some(&entries[i].1);
                    }
                    i = i + 1;
                }
                None
            },
            _ => None,
        }
    }

    pub fn as_str(&self) -> (r: Option<&str>)
        ensures
            r is Some <==> self@.text() is Some,
            r matches Some(t) ==> self@.text() == Some(t@),
    {
        match self {
            Json::Text(t) => Some(t.as_str()),
            _ => None,
        }
    }

    pub fn as_bool(&self) -> (r: Option<bool>)
        ensures
            r == self@.truth(),
    {
        match self {
            Json::Bool(b) => Some(*b),
            _ => None,
        }
    }

    pub fn as_u64(&self) -> (r: Option<u64>)
        ensures
            r == self@.unsigned(),
    {
        match self {
            Json::Unsigned(n) => Some(*n),
            _ => None,
        }
    }

    pub fn as_array(&self) -> (r: Option<&Vec<Json>>)
        ensures
            r is Some <==> self@.items() is Some,
            r matches Some(v) ==> self@.items() == Some(item_views(v@)),
    {
        match self {
            Json::List(v) => {
                assert(self@->List_0 =~= item_views(v@));
                Some(v)
            },
            _ => None,
        }
    }

    /// The text under `key`.
    pub fn str_at(&self, key: &str) -> (r: Option<&str>)
        ensures
            r is Some <==> self@.text_at(key@) is Some,
            r matches Some(t) ==> self@.text_at(key@) == Some(t@),
    {
        match self.get(key) {
            Some(v) => v.as_str(),
            None => None,
        }
    }

    /// The truth value under `key`.
    pub fn bool_at(&self, key: &str) -> (r: Option<bool>)
        ensures
            r == self@.truth_at(key@),
    {
        match self.get(key) {
            Some(v) => v.as_bool(),
            None => None,
        }
    }

    /// The whole number under `key`.
    pub fn u64_at(&self, key: &str) -> (r: Option<u64>)
        ensures
            r == self@.unsigned_at(key@),
    {
        match self.get(key) {
            Some(v) => v.as_u64(),
            None => None,
        }
    }
}

/// A parsed value of the JSON crate.
#[verifier::external_type_specification]
#[verifier::external_body]
pub struct ExValue(serde_json::Value);

/// The structure that `serde_json::Value` holds.
pub uninterp spec fn value_model(v: serde_json::Value) -> JsonView;

/// What `serde_json::from_str` reads from a text, or the text of its error.
pub uninterp spec fn parsed_json(text: Seq<char>) -> Result<JsonView, Seq<char>>;

/// A hexadecimal digit.
pub open spec fn hex_digit(n: int) -> char {
    if n < 10 {
        ('0' as int + n) as char
    } else {
        ('a' as int + n - 10) as char
    }
}

/// A character within a JSON string literal.
pub open spec fn char_quoted(c: char) -> Seq<char> {
    if c == '"' {
        seq!['\\', '"']
    } else if c == '\\' {
        seq!['\\', '\\']
    } else if c == '\u{8}' {
        seq!['\\', 'b']
    } else if c == '\t' {
        seq!['\\', 't']
    } else if c == '\n' {
        seq!['\\', 'n']
    } else if c == '\u{c}' {
        seq!['\\', 'f']
    } else if c == '\r' {
        seq!['\\', 'r']
    } else if c as int <= 31 {
        seq!['\\', 'u', '0', '0', hex_digit(c as int / 16), hex_digit(c as int % 16)]
    } else {
        seq![c]
    }
}

/// The characters of a text within a JSON string literal.
pub open spec fn chars_quoted(text: Seq<char>) -> Seq<char>
    decreases text.len(),
{
    if text.len() == 0 {
        Seq::empty()
    } else {
        chars_quoted(text.drop_last()) + char_quoted(text.last())
    }
}

/// A text as a JSON string literal.
pub open spec fn json_quoted(text: Seq<char>) -> Seq<char> {
    seq!['"'] + chars_quoted(text) + seq!['"']
}

/// The text of a value, without white space between its parts.
pub open spec fn rendered_json(v: JsonView) -> Seq<char>
    decreases v, 0nat,
{
    match v {
        JsonView::Null => "null"@,
        JsonView::Bool(b) => if b {
            "true"@
        } else {
            "false"@
        },
        JsonView::Unsigned(n) => decimal(n as nat),
        JsonView::Number(t) => t,
        JsonView::Text(t) => json_quoted(t),
        JsonView::List(items) => "["@ + rendered_items(items, items.len()) + "]"@,
        JsonView::Object(entries) => "{"@ + rendered_entries(entries, entries.len()) + "}"@,
    }
}

/// The text of the first `n` items of a list.
pub open spec fn rendered_items(items: Seq<JsonView>, n: nat) -> Seq<char>
    decreases items, n,
{
    if n == 0 || n > items.len() {
        Seq::empty()
    } else if n == 1 {
        rendered_json(items[0])
    } else {
        rendered_items(items, (n - 1) as nat) + ","@ + rendered_json(items[n - 1])
    }
}

/// The text of the first `n` entries of an object.
pub open spec fn rendered_entries(entries: Seq<(Seq<char>, JsonView)>, n: nat) -> Seq<char>
    decreases entries, n,
{
    if n == 0 || n > entries.len() {
        Seq::empty()
    } else {
        let entry = entries[n - 1];
        let text = json_quoted(entry.0) + ":"@ + rendered_json(entry.1);
        if n == 1 {
            text
        } else {
            rendered_entries(entries, (n - 1) as nat) + ","@ + text
        }
    }
}

/// One layer of a `serde_json::Value`.
pub enum ValueLayer<'a> {
    Null,
    Bool(bool),
    Unsigned(u64),
    Number(String),
    Text(&'a String),
    List(&'a Vec<serde_json::Value>),
    Object(Vec<(&'a String, &'a serde_json::Value)>),
}

/// The structure of which a layer is the outermost part.
pub open spec fn layer_model(layer: ValueLayer) -> JsonView {
    match layer {
        ValueLayer::Null => JsonView::Null,
        ValueLayer::Bool(b) => JsonView::Bool(b),
        ValueLayer::Unsigned(n) => JsonView::Unsigned(n),
        ValueLayer::Number(t) => JsonView::Number(t@),
        ValueLayer::Text(t) => JsonView::Text(t@),
        ValueLayer::List(v) => JsonView::List(
            v@.map_values(|x: serde_json::Value| value_model(x)),
        ),
        ValueLayer::Object(v) => JsonView::Object(
            v@.map_values(|e: (&String, &serde_json::Value)| (e.0@, value_model(*e.1))),
        ),
    }
}

/// Calls `serde_json::from_str` for a `serde_json::Value`. Claimed is only that
/// the value, or the text of the error, depends on the text alone.
#[verifier::external_body]
pub(crate) fn parse_value(text: &str) -> (r: Result<serde_json::Value, String>)
    ensures
        match r {
            Ok(v) => parsed_json(text@) == Ok::<JsonView, Seq<char>>(value_model(v)),
            Err(e) => parsed_json(text@) == Err::<JsonView, Seq<char>>(e@),
        },
{
    serde_json::from_str(text).map_err(|err| err.to_string())
}

/// Tells the variants of a `serde_json::Value` apart: the layer handed out is the
/// outermost part of the value's structure. A number is read by
/// `Number::as_u64` and, where that gives nothing, by its text.
#[verifier::external_body]
fn value_layer<'a>(v: &'a serde_json::Value) -> (r: ValueLayer<'a>)
    ensures
        layer_model(r) == value_model(*v),
{
    match v {
        serde_json::Value::Null => ValueLayer::Null,
        serde_json::Value::Bool(b) => ValueLayer::Bool(*b),
        serde_json::Value::Number(n) => match n.as_u64() {
            Some(u) => ValueLayer::Unsigned(u),
            None => ValueLayer::Number(n.to_string()),
        },
        serde_json::Value::String(t) => ValueLayer::Text(t),
        serde_json::Value::Array(items) => ValueLayer::List(items),
        serde_json::Value::Object(map) => ValueLayer::Object(map.iter().collect()),
    }
}

/// Calls `serde_json::to_string` on a string, which always succeeds: the text comes out
/// between quotation marks, with these, backslashes and control characters escaped.
#[verifier::external_body]
fn quoted_text(text: &str) -> (r: Option<String>)
    ensures
        opt_text(r) == Some(json_quoted(text@)),
{
    serde_json::to_string(text).ok()
}

/// Calls `serde_json::Value::to_string`: the value is written without white space
/// between its parts, and the entries of an object in the order of its map.
#[verifier::external_body]
pub(crate) fn value_text(v: &serde_json::Value) -> (r: String)
    ensures
        r@ == rendered_json(value_model(*v)),
{
    v.to_string()
}

/// Calls `serde_json::Value::clone`: the copy has the structure of the value.
#[verifier::external_body]
pub(crate) fn copy_value(v: &serde_json::Value) -> (r: serde_json::Value)
    ensures
        value_model(r) == value_model(*v),
{
    v.clone()
}

/// The structure of an optional value.
pub open spec fn opt_value(v: Option<&serde_json::Value>) -> Option<JsonView> {
    match v {
        Some(x) => Some(value_model(*x)),
        None => None,
    }
}

/// The value under `key`.
pub fn find_value<'a>(v: &'a serde_json::Value, key: &str) -> (r: Option<&'a serde_json::Value>)
    ensures
        opt_value(r) == value_model(*v).at(key@),
{
    match value_layer(v) {
        ValueLayer::Object(entries) => {
            let ghost model = value_model(*v)->Object_0;
            let mut i: usize = 0;
            assert(model.skip(0) =~= model);
            while i < entries.len()
                invariant
                    i <= entries@.len(),
                    value_model(*v) == JsonView::Object(model),
                    model == entries@.map_values(
                        |e: (&String, &serde_json::Value)| (e.0@, value_model(*e.1)),
                    ),
                    first_at(model.skip(i as int), key@) == first_at(model, key@),
                decreases entries@.len() - i,
            {
                assert(model.skip(i as int)[0] == model[i as int]);
                assert(model.skip(i as int).skip(1) =~= model.skip(i + 1));
                if str_eq(entries[i].0.as_str(), key) {
                    return Some(entries[i].1);
                }
                i = i + 1;
            }
            None
        },
        _ => None,
    }
}

/// The library's value for a value of the JSON crate.
pub fn json_of_value(v: &serde_json::Value) -> (r: Json)
    ensures
        r@ == value_model(*v),
    decreases value_model(*v),
{
    match value_layer(v) {
        ValueLayer::Null => Json::Null,
        ValueLayer::Bool(b) => Json::Bool(b),
        ValueLayer::Unsigned(n) => Json::Unsigned(n),
        ValueLayer::Number(t) => Json::Number(t),
        ValueLayer::Text(t) => Json::Text(t.clone()),
        ValueLayer::List(items) => {
            let mut out: Vec<Json> = Vec::new();
            let mut i: usize = 0;
            while i < items.len()
                invariant
                    i <= items@.len(),
                    value_model(*v) == JsonView::List(
                        items@.map_values(|x: serde_json::Value| value_model(x)),
                    ),
                    out@.len() == i,
                    forall|k: int|
                        0 <= k < i ==> #[trigger] out@[k].model() == value_model(items@[k]),
                decreases items@.len() - i,
            {
                proof {
                    let model = value_model(*v)->List_0;
                    assert(model[i as int] == value_model(items@[i as int]));
                    assert(decreases_to!(value_model(*v) => model));
                    assert(decreases_to!(model => model[i as int]));
                }
                out.push(json_of_value(&items[i]));
                i = i + 1;
            }
            let ghost items_out = out@;
            let r: Json = Json::List(out);
            proof {
                let model = value_model(*v)->List_0;
                assert forall|k: int| 0 <= k < items_out.len() implies r@->List_0[k]
                    == model[k] by {
                    assert(items_out[k].model() == value_model(items@[k]));
                }
                assert(r@->List_0 =~= model);
            }
            r
        },
        ValueLayer::Object(entries) => {
            let mut out: Vec<(String, Json)> = Vec::new();
            let mut i: usize = 0;
            while i < entries.len()
                invariant
                    i <= entries@.len(),
                    value_model(*v) == JsonView::Object(
                        entries@.map_values(
                            |e: (&String, &serde_json::Value)| (e.0@, value_model(*e.1)),
                        ),
                    ),
                    out@.len() == i,
                    forall|k: int|
                        0 <= k < i ==> #[trigger] out@[k].1.model() == value_model(*entries@[k].1),
                    forall|k: int| 0 <= k < i ==> (#[trigger] out@[k]).0@ == entries@[k].0@,
                decreases entries@.len() - i,
            {
                proof {
                    let model = value_model(*v)->Object_0;
                    assert(model[i as int].1 == value_model(*entries@[i as int].1));
                    assert(decreases_to!(value_model(*v) => model));
                    assert(decreases_to!(model => model[i as int]));
                    assert(decreases_to!(model[i as int] => model[i as int].1));
                }
                let name: String = entries[i].0.clone();
                let value: Json = json_of_value(entries[i].1);
                out.push((name, value));
                i = i + 1;
            }
            let ghost entries_out = out@;
            let r: Json = Json::Object(out);
            proof {
                let model = value_model(*v)->Object_0;
                assert forall|k: int| 0 <= k < entries_out.len() implies r@->Object_0[k]
                    == model[k] by {
                    assert(entries_out[k].1.model() == value_model(*entries@[k].1));
                }
                assert(r@->Object_0 =~= model);
            }
            r
        },
    }
}

/// Reads a JSON text.
pub fn parse_json(text: &str) -> (r: Result<Json, String>)
    ensures
        match r {
            Ok(j) => parsed_json(text@) == Ok::<JsonView, Seq<char>>(j@),
            Err(e) => parsed_json(text@) == Err::<JsonView, Seq<char>>(e@),
        },
{
    match parse_value(text) {
        Ok(v) => Ok(json_of_value(&v)),
        Err(e) => Err(e),
    }
}

/// Writes a text as a JSON string literal.
pub fn quote_json(text: &str) -> (r: String)
    ensures
        r@ == json_quoted(text@),
{
    match quoted_text(text) {
        Some(q) => q,
        None => "\"\"".to_string(),
    }
}

/// What the entries of an object say.
pub open spec fn entry_views(v: Seq<(String, Json)>) -> Seq<(Seq<char>, JsonView)> {
    v.map_values(|e: (String, Json)| (e.0@, e.1@))
}

/// What the items of a list say.
pub open spec fn item_views(v: Seq<Json>) -> Seq<JsonView> {
    v.map_values(|j: Json| j@)
}

/// Appends an entry to those of an object.
pub fn push_entry(entries: &mut Vec<(String, Json)>, key: &str, value: Json)
    ensures
        entry_views(final(entries)@) == entry_views(old(entries)@).push((key@, value@)),
{
    entries.push((key.to_string(), value));
    assert(entry_views(entries@) =~= entry_views(old(entries)@).push((key@, value@)));
}

/// Appends an item to those of a list.
pub fn push_item(items: &mut Vec<Json>, value: Json)
    ensures
        item_views(final(items)@) == item_views(old(items)@).push(value@),
{
    items.push(value);
    assert(item_views(items@) =~= item_views(old(items)@).push(value@));
}

/// An object of entries.
pub fn json_object(entries: Vec<(String, Json)>) -> (r: Json)
    ensures
        r@ == JsonView::Object(entry_views(entries@)),
{
    let ghost views = entry_views(entries@);
    let r: Json = Json::Object(entries);
    assert(r@->Object_0 =~= views);
    r
}

/// A list of items.
pub fn json_list(items: Vec<Json>) -> (r: Json)
    ensures
        r@ == JsonView::List(item_views(items@)),
{
    let ghost views = item_views(items@);
    let r: Json = Json::List(items);
    assert(r@->List_0 =~= views);
    r
}

/// A text.
pub fn json_text(text: &str) -> (r: Json)
    ensures
        r@ == JsonView::Text(text@),
{
    Json::Text(text.to_string())
}

/// A text, or null where there is none.
pub open spec fn text_or_null(text: Option<Seq<char>>) -> JsonView {
    match text {
        Some(t) => JsonView::Text(t),
        None => JsonView::Null,
    }
}

/// A text, or null where there is none.
pub fn json_opt_text(text: Option<&str>) -> (r: Json)
    ensures
        r@ == text_or_null(opt_str(text)),
{
    match text {
        Some(t) => json_text(t),
        None => Json::Null,
    }
}

/// A number, or null where there is none.
pub open spec fn number_or_null(n: Option<u32>) -> JsonView {
    match n {
        Some(n) => JsonView::Unsigned(n as u64),
        None => JsonView::Null,
    }
}

/// A number, or null where there is none.
pub fn json_opt_number(n: Option<u32>) -> (r: Json)
    ensures
        r@ == number_or_null(n),
{
    match n {
        Some(n) => Json::Unsigned(n as u64),
        None => Json::Null,
    }
}

/// The value under a key is that of the first entry with it.
pub proof fn first_entry_counts(entries: Seq<(Seq<char>, JsonView)>, i: int)
    requires
        0 <= i < entries.len(),
        forall|j: int| 0 <= j < i ==> (#[trigger] entries[j]).0 != entries[i].0,
    ensures
        JsonView::Object(entries).at(entries[i].0) == Some(entries[i].1),
    decreases i,
{
    if i > 0 {
        assert(entries[0].0 != entries[i].0);
        let rest = entries.skip(1);
        assert forall|j: int| 0 <= j < i - 1 implies (#[trigger] rest[j]).0 != rest[i - 1].0 by {
            assert(rest[j] == entries[j + 1]);
        }
        first_entry_counts(rest, i - 1);
    }
}

} // verus!
