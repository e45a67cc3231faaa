//! JSON values as the library reads and writes them.

use crate::text;
use vstd::prelude::*;

verus! {

/// A JSON value. An object is its members in order; where a key occurs twice, the later member
/// is the one that counts.
///
/// Two values are equal where they are built alike: members are compared in order. What was read
/// has its members in the order of their keys.
#[derive(Debug, PartialEq, Eq)]
pub enum Json {
    Null,
    Bool(bool),
    /// A number that an unsigned 64-bit integer holds.
    Number(u64),
    /// A negative number that a signed 64-bit integer holds.
    Negative(i64),
    /// Any other number, as it was read.
    Fraction(serde_json::Number),
    Text(String),
    Array(Vec<Json>),
    Object(Vec<(String, Json)>),
}

/// What a [`Json`] value means: strings are their characters, and an object is a map.
pub enum JsonView {
    Null,
    Bool(bool),
    Number(u64),
    Negative(i64),
    Fraction(serde_json::Number),
    Text(Seq<char>),
    Array(Seq<JsonView>),
    Object(Map<Seq<char>, JsonView>),
}

impl View for Json {
    type V = JsonView;

    open spec fn view(&self) -> JsonView {
        json_view(*self)
    }
}

/// The meaning of a value.
pub open spec fn json_view(json: Json) -> JsonView
    decreases json,
{
    match json {
        Json::Null => JsonView::Null,
        Json::Bool(b) => JsonView::Bool(b),
        Json::Number(n) => JsonView::Number(n),
        Json::Negative(n) => JsonView::Negative(n),
        Json::Fraction(n) => JsonView::Fraction(n),
        Json::Text(text) => JsonView::Text(text@),
        Json::Array(items) => JsonView::Array(items_view(items@)),
        Json::Object(members) => JsonView::Object(members_view(members@)),
    }
}

/// The meaning of an array's items, in order.
pub open spec fn items_view(items: Seq<Json>) -> Seq<JsonView>
    decreases items,
{
    if items.len() == 0 {
        Seq::empty()
    } else {
        items_view(items.drop_last()).push(json_view(items.last()))
    }
}

/// The meaning of an object's members: the last member under a key is the one that counts.
pub open spec fn members_view(members: Seq<(String, Json)>) -> Map<Seq<char>, JsonView>
    decreases members,
{
    if members.len() == 0 {
        Map::empty()
    } else {
        members_view(members.drop_last()).insert(members.last().0@, json_view(members.last().1))
    }
}

/// The meaning of an array holds the meaning of each item, in order.
pub proof fn lemma_items_view(items: Seq<Json>)
    ensures
        items_view(items).len() == items.len(),
        forall|i: int| 0 <= i < items.len() ==> #[trigger] items_view(items)[i] == items[i]@,
    decreases items,
{
    if items.len() > 0 {
        lemma_items_view(items.drop_last());
    }
}

impl JsonView {
    /// The object without members.
    pub open spec fn object() -> JsonView {
        JsonView::Object(Map::empty())
    }

    /// The object with one member added or replaced; any other value as it is.
    pub open spec fn with(self, key: Seq<char>, value: JsonView) -> JsonView {
        match self {
            JsonView::Object(members) => JsonView::Object(members.insert(key, value)),
            _ => self,
        }
    }

    /// The member of an object under `key`.
    pub open spec fn member(self, key: Seq<char>) -> Option<JsonView> {
        match self {
            JsonView::Object(members) => if members.contains_key(key) {
                Some(members[key])
            } else {
                None
            },
            _ => None,
        }
    }

    /// The characters of a string.
    pub open spec fn text(self) -> Option<Seq<char>> {
        match self {
            JsonView::Text(text) => Some(text),
            _ => None,
        }
    }

    /// The items of an array.
    pub open spec fn items(self) -> Option<Seq<JsonView>> {
        match self {
            JsonView::Array(items) => Some(items),
            _ => None,
        }
    }

    /// A number that an unsigned 64-bit integer holds.
    pub open spec fn number(self) -> Option<u64> {
        match self {
            JsonView::Number(n) => Some(n),
            _ => None,
        }
    }

    /// The characters of the string that stands under `key`.
    pub open spec fn member_text(self, key: Seq<char>) -> Option<Seq<char>> {
        match self.member(key) {
            Some(value) => value.text(),
            None => None,
        }
    }

    /// The items of the array that stands under `key`.
    pub open spec fn member_items(self, key: Seq<char>) -> Option<Seq<JsonView>> {
        match self.member(key) {
            Some(value) => value.items(),
            None => None,
        }
    }
}

/// The meaning of an optional text.
pub open spec fn optional_text(text: Option<String>) -> Option<Seq<char>> {
    match text {
        Some(text) => Some(text@),
        None => None,
    }
}

/// The meaning of an optional value.
pub open spec fn optional_json(json: Option<Json>) -> Option<JsonView> {
    match json {
        Some(json) => Some(json@),
        None => None,
    }
}

/// A string, or null where there is none.
pub open spec fn text_or_null(text: Option<Seq<char>>) -> JsonView {
    match text {
        Some(text) => JsonView::Text(text),
        None => JsonView::Null,
    }
}

/// An array of strings.
pub open spec fn array_of_texts(row: Seq<Seq<char>>) -> JsonView {
    JsonView::Array(row.map_values(|text: Seq<char>| JsonView::Text(text)))
}

impl Json {
    /// The string `text`.
    pub fn text(text: &str) -> (json: Json)
        ensures
            json@ == JsonView::Text(text@),
    {
        Json::Text(text.to_owned())
    }

    /// The string `text`, or null where there is none.
    pub fn text_or_null(text: &Option<String>) -> (json: Json)
        ensures
            json@ == text_or_null(optional_text(*text)),
    {
        match text {
            Some(text) => Json::Text(text.clone()),
            None => Json::Null,
        }
    }

    /// The object without members.
    pub fn object() -> (json: Json)
        ensures
            json@ == JsonView::object(),
    {
        Json::Object(Vec::new())
    }

    /// The array without items.
    pub fn array() -> (json: Json)
        ensures
            json@ == JsonView::Array(Seq::empty()),
    {
        Json::Array(Vec::new())
    }

    /// The object with one member added or replaced; any other value as it is.
    pub fn with(self, key: &str, value: Json) -> (json: Json)
        ensures
            json@ == self@.with(key@, value@),
    {
        match self {
            Json::Object(members) => {
                let mut members = members;
                let ghost before = members@;
                members.push((key.to_owned(), value));
                assert(members@.drop_last() =~= before);
                Json::Object(members)
            },
            other => other,
        }
    }

    /// The array with one item added; any other value as it is.
    pub fn and(self, item: Json) -> (json: Json)
        ensures
            self@ matches JsonView::Array(items) ==> json@ == JsonView::Array(items.push(item@)),
            !(self@ is Array) ==> json@ == self@,
    {
        match self {
            Json::Array(items) => {
                let mut items = items;
                let ghost before = items@;
                items.push(item);
                assert(items@.drop_last() =~= before);
                Json::Array(items)
            },
            other => other,
        }
    }

    /// The array of the strings in `row`.
    pub fn array_of_texts(row: &Vec<String>) -> (json: Json)
        ensures
            json@ == array_of_texts(text::texts(row@)),
    {
        let mut items: Vec<Json> = Vec::new();
        let mut i: usize = 0;
        while i < row.len()
            invariant
                i <= row@.len(),
                items@.len() == i,
                forall|k: int| 0 <= k < i ==> #[trigger] items@[k]@ == JsonView::Text(row@[k]@),
            decreases row@.len() - i,
        {
            items.push(Json::Text(row[i].clone()));
            i += 1;
        }
        proof {
            lemma_items_view(items@);
            assert(items_view(items@) =~= text::texts(row@).map_values(
                |text: Seq<char>| JsonView::Text(text),
            ));
        }
        Json::Array(items)
    }

    /// The member of an object under `key`.
    pub fn get(&self, key: &str) -> (value: Option<&Json>)
        ensures
            match value {
                Some(value) => self@.member(key@) == Some(value@),
                None => self@.member(key@) is None,
            },
    {
        match self {
            Json::Object(members) => {
                let mut left: usize = members.len();
                assert(members@.take(left as int) =~= members@);
                while left > 0
                    invariant
                        left <= members@.len(),
                        self@ == JsonView::Object(members_view(members@)),
                        members_view(members@).contains_key(key@) == members_view(
                            members@.take(left as int),
                        ).contains_key(key@),
                        members_view(members@).contains_key(key@) ==> members_view(members@)[key@]
                            == members_view(members@.take(left as int))[key@],
                    decreases left,
                {
                    assert(members@.take(left as int).drop_last() =~= members@.take(left - 1));
                    if text::same(members[left - 1].0.as_str(), key) {
                        return Some(&members[left - 1].1);
                    }
                    left -= 1;
                }
                None
            },
            _ => None,
        }
    }

    /// The string that this value is.
    pub fn as_text(&self) -> (text: Option<&String>)
        ensures
            match text {
                Some(text) => self@.text() == Some(text@),
                None => self@.text() is None,
            },
    {
        match self {
            Json::Text(text) => Some(text),
            _ => None,
        }
    }

    /// The items of the array that this value is.
    pub fn as_items(&self) -> (items: Option<&Vec<Json>>)
        ensures
            match items {
                Some(items) => self@.items() == Some(items_view(items@)),
                None => self@.items() is None,
            },
    {
        match self {
            Json::Array(items) => Some(items),
            _ => None,
        }
    }

    /// The unsigned 64-bit integer that this value is.
    pub fn as_number(&self) -> (number: Option<u64>)
        ensures
            number == self@.number(),
    {
        match self {
            Json::Number(n) => Some(*n),
            _ => None,
        }
    }

    /// The string that stands under `key`.
    pub fn get_text(&self, key: &str) -> (text: Option<&String>)
        ensures
            match text {
                Some(text) => self@.member_text(key@) == Some(text@),
                None => self@.member_text(key@) is None,
            },
    {
        match self.get(key) {
            Some(value) => value.as_text(),
            None => None,
        }
    }

    /// The items of the array that stands under `key`.
    pub fn get_items(&self, key: &str) -> (items: Option<&Vec<Json>>)
        ensures
            match items {
                Some(items) => self@.member_items(key@) == Some(items_view(items@)),
                None => self@.member_items(key@) is None,
            },
    {
        match self.get(key) {
            Some(value) => value.as_items(),
            None => None,
        }
    }

    /// A value with the same meaning.
    pub fn copy(&self) -> (copy: Json)
        ensures
            copy@ == self@,
        decreases self,
    {
        match self {
            Json::Null => Json::Null,
            Json::Bool(b) => Json::Bool(*b),
            Json::Number(n) => Json::Number(*n),
            Json::Negative(n) => Json::Negative(*n),
            Json::Fraction(n) => Json::Fraction(copied_number(n)),
            Json::Text(text) => Json::Text(text.clone()),
            Json::Array(items) => {
                let mut copied: Vec<Json> = Vec::new();
                let mut i: usize = 0;
                while i < items.len()
                    invariant
                        i <= items@.len(),
                        self matches Json::Array(own) && own == items,
                        items_view(copied@) == items_view(items@.take(i as int)),
                    decreases items@.len() - i,
                {
                    let item = items[i].copy();
                    proof {
                        assert(items@.take(i + 1).drop_last() =~= items@.take(i as int));
                        assert(copied@.push(item).drop_last() =~= copied@);
                    }
                    copied.push(item);
                    i += 1;
                }
                assert(items@.take(i as int) =~= items@);
                Json::Array(copied)
            },
            Json::Object(members) => {
                let mut copied: Vec<(String, Json)> = Vec::new();
                let mut i: usize = 0;
                while i < members.len()
                    invariant
                        i <= members@.len(),
                        self matches Json::Object(own) && own == members,
                        members_view(copied@) == members_view(members@.take(i as int)),
                    decreases members@.len() - i,
                {
                    let member = (members[i].0.clone(), members[i].1.copy());
                    proof {
                        assert(members@.take(i + 1).drop_last() =~= members@.take(i as int));
                        assert(copied@.push(member).drop_last() =~= copied@);
                    }
                    copied.push(member);
                    i += 1;
                }
                assert(members@.take(i as int) =~= members@);
                Json::Object(copied)
            },
        }
    }

    /// The JSON text of this value.
    pub fn to_text(&self) -> (text: String)
        ensures
            text@ == text_of_json(self@),
    {
        rendered(self)
    }
}

impl Clone for Json {
    fn clone(&self) -> (copy: Self)
        ensures
            copy@ == self@,
    {
        self.copy()
    }
}

/// An outside JSON value, on its way between a text and a [`Json`].
#[verifier::external_type_specification]
#[verifier::external_body]
pub struct ExValue(serde_json::Value);

/// An outside number, which is neither read nor changed on its way.
#[verifier::external_type_specification]
#[verifier::external_body]
pub struct ExNumber(serde_json::Number);

/// The `clone` of a `serde_json::Number`: the same number.
#[verifier::external_body]
fn copied_number(number: &serde_json::Number) -> (copy: serde_json::Number)
    ensures
        copy == *number,
{
    number.clone()
}

/// What `serde_json::from_str` makes of a text: the value, or the words of its error.
pub uninterp spec fn json_of_text(text: Seq<char>) -> Result<JsonView, Seq<char>>;

/// What `serde_json::from_slice` makes of bytes: the value, or the words of its error.
pub uninterp spec fn json_of_bytes(bytes: Seq<u8>) -> Result<JsonView, Seq<char>>;

/// The text that `serde_json` displays a value as.
pub uninterp spec fn text_of_json(json: JsonView) -> Seq<char>;

/// The meaning of a parse.
pub open spec fn parse_view(parsed: Result<Json, String>) -> Result<JsonView, Seq<char>> {
    match parsed {
        Ok(json) => Ok(json@),
        Err(words) => Err(words@),
    }
}

/// Changes a `serde_json::Value` into a [`Json`], variant by variant. Nothing is claimed of the
/// result here: what it means is part of what [`parse_text`] and [`parse_bytes`] claim.
#[verifier::external_body]
fn from_value(value: serde_json::Value) -> Json {
    match value {
        serde_json::Value::Null => Json::Null,
        serde_json::Value::Bool(b) => Json::Bool(b),
        serde_json::Value::Number(n) => match (n.as_u64(), n.as_i64()) {
            (Some(unsigned), _) => Json::Number(unsigned),
            (None, Some(negative)) => Json::Negative(negative),
            (None, None) => Json::Fraction(n),
        },
        serde_json::Value::String(text) => Json::Text(text),
        serde_json::Value::Array(items) => Json::Array(items.into_iter().map(from_value).collect()),
        serde_json::Value::Object(members) => Json::Object(
            members.into_iter().map(|(key, value)| (key, from_value(value))).collect(),
        ),
    }
}

/// Changes a [`Json`] into a `serde_json::Value`, variant by variant. Nothing is claimed of the
/// result here: what it shows as is part of what [`rendered`] claims.
#[verifier::external_body]
fn to_value(json: &Json) -> serde_json::Value {
    match json {
        Json::Null => serde_json::Value::Null,
        Json::Bool(b) => serde_json::Value::Bool(*b),
        Json::Number(n) => serde_json::Value::from(*n),
        Json::Negative(n) => serde_json::Value::from(*n),
        Json::Fraction(n) => serde_json::Value::Number(n.clone()),
        Json::Text(text) => serde_json::Value::String(text.clone()),
        Json::Array(items) => serde_json::Value::Array(items.iter().map(to_value).collect()),
        Json::Object(members) => serde_json::Value::Object(
            members.iter().map(|(key, value)| (key.clone(), to_value(value))).collect(),
        ),
    }
}

/// `serde_json::from_str` into a `serde_json::Value`: the value that the text spells, or the
/// words of the error, as a function of the text alone.
#[verifier::external_body]
fn parsed_text(text: &str) -> (parsed: Result<Json, String>)
    ensures
        parse_view(parsed) == json_of_text(text@),
{
    serde_json::from_str::<serde_json::Value>(text).map(from_value).map_err(|error| error.to_string())
}

/// `serde_json::from_slice` into a `serde_json::Value`: the value that the bytes spell, or the
/// words of the error, as a function of the bytes alone.
#[verifier::external_body]
fn parsed_bytes(bytes: &[u8]) -> (parsed: Result<Json, String>)
    ensures
        parse_view(parsed) == json_of_bytes(bytes@),
{
    serde_json::from_slice::<serde_json::Value>(bytes).map(from_value).map_err(|error| error.to_string())
}

/// The `Display` of a `serde_json::Value`: the compact text, as a function of the value alone.
#[verifier::external_body]
fn rendered(json: &Json) -> (text: String)
    ensures
        text@ == text_of_json(json@),
{
    to_value(json).to_string()
}

/// The words with which `serde_json` refuses to take a value for an object.
pub uninterp spec fn not_an_object(json: JsonView) -> Seq<char>;

/// `serde_json::from_value` into a `serde_json::Map`: it takes objects, and refuses every other
/// value with words that are a function of the value alone.
#[verifier::external_body]
fn object_refused(json: &Json) -> (words: Option<String>)
    ensures
        match words {
            Some(words) => !(json@ is Object) && words@ == not_an_object(json@),
            None => json@ is Object,
        },
{
    let value = to_value(json);
    serde_json::from_value::<serde_json::Map<String, serde_json::Value>>(value).err().map(
        |error| error.to_string(),
    )
}

/// Whether a value is an object, or the words that refuse it.
pub fn require_object(json: &Json) -> (result: Result<(), String>)
    ensures
        match result {
            Ok(()) => json@ is Object,
            Err(words) => !(json@ is Object) && words@ == not_an_object(json@),
        },
{
    match object_refused(json) {
        Some(words) => Err(words),
        None => Ok(()),
    }
}

/// The value that a text spells, or the words of the error.
pub fn parse_text(text: &str) -> (parsed: Result<Json, String>)
    ensures
        parse_view(parsed) == json_of_text(text@),
{
    parsed_text(text)
}

/// The value that bytes spell, or the words of the error.
pub fn parse_bytes(bytes: &[u8]) -> (parsed: Result<Json, String>)
    ensures
        parse_view(parsed) == json_of_bytes(bytes@),
{
    parsed_bytes(bytes)
}

} // verus!
