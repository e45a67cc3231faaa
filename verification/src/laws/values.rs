//! What JSON values and tables promise.

use crate::json;
use crate::json::{Json, JsonView};
use crate::rpc::RpcId;
use crate::table::{Key, Table};
use crate::text;
use vstd::prelude::*;

verus! {

/// The member at `i` is the last under its key.
pub open spec fn is_last_under(members: Seq<(String, Json)>, key: Seq<char>, i: int) -> bool {
    &&& 0 <= i < members.len()
    &&& members[i].0@ == key
    &&& forall|j: int| i < j < members.len() ==> (#[trigger] members[j]).0@ != key
}

proof fn lemma_members(members: Seq<(String, Json)>, key: Seq<char>)
    ensures
        forall|i: int| #[trigger]
            is_last_under(members, key, i) ==> json::members_view(members).contains_key(key)
                && json::members_view(members)[key] == members[i].1@,
        (forall|i: int| 0 <= i < members.len() ==> (#[trigger] members[i]).0@ != key)
            ==> !json::members_view(members).contains_key(key),
    decreases members.len(),
{
    if members.len() > 0 {
        let rest = members.drop_last();
        let last = members.len() - 1;
        lemma_members(rest, key);
        assert forall|i: int| #[trigger] is_last_under(members, key, i) implies json::members_view(
            members,
        ).contains_key(key) && json::members_view(members)[key] == members[i].1@ by {
            if i < last {
                assert(members[last].0@ != key);
                assert forall|j: int| i < j < rest.len() implies (#[trigger] rest[j]).0@ != key by {
                    assert(rest[j] == members[j]);
                }
                assert(is_last_under(rest, key, i));
            }
        }
        if forall|i: int| 0 <= i < members.len() ==> (#[trigger] members[i]).0@ != key {
            assert(members[last].0@ != key);
            assert forall|i: int| 0 <= i < rest.len() implies (#[trigger] rest[i]).0@ != key by {
                assert(rest[i] == members[i]);
            }
        }
    }
}

/// What is found under a key of an object is the last member that stands under it, and nothing where
/// none does. Nothing is found in a value that is no object.
pub proof fn law_last_member_under_a_key_is_found(
    json: Json,
    key: &str,
    found: Option<&Json>,
    i: int,
)
    requires
        call_ensures(Json::get, (&json, key), found),
    ensures
        match json {
            Json::Object(members) => {
                &&& is_last_under(members@, key@, i) ==> found is Some && found->Some_0@
                    == members@[i].1@
                &&& (forall|j: int| 0 <= j < members@.len() ==> (#[trigger] members@[j]).0@ != key@)
                    ==> found is None
            },
            _ => found is None,
        },
{
    if let Json::Object(members) = json {
        lemma_members(members@, key@);
    }
}

/// A member that was put under a key is found there, and what stands under any other key is found as
/// before; a value that is no object stays as it is.
pub proof fn law_members_are_found_where_they_were_put(
    json: Json,
    key: &str,
    value: Json,
    put: Json,
    other: &str,
    found: Option<&Json>,
    before: Option<&Json>,
)
    requires
        call_ensures(Json::with, (json, key, value), put),
        call_ensures(Json::get, (&put, other), found),
        call_ensures(Json::get, (&json, other), before),
    ensures
        json@ is Object && other@ == key@ ==> found is Some && found->Some_0@ == value@,
        json@ is Object && other@ != key@ ==> (found is Some <==> before is Some) && (found is Some
            ==> found->Some_0@ == before->Some_0@),
        !(json@ is Object) ==> put@ == json@,
{
}

/// An empty object holds nothing under any key, and an empty array holds no item.
pub proof fn law_empty_values_hold_nothing(
    object: Json,
    key: &str,
    found: Option<&Json>,
    array: Json,
)
    requires
        call_ensures(Json::object, (), object),
        call_ensures(Json::get, (&object, key), found),
        call_ensures(Json::array, (), array),
    ensures
        object@ is Object,
        found is None,
        array@ matches JsonView::Array(items) && items.len() == 0,
{
}

/// An item that is added to an array stands behind the others; a value that is no array stays as it
/// is.
pub proof fn law_items_are_added_at_the_end(json: Json, item: Json, longer: Json)
    requires
        call_ensures(Json::and, (json, item), longer),
    ensures
        match json@ {
            JsonView::Array(items) => {
                &&& longer@ matches JsonView::Array(more)
                &&& more.len() == items.len() + 1
                &&& more.last() == item@
                &&& forall|i: int| 0 <= i < items.len() ==> #[trigger] more[i] == items[i]
            },
            _ => longer@ == json@,
        },
{
}

/// Texts become string values, one for one and in order, and a text that is missing becomes null.
pub proof fn law_texts_become_strings(
    words: &str,
    string: Json,
    optional: Option<String>,
    nullable: Json,
    row: Vec<String>,
    array: Json,
)
    requires
        call_ensures(Json::text, (words,), string),
        call_ensures(Json::text_or_null, (&optional,), nullable),
        call_ensures(Json::array_of_texts, (&row,), array),
    ensures
        string@ == JsonView::Text(words@),
        nullable@ == match optional {
            Some(words) => JsonView::Text(words@),
            None => JsonView::Null,
        },
        array@ matches JsonView::Array(items) && items.len() == row@.len() && forall|i: int|
            0 <= i < items.len() ==> #[trigger] items[i] == JsonView::Text(row@[i]@),
{
    assert(text::texts(row@).len() == row@.len());
    assert forall|i: int| 0 <= i < row@.len() implies text::texts(row@)[i] == #[trigger] row@[i]@ by {}
}

/// A value is taken for a string, an array or a number exactly if it is one, and then as it is; a
/// copy has the same meaning.
pub proof fn law_values_are_taken_for_what_they_are(
    json: Json,
    words: Option<&String>,
    items: Option<&Vec<Json>>,
    number: Option<u64>,
    copy: Json,
)
    requires
        call_ensures(Json::as_text, (&json,), words),
        call_ensures(Json::as_items, (&json,), items),
        call_ensures(Json::as_number, (&json,), number),
        call_ensures(Json::copy, (&json,), copy),
    ensures
        words is Some <==> json is Text,
        words matches Some(words) ==> words@ == json->Text_0@,
        items is Some <==> json is Array,
        items matches Some(items) ==> items@.len() == json->Array_0@.len() && forall|i: int|
            0 <= i < items@.len() ==> (#[trigger] items@[i])@ == json->Array_0@[i]@,
        number is Some <==> json is Number,
        number matches Some(n) ==> n == json->Number_0,
        copy@ == json@,
{
    if let Some(items) = items {
        if let Json::Array(own) = json {
            json::lemma_items_view(items@);
            json::lemma_items_view(own@);
            assert forall|i: int| 0 <= i < items@.len() implies (#[trigger] items@[i])@
                == own@[i]@ by {
                assert(json::items_view(items@)[i] == json::items_view(own@)[i]);
            }
        }
    }
}

/// What is found under a key is a string, or an array, exactly if the member there is one.
pub proof fn law_members_are_taken_for_what_they_are(
    json: Json,
    key: &str,
    found: Option<&Json>,
    words: Option<&String>,
    items: Option<&Vec<Json>>,
)
    requires
        call_ensures(Json::get, (&json, key), found),
        call_ensures(Json::get_text, (&json, key), words),
        call_ensures(Json::get_items, (&json, key), items),
    ensures
        words is Some <==> found is Some && found->Some_0@ is Text,
        words matches Some(words) ==> found->Some_0@ == JsonView::Text(words@),
        items is Some <==> found is Some && found->Some_0@ is Array,
        items matches Some(items) ==> found->Some_0@ == JsonView::Array(
            json::items_view(items@),
        ),
{
}

/// A value is accepted as an object exactly if it is one.
pub proof fn law_only_objects_are_accepted_as_such(json: Json, result: Result<(), String>)
    requires
        call_ensures(json::require_object, (&json,), result),
    ensures
        result is Ok <==> json is Object,
        result matches Err(words) ==> words@ == json::not_an_object(json@),
{
}

/// What was put into a table under a key is found there, in place of what stood there; what was taken
/// out is not; and neither touches any other key.
pub proof fn law_tables_hold_what_was_put<K: Key, V>(
    table: &mut Table<K, V>,
    key: K,
    value: V,
    emptied: &mut Table<K, V>,
    taken: Option<V>,
    other: K,
    found: Option<&V>,
    before: Option<&V>,
    after: Option<&V>,
)
    requires
        table.valid(),
        call_ensures(Table::<K, V>::get, (&*old(table), &other), before),
        call_ensures(Table::<K, V>::insert, (table, key, value), ()),
        call_ensures(Table::<K, V>::get, (final(table), &other), found),
        *old(emptied) == *final(table),
        call_ensures(Table::<K, V>::remove, (emptied, &key), taken),
        call_ensures(Table::<K, V>::get, (final(emptied), &other), after),
    ensures
        other.form() == key.form() ==> found == Some(&value),
        other.form() != key.form() ==> found == before,
        taken == Some(value),
        other.form() == key.form() ==> after is None,
        other.form() != key.form() ==> after == before,
{
}

/// Two identifiers are the same exactly if both are the same number or both the same text.
pub proof fn law_identifiers_are_numbers_or_texts(left: RpcId, right: RpcId, yes: bool)
    requires
        call_ensures(<RpcId as Key>::same, (&left, &right), yes),
    ensures
        yes <==> match (left, right) {
            (RpcId::Number(a), RpcId::Number(b)) => a == b,
            (RpcId::Text(a), RpcId::Text(b)) => a@ == b@,
            _ => false,
        },
{
}

/// An identifier is shown with its kind and its number in decimal form, or its text in quotes.
pub proof fn law_identifiers_are_shown_with_their_kind(id: RpcId, words: String)
    requires
        call_ensures(RpcId::shown, (&id,), words),
    ensures
        words@ == match id {
            RpcId::Number(n) => "Number("@ + text::decimal(n as nat) + ")"@,
            RpcId::Text(text) => "Text("@ + crate::rpc::quoted_text(text@) + ")"@,
        },
{
}

/// The entries of a table are its keys and values, each key once; all of them are handed out, in
/// order.
pub proof fn law_table_entries_are_its_keys_and_values<K: Key, V>(
    table: Table<K, V>,
    len: usize,
    i: usize,
    key: &K,
    value: &V,
    rows: Vec<(K, V)>,
)
    requires
        table.valid(),
        call_ensures(Table::<K, V>::len, (&table,), len),
        i < len,
        call_ensures(Table::<K, V>::key_at, (&table, i), key),
        call_ensures(Table::<K, V>::value_at, (&table, i), value),
        call_ensures(Table::<K, V>::into_rows, (table,), rows),
    ensures
        table@.contains_key(key.form()),
        table@[key.form()] == *value,
        rows@.len() == len,
        rows@[i as int].0 == *key,
        rows@[i as int].1 == *value,
        forall|j: int|
            0 <= j < len && j != i ==> (#[trigger] rows@[j]).0.form() != key.form(),
{
    table.lemma_rows();
    assert(table@.contains_key(table.rows()[i as int].0.form()));
    assert forall|j: int| 0 <= j < len && j != i implies (#[trigger] rows@[j]).0.form()
        != key.form() by {
        if j < i {
            assert(table.rows()[j].0.form() != table.rows()[i as int].0.form());
        } else {
            assert(table.rows()[i as int].0.form() != table.rows()[j].0.form());
        }
    }
}

/// A text is parsed as what it spells, and bytes likewise, or refused with the words of the error.
pub proof fn law_parsing_gives_what_is_spelled(
    words: &str,
    from_text: Result<Json, String>,
    bytes: &[u8],
    from_bytes: Result<Json, String>,
)
    requires
        call_ensures(json::parse_text, (words,), from_text),
        call_ensures(json::parse_bytes, (bytes,), from_bytes),
    ensures
        match json::json_of_text(words@) {
            Ok(value) => from_text is Ok && from_text->Ok_0@ == value,
            Err(said) => from_text is Err && from_text->Err_0@ == said,
        },
        match json::json_of_bytes(bytes@) {
            Ok(value) => from_bytes is Ok && from_bytes->Ok_0@ == value,
            Err(said) => from_bytes is Err && from_bytes->Err_0@ == said,
        },
{
}

} // verus!
