//! What holds of the values that JSON objects hold.
use vstd::prelude::*;

use crate::json;
use crate::json::{JsonValue, JsonView};

verus! {

/// Whether `found` stands under `key`: in the first entry of an object with that
/// name.
pub open spec fn stands_under(value: JsonView, key: Seq<char>, found: JsonView) -> bool {
    value is Object && exists|k: int|
        {
            &&& 0 <= k < value->Object_0.len()
            &&& #[trigger] value->Object_0[k] == (key, found)
            &&& forall|j: int| 0 <= j < k ==> (#[trigger] value->Object_0[j]).0 != key
        }
}

/// Whether nothing stands under `key`: there is no object, or none of its entries
/// has that name.
pub open spec fn lacks(value: JsonView, key: Seq<char>) -> bool {
    value is Object ==> forall|i: int|
        0 <= i < value->Object_0.len() ==> (#[trigger] value->Object_0[i]).0 != key
}

proof fn lemma_entry(entries: Seq<(Seq<char>, JsonView)>, key: Seq<char>) -> (k: int)
    ensures
        0 <= k <= entries.len(),
        forall|j: int| 0 <= j < k ==> (#[trigger] entries[j]).0 != key,
        k < entries.len() ==> entries[k].0 == key && json::entry(entries, key) == Some(
            entries[k].1,
        ),
        k == entries.len() ==> json::entry(entries, key) is None,
    decreases entries.len(),
{
    if entries.len() == 0 || entries[0].0 == key {
        0
    } else {
        let rest = entries.drop_first();
        let k = lemma_entry(rest, key);
        assert forall|j: int| 0 <= j < k + 1 implies (#[trigger] entries[j]).0 != key by {
            if j > 0 {
                assert(rest[j - 1] == entries[j]);
            }
        }
        k + 1
    }
}

/// What is found under a name is what stands there, and nothing is found where
/// nothing does.
pub proof fn fields_are_what_stands_there(value: JsonView, key: Seq<char>, found: JsonView)
    ensures
        value.field(key) == Some(found) <==> stands_under(value, key, found),
        value.field(key) is None <==> lacks(value, key),
{
    if value is Object {
        let entries = value->Object_0;
        let k = lemma_entry(entries, key);
        if stands_under(value, key, found) {
            let m = choose|m: int|
                {
                    &&& 0 <= m < entries.len()
                    &&& #[trigger] entries[m] == (key, found)
                    &&& forall|j: int| 0 <= j < m ==> (#[trigger] entries[j]).0 != key
                };
            if m < k {
                assert(entries[m].0 != key);
            } else if k < m {
                assert(entries[k].0 != key);
            }
        }
        if value.field(key) == Some(found) {
            assert(entries[k] == (key, found));
        }
        if lacks(value, key) && k < entries.len() {
            assert(entries[k].0 != key);
        }
    }
}

/// A text is a text, and nothing else is; under a name there is one just where
/// one stands there.
pub proof fn texts_are_told_apart(value: JsonView, key: Seq<char>, wanted: Seq<char>)
    ensures
        value.as_text() == Some(wanted) <==> value == JsonView::Text(wanted),
        value.text_field(key) == Some(wanted) <==> stands_under(
            value,
            key,
            JsonView::Text(wanted),
        ),
{
    fields_are_what_stands_there(value, key, JsonView::Text(wanted));
}

/// The view of a value holds all that the value does, in the same places.
pub proof fn views_hold_the_whole_value(value: JsonValue)
    ensures
        match value {
            JsonValue::Null => value@ == JsonView::Null,
            JsonValue::Bool(b) => value@ == JsonView::Bool(b),
            JsonValue::Number { integer, text } => value@ == (JsonView::Number {
                integer,
                text: text@,
            }),
            JsonValue::Text(text) => value@ == JsonView::Text(text@),
            JsonValue::List(items) => {
                &&& value@ is List
                &&& value@->List_0.len() == items@.len()
                &&& forall|i: int|
                    0 <= i < items@.len() ==> #[trigger] value@->List_0[i] == items@[i]@
            },
            JsonValue::Object(entries) => {
                &&& value@ is Object
                &&& value@->Object_0.len() == entries@.len()
                &&& forall|i: int|
                    0 <= i < entries@.len() ==> #[trigger] value@->Object_0[i] == (
                        entries@[i].0@,
                        entries@[i].1@,
                    )
            },
        },
        json::json_view(Some(value)) == Some(value@),
        json::json_view(None) is None,
{
}

} // verus!
