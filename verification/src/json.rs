//! JSON values as the server sends them.
use vstd::prelude::*;

use crate::number;
use crate::text;
use crate::text::same_text;

verus! {

/// A JSON value. A number is kept as the text that writes it down and, where it
/// is a whole number that fits, as that number.
#[derive(Debug)]
pub enum JsonValue {
    Null,
    Bool(bool),
    Number { integer: Option<i64>, text: String },
    Text(String),
    List(Vec<JsonValue>),
    Object(Vec<(String, JsonValue)>),
}

/// A JSON value, with its texts and lists as sequences.
pub enum JsonView {
    Null,
    Bool(bool),
    Number { integer: Option<i64>, text: Seq<char> },
    Text(Seq<char>),
    List(Seq<JsonView>),
    Object(Seq<(Seq<char>, JsonView)>),
}

impl View for JsonValue {
    type V = JsonView;

    open spec fn view(&self) -> JsonView {
        self.tree()
    }
}

impl JsonValue {
    /// The value, with its texts and lists as sequences.
    pub open spec fn tree(&self) -> JsonView
        decreases self,
    {
        match self {
            JsonValue::Null => JsonView::Null,
            JsonValue::Bool(b) => JsonView::Bool(*b),
            JsonValue::Number { integer, text } => JsonView::Number {
                integer: *integer,
                text: text@,
            },
            JsonValue::Text(text) => JsonView::Text(text@),
            JsonValue::List(items) => JsonView::List(
                Seq::new(
                    items@.len(),
                    |i: int|
                        if 0 <= i < items@.len() {
                            items@[i].tree()
                        } else {
                            JsonView::Null
                        },
                ),
            ),
            JsonValue::Object(entries) => JsonView::Object(
                Seq::new(
                    entries@.len(),
                    |i: int|
                        if 0 <= i < entries@.len() {
                            (entries@[i].0@, entries@[i].1.tree())
                        } else {
                            (Seq::empty(), JsonView::Null)
                        },
                ),
            ),
        }
    }
}

/// The view of what a parse gives.
pub open spec fn json_view(value: Option<JsonValue>) -> Option<JsonView> {
    match value {
        Some(found) => Some(found@),
        None => None,
    }
}

/// The first value that `entries` hold under `key`.
pub open spec fn entry(entries: Seq<(Seq<char>, JsonView)>, key: Seq<char>) -> Option<JsonView>
    decreases entries.len(),
{
    if entries.len() == 0 {
        None
    } else if entries[0].0 == key {
        Some(entries[0].1)
    } else {
        entry(entries.drop_first(), key)
    }
}

impl JsonView {
    /// Whether the text of each number in the value writes down a number.
    pub open spec fn sound(self) -> bool
        decreases self,
    {
        match self {
            JsonView::Number { text, .. } => number::is_float_text(text),
            JsonView::List(items) => forall|i: int|
                0 <= i < items.len() ==> (#[trigger] items[i]).sound(),
            JsonView::Object(entries) => forall|i: int|
                0 <= i < entries.len() ==> (#[trigger] entries[i]).1.sound(),
            _ => true,
        }
    }

    /// The value under `key`, where this is an object that has one.
    pub open spec fn field(self, key: Seq<char>) -> Option<JsonView> {
        match self {
            JsonView::Object(entries) => entry(entries, key),
            _ => None,
        }
    }

    /// The text, where this is one.
    pub open spec fn as_text(self) -> Option<Seq<char>> {
        match self {
            JsonView::Text(text) => Some(text),
            _ => None,
        }
    }

    /// The text under `key`, where there is one.
    pub open spec fn text_field(self, key: Seq<char>) -> Option<Seq<char>> {
        match self.field(key) {
            Some(value) => value.as_text(),
            None => None,
        }
    }
}

impl JsonValue {
    /// The value under `key`, where this is an object that has one.
    pub fn get(&self, key: &str) -> (found: Option<&JsonValue>)
        ensures
            match found {
                Some(value) => self@.field(key@) == Some(value@),
                None => self@.field(key@) is None,
            },
    {
        match self {
            JsonValue::Object(entries) => {
                let ghost all = self@->Object_0;
                assert(all.skip(0) =~= all);
                for i in 0..entries.len()
                    invariant
                        all.len() == entries@.len(),
                        self@ == JsonView::Object(all),
                        forall|j: int|
                            0 <= j < all.len() ==> #[trigger] all[j] == (
                                entries@[j].0@,
                                entries@[j].1@,
                            ),
                        entry(all, key@) == entry(all.skip(i as int), key@),
                {
                    assert(all.skip(i as int)[0] == all[i as int]);
                    if same_text(entries[i].0.as_str(), key) {
                        return Some(&entries[i].1);
                    }
                    assert(all.skip(i as int).drop_first() =~= all.skip(i + 1));
                }
                None
            },
            _ => None,
        }
    }

    /// The text, where this is one.
    pub fn as_str(&self) -> (found: Option<&str>)
        ensures
            match found {
                Some(text) => self@.as_text() == Some(text@),
                None => self@.as_text() is None,
            },
    {
        match self {
            JsonValue::Text(text) => Some(text.as_str()),
            _ => None,
        }
    }

    /// The text under `key`, where there is one.
    pub fn get_str(&self, key: &str) -> (found: Option<&str>)
        ensures
            match found {
                Some(text) => self@.text_field(key@) == Some(text@),
                None => self@.text_field(key@) is None,
            },
    {
        match self.get(key) {
            Some(value) => value.as_str(),
            None => None,
        }
    }
}

/// `Value` of the crate `serde_json`: what its parser makes of a document.
#[verifier::external_type_specification]
#[verifier::external_body]
pub struct ExValue(serde_json::Value);

/// What a `Value` of the crate `serde_json` holds.
pub uninterp spec fn value_tree(value: serde_json::Value) -> JsonView;

/// The value that `document` writes down, where it is JSON: what
/// `serde_json::from_str` makes of it.
pub uninterp spec fn parsed_json(document: Seq<char>) -> Option<JsonView>;

/// A `Value` of the crate `serde_json`, opened by one level.
enum OpenValue {
    Null,
    Bool(bool),
    Number { integer: Option<i64>, text: String },
    Text(String),
    List(Vec<serde_json::Value>),
    Object(Vec<(String, serde_json::Value)>),
}

/// What an opened value holds.
spec fn open_tree(open: OpenValue) -> JsonView {
    match open {
        OpenValue::Null => JsonView::Null,
        OpenValue::Bool(b) => JsonView::Bool(b),
        OpenValue::Number { integer, text } => JsonView::Number { integer, text: text@ },
        OpenValue::Text(text) => JsonView::Text(text@),
        OpenValue::List(items) => JsonView::List(
            Seq::new(items@.len(), |i: int| value_tree(items@[i])),
        ),
        OpenValue::Object(entries) => JsonView::Object(
            Seq::new(entries@.len(), |i: int| (entries@[i].0@, value_tree(entries@[i].1))),
        ),
    }
}

/// The variants of `Value` of the crate `serde_json`, told apart: a number is
/// given by `Number::as_i64` and its text, an object by its entries in the order
/// of its map. Claims that these are what the value holds, and that the text of a
/// number writes down a number.
#[verifier::external_body]
fn open_value(value: serde_json::Value) -> (open: OpenValue)
    ensures
        open_tree(open) == value_tree(value),
        open matches OpenValue::Number { text, .. } ==> number::is_float_text(text@),
{
    match value {
        serde_json::Value::Null => OpenValue::Null,
        serde_json::Value::Bool(b) => OpenValue::Bool(b),
        serde_json::Value::Number(n) => OpenValue::Number {
            integer: n.as_i64(),
            text: n.to_string(),
        },
        serde_json::Value::String(text) => OpenValue::Text(text),
        serde_json::Value::Array(items) => OpenValue::List(items),
        serde_json::Value::Object(map) => OpenValue::Object(map.into_iter().collect()),
    }
}

/// `serde_json::from_str` to a `Value`. Claims that whether there is one, and
/// what it holds, is settled by the text alone; what that is for a given text is
/// left to that crate.
#[verifier::external_body]
fn read_value(document: &str) -> (value: Option<serde_json::Value>)
    ensures
        match value {
            Some(found) => parsed_json(document@) == Some(value_tree(found)),
            None => parsed_json(document@) is None,
        },
{
    serde_json::from_str::<serde_json::Value>(document).ok()
}

/// Takes over a value with all that it holds.
fn take_over(value: serde_json::Value) -> (taken: JsonValue)
    ensures
        taken@ == value_tree(value),
        taken@.sound(),
    decreases value_tree(value),
{
    let ghost whole = value_tree(value);
    match open_value(value) {
        OpenValue::Null => JsonValue::Null,
        OpenValue::Bool(b) => JsonValue::Bool(b),
        OpenValue::Number { integer, text } => JsonValue::Number { integer, text },
        OpenValue::Text(text) => JsonValue::Text(text),
        OpenValue::List(items) => {
            let mut taken: Vec<JsonValue> = Vec::new();
            for item in it: items
                invariant
                    whole == value_tree(value),
                    whole == JsonView::List(
                        Seq::new(it.seq().len(), |i: int| value_tree(it.seq()[i])),
                    ),
                    taken@.len() == it.index(),
                    forall|i: int|
                        0 <= i < taken@.len() ==> (#[trigger] taken@[i])@ == value_tree(
                            it.seq()[i],
                        ) && taken@[i]@.sound(),
            {
                proof {
                    let k = it.index();
                    assert(it.seq()[k] == item);
                    assert(whole->List_0[k] == value_tree(item));
                    assert(decreases_to!(whole => whole->List_0));
                    assert(decreases_to!(whole->List_0 => whole->List_0[k]));
                }
                taken.push(take_over(item));
            }
            let list = JsonValue::List(taken);
            assert(list@->List_0 =~= whole->List_0);
            list
        },
        OpenValue::Object(entries) => {
            let mut taken: Vec<(String, JsonValue)> = Vec::new();
            for entry in it: entries
                invariant
                    whole == value_tree(value),
                    whole == JsonView::Object(
                        Seq::new(
                            it.seq().len(),
                            |i: int| (it.seq()[i].0@, value_tree(it.seq()[i].1)),
                        ),
                    ),
                    taken@.len() == it.index(),
                    forall|i: int|
                        0 <= i < taken@.len() ==> (#[trigger] taken@[i]).0@ == it.seq()[i].0@
                            && taken@[i].1@ == value_tree(it.seq()[i].1) && taken@[i].1@.sound(),
            {
                let (key, item) = entry;
                proof {
                    let k = it.index();
                    assert(it.seq()[k] == entry);
                    assert(whole->Object_0[k].1 == value_tree(item));
                    assert(decreases_to!(whole => whole->Object_0));
                    assert(decreases_to!(whole->Object_0 => whole->Object_0[k]));
                    assert(decreases_to!(whole->Object_0[k] => whole->Object_0[k].1));
                }
                taken.push((key, take_over(item)));
            }
            let object = JsonValue::Object(taken);
            assert(object@->Object_0 =~= whole->Object_0);
            object
        },
    }
}

/// The value that `document` writes down, where it is JSON.
pub(crate) fn parse_json(document: &str) -> (value: Option<JsonValue>)
    ensures
        json_view(value) == parsed_json(document@),
        value matches Some(found) ==> found@.sound(),
{
    match read_value(document) {
        Some(value) => Some(take_over(value)),
        None => None,
    }
}

} // verus!
