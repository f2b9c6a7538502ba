//! JSON values: what they hold, how their fields are read and changed, and when two of them
//! are equal.

use crate::text::{same_text, text_before, text_less};
use crate::text::{less_is_irreflexive, less_is_total, less_is_transitive};
use serde_json::Value;
use vstd::prelude::*;

verus! {

/// A JSON number. A number that is no integer of 64 bits is kept as its shortest decimal text.
#[derive(Debug)]
pub enum Number {
    Unsigned(u64),
    Negative(i64),
    Float(String),
}

/// A JSON value. The entries of an object stand in the order of their keys, each key once.
#[derive(Debug)]
pub enum Json {
    Null,
    Bool(bool),
    Number(Number),
    Text(String),
    Array(Vec<Json>),
    Object(Vec<(String, Json)>),
}

/// What a JSON number is.
pub enum NumberModel {
    Unsigned(u64),
    Negative(i64),
    Float(Seq<char>),
}

/// What a JSON value is: an object is a map from its keys.
pub enum JsonModel {
    Null,
    Bool(bool),
    Number(NumberModel),
    Text(Seq<char>),
    Array(Seq<JsonModel>),
    Object(Map<Seq<char>, JsonModel>),
}

impl JsonModel {
    /// The field of an object; nothing else has fields.
    pub open spec fn field(self, key: Seq<char>) -> Option<JsonModel> {
        match self {
            JsonModel::Object(m) => if m.contains_key(key) {
                Some(m[key])
            } else {
                None
            },
            _ => None,
        }
    }

    /// The characters of a text value.
    pub open spec fn text(self) -> Option<Seq<char>> {
        match self {
            JsonModel::Text(t) => Some(t),
            _ => None,
        }
    }
}

/// The object without fields.
pub open spec fn empty_object() -> JsonModel {
    JsonModel::Object(Map::empty())
}

/// The text is one of the two zeros that a number without integer value can be.
pub open spec fn is_float_zero(text: Seq<char>) -> bool {
    text == "0.0"@ || text == "-0.0"@
}

/// Two numbers are equal: both are the same integer, or both are no integers and equal.
pub open spec fn same_number(a: NumberModel, b: NumberModel) -> bool {
    match (a, b) {
        (NumberModel::Unsigned(x), NumberModel::Unsigned(y)) => x == y,
        (NumberModel::Negative(x), NumberModel::Negative(y)) => x == y,
        (NumberModel::Float(x), NumberModel::Float(y)) => x == y || is_float_zero(x)
            && is_float_zero(y),
        _ => false,
    }
}

/// Two JSON values are equal: arrays item by item, objects field by field.
pub open spec fn same_json(a: JsonModel, b: JsonModel) -> bool
    decreases a,
{
    match (a, b) {
        (JsonModel::Null, JsonModel::Null) => true,
        (JsonModel::Bool(x), JsonModel::Bool(y)) => x == y,
        (JsonModel::Number(x), JsonModel::Number(y)) => same_number(x, y),
        (JsonModel::Text(x), JsonModel::Text(y)) => x == y,
        (JsonModel::Array(x), JsonModel::Array(y)) => {
            &&& x.len() == y.len()
            &&& forall|i: int| 0 <= i < x.len() ==> same_json(#[trigger] x[i], y[i])
        },
        (JsonModel::Object(x), JsonModel::Object(y)) => {
            &&& x.dom() == y.dom()
            &&& forall|k: Seq<char>| x.contains_key(k) ==> same_json(#[trigger] x[k], y[k])
        },
        _ => false,
    }
}

/// Every JSON value equals itself.
pub proof fn same_json_is_reflexive(a: JsonModel)
    ensures
        same_json(a, a),
    decreases a,
{
    match a {
        JsonModel::Array(items) => {
            assert forall|i: int| 0 <= i < items.len() implies same_json(
                #[trigger] items[i],
                items[i],
            ) by {
                same_json_is_reflexive(items[i]);
            }
        },
        JsonModel::Object(fields) => {
            assert forall|k: Seq<char>| fields.contains_key(k) implies same_json(
                #[trigger] fields[k],
                fields[k],
            ) by {
                same_json_is_reflexive(fields[k]);
            }
        },
        _ => {},
    }
}

/// Equality of JSON values goes both ways.
pub proof fn same_json_is_symmetric(a: JsonModel, b: JsonModel)
    requires
        same_json(a, b),
    ensures
        same_json(b, a),
    decreases a,
{
    match (a, b) {
        (JsonModel::Array(x), JsonModel::Array(y)) => {
            assert forall|i: int| 0 <= i < y.len() implies same_json(#[trigger] y[i], x[i]) by {
                assert(same_json(x[i], y[i]));
                same_json_is_symmetric(x[i], y[i]);
            }
        },
        (JsonModel::Object(x), JsonModel::Object(y)) => {
            assert forall|k: Seq<char>| y.contains_key(k) implies same_json(
                #[trigger] y[k],
                x[k],
            ) by {
                assert(x.dom().contains(k));
                assert(same_json(x[k], y[k]));
                same_json_is_symmetric(x[k], y[k]);
            }
        },
        _ => {},
    }
}

impl View for Number {
    type V = NumberModel;

    open spec fn view(&self) -> NumberModel {
        match *self {
            Number::Unsigned(n) => NumberModel::Unsigned(n),
            Number::Negative(n) => NumberModel::Negative(n),
            Number::Float(t) => NumberModel::Float(t@),
        }
    }
}

/// The key stands at position `i`.
pub open spec fn key_at(entries: Seq<(String, Json)>, key: Seq<char>, i: int) -> bool {
    0 <= i < entries.len() && entries[i].0@ == key
}

/// The entries as a map from their keys.
pub open spec fn fields_of(entries: Seq<(String, Json)>) -> Map<Seq<char>, JsonModel>
    decreases entries,
{
    Map::new(
        |key: Seq<char>| exists|i: int| key_at(entries, key, i),
        |key: Seq<char>|
            {
                let i = choose|i: int| key_at(entries, key, i);
                if 0 <= i < entries.len() {
                    entries[i].1.model()
                } else {
                    JsonModel::Null
                }
            },
    )
}

/// Each key comes before all that follow it.
pub open spec fn keys_ascend(entries: Seq<(String, Json)>) -> bool {
    forall|i: int, j: int|
        0 <= i < j < entries.len() ==> text_less(
            (#[trigger] entries[i]).0@,
            (#[trigger] entries[j]).0@,
        )
}

impl Json {
    /// What the value is.
    pub open spec fn model(self) -> JsonModel
        decreases self,
    {
        match self {
            Json::Null => JsonModel::Null,
            Json::Bool(b) => JsonModel::Bool(b),
            Json::Number(n) => JsonModel::Number(n@),
            Json::Text(t) => JsonModel::Text(t@),
            Json::Array(items) => JsonModel::Array(
                Seq::new(
                    items@.len(),
                    |i: int|
                        if 0 <= i < items@.len() {
                            items@[i].model()
                        } else {
                            JsonModel::Null
                        },
                ),
            ),
            Json::Object(entries) => JsonModel::Object(fields_of(entries@)),
        }
    }

    /// The entries of every object in the value stand in the order of their keys.
    pub open spec fn wf(self) -> bool
        decreases self,
    {
        match self {
            Json::Array(items) => forall|i: int|
                0 <= i < items@.len() ==> (#[trigger] items@[i]).wf(),
            Json::Object(entries) => {
                &&& keys_ascend(entries@)
                &&& forall|i: int| 0 <= i < entries@.len() ==> (#[trigger] entries@[i]).1.wf()
            },
            _ => true,
        }
    }
}

impl View for Json {
    type V = JsonModel;

    open spec fn view(&self) -> JsonModel {
        self.model()
    }
}

/// Entries that stand in the order of their keys and hold such values.
pub open spec fn entries_wf(entries: Seq<(String, Json)>) -> bool {
    &&& keys_ascend(entries)
    &&& forall|i: int| 0 <= i < entries.len() ==> (#[trigger] entries[i]).1.wf()
}

/// A key stands at one position only.
proof fn key_is_unique(entries: Seq<(String, Json)>, key: Seq<char>, i: int, j: int)
    requires
        keys_ascend(entries),
        key_at(entries, key, i),
        key_at(entries, key, j),
    ensures
        i == j,
{
    less_is_irreflexive(key);
    if i < j {
        assert(text_less(entries[i].0@, entries[j].0@));
    } else if j < i {
        assert(text_less(entries[j].0@, entries[i].0@));
    }
}

/// The map holds the value that stands beside the key.
pub proof fn field_at(entries: Seq<(String, Json)>, i: int)
    requires
        keys_ascend(entries),
        0 <= i < entries.len(),
    ensures
        fields_of(entries).contains_key(entries[i].0@),
        fields_of(entries)[entries[i].0@] == entries[i].1@,
{
    let key = entries[i].0@;
    assert(key_at(entries, key, i));
    let j = choose|j: int| key_at(entries, key, j);
    key_is_unique(entries, key, i, j);
}

/// A key of the map stands among the entries.
pub proof fn field_has_entry(entries: Seq<(String, Json)>, key: Seq<char>) -> (i: int)
    requires
        fields_of(entries).contains_key(key),
    ensures
        key_at(entries, key, i),
{
    choose|i: int| key_at(entries, key, i)
}

/// Entries with the same keys and values are the same map.
proof fn alike_entries_are_one_map(a: Seq<(String, Json)>, b: Seq<(String, Json)>)
    requires
        keys_ascend(a),
        a.len() == b.len(),
        forall|i: int|
            0 <= i < a.len() ==> (#[trigger] a[i]).0@ == b[i].0@ && a[i].1@ == b[i].1@,
    ensures
        keys_ascend(b),
        fields_of(a) == fields_of(b),
{
    assert forall|i: int, j: int| 0 <= i < j < b.len() implies text_less(
        (#[trigger] b[i]).0@,
        (#[trigger] b[j]).0@,
    ) by {
        assert(text_less(a[i].0@, a[j].0@));
    }
    assert forall|key: Seq<char>|
        #[trigger] fields_of(a).contains_key(key) == fields_of(b).contains_key(key) && (fields_of(
            a,
        ).contains_key(key) ==> fields_of(a)[key] == fields_of(b)[key]) by {
        if fields_of(a).contains_key(key) {
            let i = field_has_entry(a, key);
            assert(key_at(b, key, i));
            field_at(a, i);
            field_at(b, i);
        }
        if fields_of(b).contains_key(key) {
            let i = field_has_entry(b, key);
            assert(a[i].0@ == b[i].0@);
            assert(key_at(a, key, i));
        }
    }
    assert(fields_of(a) =~= fields_of(b));
}

/// The position of a key among entries.
pub fn find_entry(entries: &Vec<(String, Json)>, key: &str) -> (found: Option<usize>)
    ensures
        match found {
            Some(i) => key_at(entries@, key@, i as int),
            None => !fields_of(entries@).contains_key(key@),
        },
{
    let mut i: usize = 0;
    while i < entries.len()
        invariant
            i <= entries.len(),
            forall|j: int| 0 <= j < i ==> !key_at(entries@, key@, j),
        decreases entries.len() - i,
    {
        if same_text(entries[i].0.as_str(), key) {
            return Some(i);
        }
        i = i + 1;
    }
    None
}

/// Takes the entry of a key out.
pub fn remove_entry(entries: &mut Vec<(String, Json)>, key: &str) -> (taken: Option<Json>)
    requires
        entries_wf(old(entries)@),
    ensures
        entries_wf(final(entries)@),
        fields_of(final(entries)@) == fields_of(old(entries)@).remove(key@),
        match taken {
            Some(value) => {
                &&& value.wf()
                &&& fields_of(old(entries)@).contains_key(key@)
                &&& value@ == fields_of(old(entries)@)[key@]
            },
            None => !fields_of(old(entries)@).contains_key(key@),
        },
{
    let ghost before = entries@;
    match find_entry(entries, key) {
        Some(at) => {
            let entry = entries.remove(at);
            proof {
                let after = entries@;
                field_at(before, at as int);
                assert(after =~= before.remove(at as int));
                assert forall|i: int, j: int| 0 <= i < j < after.len() implies text_less(
                    (#[trigger] after[i]).0@,
                    (#[trigger] after[j]).0@,
                ) by {
                    let i2 = if i < at {
                        i
                    } else {
                        i + 1
                    };
                    let j2 = if j < at {
                        j
                    } else {
                        j + 1
                    };
                    assert(text_less(before[i2].0@, before[j2].0@));
                }
                assert forall|k: Seq<char>| #[trigger]
                    fields_of(after).contains_key(k) == fields_of(before).remove(
                        key@,
                    ).contains_key(k) && (fields_of(after).contains_key(k) ==> fields_of(after)[k]
                        == fields_of(before)[k]) by {
                    if fields_of(after).contains_key(k) {
                        let i = field_has_entry(after, k);
                        let i2 = if i < at {
                            i
                        } else {
                            i + 1
                        };
                        field_at(after, i);
                        field_at(before, i2);
                        if k == key@ {
                            key_is_unique(before, k, i2, at as int);
                        }
                    }
                    if fields_of(before).contains_key(k) && k != key@ {
                        let i = field_has_entry(before, k);
                        let i2 = if i < at {
                            i
                        } else {
                            i - 1
                        };
                        assert(key_at(after, k, i2));
                    }
                }
                assert(fields_of(after) =~= fields_of(before).remove(key@));
            }
            Some(entry.1)
        },
        None => {
            assert(fields_of(before).remove(key@) =~= fields_of(before));
            None
        },
    }
}

/// Puts a value under a key, in place of the one that stood there.
pub fn insert_entry(entries: &mut Vec<(String, Json)>, key: String, value: Json)
    requires
        entries_wf(old(entries)@),
        value.wf(),
    ensures
        entries_wf(final(entries)@),
        fields_of(final(entries)@) == fields_of(old(entries)@).insert(key@, value@),
{
    let ghost wanted = fields_of(entries@).insert(key@, value@);
    remove_entry(entries, key.as_str());
    let ghost before = entries@;
    let mut at: usize = 0;
    while at < entries.len() && text_before(entries[at].0.as_str(), key.as_str())
        invariant
            at <= entries.len(),
            entries@ == before,
            forall|i: int| 0 <= i < at ==> text_less((#[trigger] before[i]).0@, key@),
        decreases entries.len() - at,
    {
        at = at + 1;
    }
    let ghost name = key@;
    let ghost held = value@;
    proof {
        assert forall|i: int| at <= i < before.len() implies text_less(
            name,
            (#[trigger] before[i]).0@,
        ) by {
            field_at(before, i);
            less_is_total(name, before[at as int].0@);
            field_at(before, at as int);
            if i > at {
                assert(text_less(before[at as int].0@, before[i].0@));
                less_is_transitive(name, before[at as int].0@, before[i].0@);
            }
        }
    }
    entries.insert(at, (key, value));
    proof {
        let after = entries@;
        assert forall|i: int, j: int| 0 <= i < j < after.len() implies text_less(
            (#[trigger] after[i]).0@,
            (#[trigger] after[j]).0@,
        ) by {
            if i < at && j > at {
                assert(text_less(before[i].0@, before[j - 1].0@));
            } else if i < at && j < at {
                assert(text_less(before[i].0@, before[j].0@));
            } else if i > at {
                assert(text_less(before[i - 1].0@, before[j - 1].0@));
            } else if i == at {
                assert(after[j] == before[j - 1]);
            } else {
                assert(after[i] == before[i]);
            }
        }
        assert(forall|i: int| 0 <= i < after.len() ==> (#[trigger] after[i]).1.wf());
        field_at(after, at as int);
        assert forall|k: Seq<char>| #[trigger]
            fields_of(after).contains_key(k) == wanted.contains_key(k) && (fields_of(
                after,
            ).contains_key(k) ==> fields_of(after)[k] == wanted[k]) by {
            if fields_of(after).contains_key(k) {
                let i = field_has_entry(after, k);
                field_at(after, i);
                if i < at {
                    field_at(before, i);
                } else if i > at {
                    field_at(before, i - 1);
                }
            }
            if wanted.contains_key(k) && k != name {
                assert(fields_of(before).contains_key(k));
                let i = field_has_entry(before, k);
                let i2 = if i < at {
                    i
                } else {
                    i + 1
                };
                assert(key_at(after, k, i2));
            }
        }
        assert(fields_of(after) =~= wanted);
    }
}

/// The last entry holds its key alone.
proof fn last_entry_parts(entries: Seq<(String, Json)>)
    requires
        entries_wf(entries),
        entries.len() > 0,
    ensures
        entries_wf(entries.drop_last()),
        !fields_of(entries.drop_last()).contains_key(entries.last().0@),
        fields_of(entries) == fields_of(entries.drop_last()).insert(
            entries.last().0@,
            entries.last().1@,
        ),
{
    let fewer = entries.drop_last();
    let last = entries.len() - 1;
    let key = entries.last().0@;
    assert(keys_ascend(fewer)) by {
        assert forall|i: int, j: int| 0 <= i < j < fewer.len() implies text_less(
            (#[trigger] fewer[i]).0@,
            (#[trigger] fewer[j]).0@,
        ) by {
            assert(text_less(entries[i].0@, entries[j].0@));
        }
    }
    if fields_of(fewer).contains_key(key) {
        let i = field_has_entry(fewer, key);
        assert(text_less(entries[i].0@, entries[last].0@));
        less_is_irreflexive(key);
    }
    field_at(entries, last);
    assert forall|k: Seq<char>| #[trigger]
        fields_of(entries).contains_key(k) == (k == key || fields_of(fewer).contains_key(k)) && (
        fields_of(fewer).contains_key(k) ==> fields_of(entries)[k] == fields_of(fewer)[k]) by {
        if fields_of(fewer).contains_key(k) {
            let i = field_has_entry(fewer, k);
            field_at(fewer, i);
            field_at(entries, i);
        }
        if fields_of(entries).contains_key(k) && k != key {
            let i = field_has_entry(entries, k);
            assert(key_at(fewer, k, i));
        }
    }
    assert(fields_of(entries) =~= fields_of(fewer).insert(key, entries.last().1@));
}

/// Puts all entries of `others` among `entries`, in place of those under the same key.
pub fn merge_entries(entries: &mut Vec<(String, Json)>, others: Vec<(String, Json)>)
    requires
        entries_wf(old(entries)@),
        entries_wf(others@),
    ensures
        entries_wf(final(entries)@),
        fields_of(final(entries)@) == fields_of(old(entries)@).union_prefer_right(
            fields_of(others@),
        ),
{
    let ghost wanted = fields_of(entries@).union_prefer_right(fields_of(others@));
    let mut left = others;
    while left.len() > 0
        invariant
            entries_wf(entries@),
            entries_wf(left@),
            fields_of(entries@).union_prefer_right(fields_of(left@)) == wanted,
        decreases left.len(),
    {
        let ghost held = fields_of(entries@);
        let ghost waiting = left@;
        proof {
            last_entry_parts(waiting);
        }
        match left.pop() {
            Some((key, value)) => {
                let ghost name = key@;
                let ghost what = value@;
                insert_entry(entries, key, value);
                proof {
                    assert(left@ =~= waiting.drop_last());
                    assert(held.insert(name, what).union_prefer_right(fields_of(left@))
                        =~= held.union_prefer_right(fields_of(left@).insert(name, what)));
                }
            },
            None => {},
        }
    }
    proof {
        assert(left@ =~= Seq::empty());
        assert forall|k: Seq<char>| !(#[trigger] fields_of(left@).contains_key(k)) by {
            if fields_of(left@).contains_key(k) {
                let i = field_has_entry(left@, k);
            }
        }
        assert(fields_of(entries@).union_prefer_right(fields_of(left@)) =~= fields_of(entries@));
    }
}

/// The entries of an object without fields.
proof fn no_entries_no_fields(entries: Seq<(String, Json)>)
    requires
        entries.len() == 0,
    ensures
        entries_wf(entries),
        fields_of(entries) == Map::<Seq<char>, JsonModel>::empty(),
{
    assert forall|k: Seq<char>| !(#[trigger] fields_of(entries).contains_key(k)) by {
        if fields_of(entries).contains_key(k) {
            let i = field_has_entry(entries, k);
        }
    }
    assert(fields_of(entries) =~= Map::empty());
}

/// The entries of a new object.
pub fn new_entries() -> (entries: Vec<(String, Json)>)
    ensures
        entries_wf(entries@),
        fields_of(entries@) == Map::<Seq<char>, JsonModel>::empty(),
{
    let entries: Vec<(String, Json)> = Vec::new();
    proof {
        no_entries_no_fields(entries@);
    }
    entries
}

impl Json {
    /// The field of an object under a key.
    pub fn get(&self, key: &str) -> (found: Option<&Json>)
        requires
            self.wf(),
        ensures
            match found {
                Some(value) => value.wf() && self@.field(key@) == Some(value@),
                None => self@.field(key@) is None,
            },
    {
        match self {
            Json::Object(entries) => match find_entry(entries, key) {
                Some(i) => {
                    proof {
                        field_at(entries@, i as int);
                    }
                    Some(&entries[i].1)
                },
                None => None,
            },
            _ => None,
        }
    }

    /// The characters of a text value.
    pub fn as_text(&self) -> (found: Option<&str>)
        ensures
            match found {
                Some(text) => self@.text() == Some(text@),
                None => self@.text() is None,
            },
    {
        match self {
            Json::Text(text) => Some(text.as_str()),
            _ => None,
        }
    }
}

/// Where two runs of ascending keys part, the smaller key is missing from the other run.
proof fn parting_key_is_missing(a: Seq<(String, Json)>, b: Seq<(String, Json)>, i: int)
    requires
        keys_ascend(a),
        keys_ascend(b),
        0 <= i < a.len(),
        i <= b.len(),
        forall|j: int| 0 <= j < i ==> (#[trigger] a[j]).0@ == b[j].0@,
        i == b.len() || text_less(a[i].0@, b[i].0@),
    ensures
        fields_of(a).dom() != fields_of(b).dom(),
{
    let key = a[i].0@;
    field_at(a, i);
    assert(fields_of(a).dom().contains(key));
    if fields_of(b).dom().contains(key) {
        let j = field_has_entry(b, key);
        less_is_irreflexive(key);
        if j < i {
            assert(text_less(a[j].0@, a[i].0@));
        } else if j > i {
            assert(text_less(b[i].0@, b[j].0@));
            less_is_transitive(key, b[i].0@, b[j].0@);
        }
    }
}

impl Number {
    /// Whether two numbers are equal.
    pub fn same(&self, other: &Number) -> (same: bool)
        ensures
            same == same_number(self@, other@),
    {
        match (self, other) {
            (Number::Unsigned(x), Number::Unsigned(y)) => *x == *y,
            (Number::Negative(x), Number::Negative(y)) => *x == *y,
            (Number::Float(x), Number::Float(y)) => {
                let x_zero = same_text(x.as_str(), "0.0") || same_text(x.as_str(), "-0.0");
                let y_zero = same_text(y.as_str(), "0.0") || same_text(y.as_str(), "-0.0");
                same_text(x.as_str(), y.as_str()) || (x_zero && y_zero)
            },
            _ => false,
        }
    }
}

impl Json {
    /// Whether two JSON values are equal.
    pub fn same(&self, other: &Json) -> (same: bool)
        requires
            self.wf(),
            other.wf(),
        ensures
            same == same_json(self@, other@),
        decreases self,
    {
        match (self, other) {
            (Json::Null, Json::Null) => true,
            (Json::Bool(x), Json::Bool(y)) => *x == *y,
            (Json::Number(x), Json::Number(y)) => x.same(y),
            (Json::Text(x), Json::Text(y)) => same_text(x.as_str(), y.as_str()),
            (Json::Array(x), Json::Array(y)) => Self::same_items(x, y),
            (Json::Object(x), Json::Object(y)) => Self::same_entries(x, y),
            _ => false,
        }
    }

    fn same_items(x: &Vec<Json>, y: &Vec<Json>) -> (same: bool)
        requires
            Json::Array(*x).wf(),
            Json::Array(*y).wf(),
        ensures
            same == same_json(Json::Array(*x)@, Json::Array(*y)@),
        decreases x,
    {
        let ghost a = Json::Array(*x)@->Array_0;
        let ghost b = Json::Array(*y)@->Array_0;
        assert(Json::Array(*x)@ == JsonModel::Array(a));
        assert(Json::Array(*y)@ == JsonModel::Array(b));
        if x.len() != y.len() {
            return false;
        }
        let mut i: usize = 0;
        while i < x.len()
            invariant
                x.len() == y.len(),
                i <= x.len(),
                Json::Array(*x).wf(),
                Json::Array(*y).wf(),
                a == Json::Array(*x)@->Array_0,
                b == Json::Array(*y)@->Array_0,
                Json::Array(*x)@ == JsonModel::Array(a),
                Json::Array(*y)@ == JsonModel::Array(b),
                forall|j: int| 0 <= j < i ==> same_json(#[trigger] a[j], b[j]),
            decreases x.len() - i,
        {
            assert(a[i as int] == x@[i as int]@);
            assert(b[i as int] == y@[i as int]@);
            if !x[i].same(&y[i]) {
                assert(!same_json(a[i as int], b[i as int]));
                return false;
            }
            i = i + 1;
        }
        true
    }

    fn same_entries(x: &Vec<(String, Json)>, y: &Vec<(String, Json)>) -> (same: bool)
        requires
            entries_wf(x@),
            entries_wf(y@),
        ensures
            same == same_json(
                JsonModel::Object(fields_of(x@)),
                JsonModel::Object(fields_of(y@)),
            ),
        decreases x,
    {
        let ghost a = fields_of(x@);
        let ghost b = fields_of(y@);
        let mut i: usize = 0;
        while i < x.len() && i < y.len()
            invariant
                i <= x.len(),
                i <= y.len(),
                entries_wf(x@),
                entries_wf(y@),
                a == fields_of(x@),
                b == fields_of(y@),
                forall|j: int| 0 <= j < i ==> (#[trigger] x@[j]).0@ == y@[j].0@,
                forall|j: int| 0 <= j < i ==> same_json((#[trigger] x@[j]).1@, y@[j].1@),
            decreases x.len() - i,
        {
            if !same_text(x[i].0.as_str(), y[i].0.as_str()) {
                proof {
                    less_is_total(x@[i as int].0@, y@[i as int].0@);
                    if text_less(x@[i as int].0@, y@[i as int].0@) {
                        parting_key_is_missing(x@, y@, i as int);
                    } else {
                        parting_key_is_missing(y@, x@, i as int);
                    }
                }
                return false;
            }
            if !x[i].1.same(&y[i].1) {
                proof {
                    let key = x@[i as int].0@;
                    field_at(x@, i as int);
                    field_at(y@, i as int);
                    assert(!same_json(a[key], b[key]));
                }
                return false;
            }
            i = i + 1;
        }
        if i < x.len() {
            proof {
                parting_key_is_missing(x@, y@, i as int);
            }
            return false;
        }
        if i < y.len() {
            proof {
                parting_key_is_missing(y@, x@, i as int);
            }
            return false;
        }
        proof {
            assert forall|k: Seq<char>| #[trigger] a.contains_key(k) == b.contains_key(k) by {
                if a.contains_key(k) {
                    let j = field_has_entry(x@, k);
                    assert(x@[j].0@ == y@[j].0@);
                    field_at(y@, j);
                }
                if b.contains_key(k) {
                    let j = field_has_entry(y@, k);
                    assert(x@[j].0@ == y@[j].0@);
                    field_at(x@, j);
                }
            }
            assert(a.dom() =~= b.dom());
            assert forall|k: Seq<char>| a.contains_key(k) implies same_json(
                #[trigger] a[k],
                b[k],
            ) by {
                let j = field_has_entry(x@, k);
                assert(x@[j].0@ == y@[j].0@);
                field_at(x@, j);
                field_at(y@, j);
            }
        }
        true
    }

    fn copied(&self) -> (copy: Json)
        ensures
            self.wf() ==> copy@ == self@ && copy.wf(),
        decreases self,
    {
        match self {
            Json::Null => Json::Null,
            Json::Bool(b) => Json::Bool(*b),
            Json::Number(Number::Unsigned(n)) => Json::Number(Number::Unsigned(*n)),
            Json::Number(Number::Negative(n)) => Json::Number(Number::Negative(*n)),
            Json::Number(Number::Float(t)) => Json::Number(Number::Float(t.clone())),
            Json::Text(t) => Json::Text(t.clone()),
            Json::Array(items) => {
                let copies = Self::copied_items(items);
                assert(self.wf() ==> Json::Array(copies)@->Array_0 =~= self@->Array_0);
                Json::Array(copies)
            },
            Json::Object(entries) => Json::Object(Self::copied_entries(entries)),
        }
    }

    fn copied_items(items: &Vec<Json>) -> (copies: Vec<Json>)
        ensures
            copies.len() == items.len(),
            forall|j: int|
                0 <= j < items.len() && items@[j].wf() ==> (#[trigger] copies@[j])@ == items@[j]@
                    && copies@[j].wf(),
        decreases items,
    {
        let mut copies: Vec<Json> = Vec::new();
        let mut i: usize = 0;
        while i < items.len()
            invariant
                i <= items.len(),
                copies.len() == i,
                forall|j: int|
                    0 <= j < i && items@[j].wf() ==> (#[trigger] copies@[j])@ == items@[j]@
                        && copies@[j].wf(),
            decreases items.len() - i,
        {
            copies.push(items[i].copied());
            i = i + 1;
        }
        copies
    }

    fn copied_entries(entries: &Vec<(String, Json)>) -> (copies: Vec<(String, Json)>)
        ensures
            entries_wf(entries@) ==> entries_wf(copies@) && fields_of(copies@) == fields_of(
                entries@,
            ),
        decreases entries,
    {
        let mut copies: Vec<(String, Json)> = Vec::new();
        let mut i: usize = 0;
        while i < entries.len()
            invariant
                i <= entries.len(),
                copies.len() == i,
                entries_wf(entries@) ==> forall|j: int|
                    0 <= j < i ==> (#[trigger] copies@[j]).0@ == entries@[j].0@ && copies@[j].1@
                        == entries@[j].1@ && copies@[j].1.wf(),
            decreases entries.len() - i,
        {
            copies.push((entries[i].0.clone(), entries[i].1.copied()));
            i = i + 1;
        }
        proof {
            if entries_wf(entries@) {
                assert forall|j: int| 0 <= j < entries@.len() implies (#[trigger] entries@[j]).0@
                    == copies@[j].0@ && entries@[j].1@ == copies@[j].1@ by {
                    assert(copies@[j].0@ == entries@[j].0@);
                }
                alike_entries_are_one_map(entries@, copies@);
            }
        }
        copies
    }
}

impl Clone for Json {
    fn clone(&self) -> (copy: Json)
        ensures
            self.wf() ==> copy@ == self@ && copy.wf(),
    {
        self.copied()
    }
}

/// The JSON tree of `serde_json`, which holds a value of each kind and keeps the fields of an
/// object in a map that is ordered by key.
#[verifier::external_type_specification]
#[verifier::external_body]
pub struct ExValue(Value);

/// What a JSON tree of `serde_json` holds.
pub uninterp spec fn tree_contents(tree: Value) -> JsonModel;

/// What the bytes say as JSON text, if they are JSON text.
pub uninterp spec fn parsed_json(bytes: Seq<u8>) -> Option<JsonModel>;

/// Calls `serde_json::from_slice`. Claimed: whether the bytes are JSON text, and what the tree
/// that comes back holds, depends on the bytes alone. The grammar is not spelled out.
#[verifier::external_body]
fn read_tree(bytes: &[u8]) -> (tree: Option<Value>)
    ensures
        match tree {
            Some(tree) => parsed_json(bytes@) == Some(tree_contents(tree)),
            None => parsed_json(bytes@) is None,
        },
{
    serde_json::from_slice(bytes).ok()
}

/// Takes a `serde_json::Value` apart, variant by variant. Claimed: what comes out is what the
/// tree holds, and the entries of its objects come in the order of their keys, as the map of
/// `serde_json` hands them out.
#[verifier::external_body]
fn json_of_tree(tree: &Value) -> (json: Json)
    ensures
        json@ == tree_contents(*tree),
        json.wf(),
{
    match tree {
        Value::Null => Json::Null,
        Value::Bool(b) => Json::Bool(*b),
        Value::Number(n) => Json::Number(match (n.as_u64(), n.as_i64()) {
            (Some(u), _) => Number::Unsigned(u),
            (_, Some(i)) => Number::Negative(i),
            _ => Number::Float(n.to_string()),
        }),
        Value::String(s) => Json::Text(s.clone()),
        Value::Array(a) => Json::Array(a.iter().map(json_of_tree).collect()),
        Value::Object(m) => {
            Json::Object(m.iter().map(|(k, v)| (k.clone(), json_of_tree(v))).collect())
        },
    }
}

/// Reads JSON text.
pub fn parse_json(bytes: &[u8]) -> (json: Option<Json>)
    ensures
        match json {
            Some(json) => json.wf() && parsed_json(bytes@) == Some(json@),
            None => parsed_json(bytes@) is None,
        },
{
    match read_tree(bytes) {
        Some(tree) => Some(json_of_tree(&tree)),
        None => None,
    }
}

/// Plain values are equal where they are the same: no text, truth value or integer equals another
/// one. Numbers that are no integers are equal where they are written alike, and the two zeros
/// among them are.
pub proof fn plain_values_are_equal_to_themselves_only(a: JsonModel, b: JsonModel)
    requires
        !(a is Array) && !(a is Object),
    ensures
        same_json(a, b) <==> a == b || {
            let zeros = |v: JsonModel|
                v == JsonModel::Number(NumberModel::Float("0.0"@)) || v == JsonModel::Number(
                    NumberModel::Float("-0.0"@),
                );
            zeros(a) && zeros(b)
        },
{
}

/// Arrays are equal to arrays only: to those of the same length that are equal item by item.
pub proof fn arrays_are_equal_item_by_item(x: Seq<JsonModel>, b: JsonModel)
    ensures
        same_json(JsonModel::Array(x), b) <==> (b matches JsonModel::Array(y) && x.len() == y.len()
            && forall|i: int| 0 <= i < x.len() ==> same_json(#[trigger] x[i], y[i])),
{
}

/// Objects are equal to objects only: to those with the same keys that are equal field by field.
pub proof fn objects_are_equal_field_by_field(x: Map<Seq<char>, JsonModel>, b: JsonModel)
    ensures
        same_json(JsonModel::Object(x), b) <==> (b matches JsonModel::Object(y) && (forall|
            k: Seq<char>,
        | #[trigger] x.contains_key(k) <==> y.contains_key(k)) && forall|k: Seq<char>|
            x.contains_key(k) ==> same_json(#[trigger] x[k], y[k])),
{
    if let JsonModel::Object(y) = b {
        if forall|k: Seq<char>| #[trigger] x.contains_key(k) <==> y.contains_key(k) {
            assert(x.dom() =~= y.dom());
        }
        if x.dom() == y.dom() {
            assert forall|k: Seq<char>| #[trigger] x.contains_key(k) <==> y.contains_key(k) by {
                assert(x.dom().contains(k) <==> y.dom().contains(k));
            }
        }
    }
}

/// Values that equal the same value are equal.
pub proof fn same_json_is_transitive(a: JsonModel, b: JsonModel, c: JsonModel)
    requires
        same_json(a, b),
        same_json(b, c),
    ensures
        same_json(a, c),
    decreases a,
{
    match (a, b, c) {
        (JsonModel::Array(x), JsonModel::Array(y), JsonModel::Array(z)) => {
            assert forall|i: int| 0 <= i < x.len() implies same_json(#[trigger] x[i], z[i]) by {
                assert(same_json(x[i], y[i]));
                assert(same_json(y[i], z[i]));
                same_json_is_transitive(x[i], y[i], z[i]);
            }
        },
        (JsonModel::Object(x), JsonModel::Object(y), JsonModel::Object(z)) => {
            assert forall|k: Seq<char>| x.contains_key(k) implies same_json(
                #[trigger] x[k],
                z[k],
            ) by {
                assert(x.dom().contains(k));
                assert(y.contains_key(k));
                assert(same_json(x[k], y[k]));
                assert(same_json(y[k], z[k]));
                same_json_is_transitive(x[k], y[k], z[k]);
            }
        },
        _ => {},
    }
}

/// A value shows what it holds: an array its items in their order, an object with ascending keys
/// each of its values under its key, and no other key.
pub proof fn values_show_what_they_hold(value: Json)
    ensures
        value is Null <==> value@ is Null,
        value matches Json::Bool(b) ==> value@ == JsonModel::Bool(b),
        value matches Json::Text(t) ==> value@ == JsonModel::Text(t@),
        value matches Json::Number(Number::Unsigned(n)) ==> value@ == JsonModel::Number(
            NumberModel::Unsigned(n),
        ),
        value matches Json::Number(Number::Negative(n)) ==> value@ == JsonModel::Number(
            NumberModel::Negative(n),
        ),
        value matches Json::Number(Number::Float(t)) ==> value@ == JsonModel::Number(
            NumberModel::Float(t@),
        ),
        value matches Json::Array(items) ==> (value@ matches JsonModel::Array(shown) && shown.len()
            == items.len() && forall|i: int| 0 <= i < items.len() ==> (#[trigger] shown[i])
            == items@[i]@),
        value matches Json::Object(entries) ==> keys_ascend(entries@) ==> (
        value@ matches JsonModel::Object(shown) && (forall|i: int|
            0 <= i < entries.len() ==> shown.contains_key((#[trigger] entries@[i]).0@)
                && shown[entries@[i].0@] == entries@[i].1@) && forall|k: Seq<char>| #[trigger]
            shown.contains_key(k) ==> exists|i: int|
                0 <= i < entries.len() && (#[trigger] entries@[i]).0@ == k),
{
    if let Json::Object(entries) = value {
        if keys_ascend(entries@) {
            let shown = fields_of(entries@);
            assert forall|i: int| 0 <= i < entries.len() implies shown.contains_key(
                (#[trigger] entries@[i]).0@,
            ) && shown[entries@[i].0@] == entries@[i].1@ by {
                field_at(entries@, i);
            }
            assert forall|k: Seq<char>| #[trigger] shown.contains_key(k) implies exists|i: int|
                0 <= i < entries.len() && (#[trigger] entries@[i]).0@ == k by {
                let i = field_has_entry(entries@, k);
                assert(entries@[i].0@ == k);
            }
        }
    }
}

/// A field is what an object holds under the key, and a text is what a text value holds; nothing
/// else has either.
pub proof fn fields_and_texts_are_what_is_held(value: JsonModel, key: Seq<char>)
    ensures
        value.field(key) is Some <==> (value matches JsonModel::Object(m) && m.contains_key(key)),
        value matches JsonModel::Object(m) ==> m.contains_key(key) ==> value.field(key) == Some(
            m[key],
        ),
        value.text() is Some <==> value is Text,
        value matches JsonModel::Text(t) ==> value.text() == Some(t),
{
}

} // verus!
