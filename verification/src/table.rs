//! Lists of named values, read as maps from the names.

use vstd::prelude::*;

verus! {

/// The name stands at position `i`.
pub open spec fn named_at<V>(pairs: Seq<(Seq<char>, V)>, name: Seq<char>, i: int) -> bool {
    0 <= i < pairs.len() && pairs[i].0 == name
}

/// No name stands twice.
pub open spec fn names_differ<V>(pairs: Seq<(Seq<char>, V)>) -> bool {
    forall|i: int, j: int|
        0 <= i < j < pairs.len() ==> (#[trigger] pairs[i]).0 != (#[trigger] pairs[j]).0
}

/// The list as a map from its names.
pub open spec fn map_of<V>(pairs: Seq<(Seq<char>, V)>) -> Map<Seq<char>, V> {
    Map::new(
        |name: Seq<char>| exists|i: int| named_at(pairs, name, i),
        |name: Seq<char>| pairs[choose|i: int| named_at(pairs, name, i)].1,
    )
}

/// The map holds each value of the list under its name.
pub proof fn map_holds<V>(pairs: Seq<(Seq<char>, V)>, i: int)
    requires
        names_differ(pairs),
        0 <= i < pairs.len(),
    ensures
        map_of(pairs).contains_key(pairs[i].0),
        map_of(pairs)[pairs[i].0] == pairs[i].1,
{
    let name = pairs[i].0;
    assert(named_at(pairs, name, i));
    let j = choose|j: int| named_at(pairs, name, j);
    assert(named_at(pairs, name, j));
    if j < i {
        assert(pairs[j].0 != pairs[i].0);
    } else if i < j {
        assert(pairs[i].0 != pairs[j].0);
    }
}

/// A name of the map stands in the list.
pub proof fn map_has_position<V>(pairs: Seq<(Seq<char>, V)>, name: Seq<char>) -> (i: int)
    requires
        map_of(pairs).contains_key(name),
    ensures
        named_at(pairs, name, i),
{
    choose|i: int| named_at(pairs, name, i)
}

/// An empty list is an empty map.
pub proof fn nothing_is_named<V>(pairs: Seq<(Seq<char>, V)>)
    requires
        pairs.len() == 0,
    ensures
        names_differ(pairs),
        map_of(pairs) == Map::<Seq<char>, V>::empty(),
{
    assert forall|name: Seq<char>| !(#[trigger] map_of(pairs).contains_key(name)) by {
        if map_of(pairs).contains_key(name) {
            let i = map_has_position(pairs, name);
        }
    }
    assert(map_of(pairs) =~= Map::empty());
}

/// A new name, put anywhere into the list, is put into the map.
pub proof fn new_name_is_added<V>(
    pairs: Seq<(Seq<char>, V)>,
    at: int,
    name: Seq<char>,
    value: V,
)
    requires
        names_differ(pairs),
        0 <= at <= pairs.len(),
        !map_of(pairs).contains_key(name),
    ensures
        names_differ(pairs.insert(at, (name, value))),
        map_of(pairs.insert(at, (name, value))) == map_of(pairs).insert(name, value),
{
    let after = pairs.insert(at, (name, value));
    assert forall|i: int| 0 <= i < pairs.len() implies (#[trigger] pairs[i]).0 != name by {
        map_holds(pairs, i);
    }
    assert forall|i: int, j: int| 0 <= i < j < after.len() implies (#[trigger] after[i]).0 != (
    #[trigger] after[j]).0 by {
        let i2 = if i < at {
            i
        } else {
            i - 1
        };
        let j2 = if j < at {
            j
        } else {
            j - 1
        };
        if i != at && j != at {
            assert(pairs[i2].0 != pairs[j2].0);
        } else if i == at {
            assert(after[j] == pairs[j2]);
        } else {
            assert(after[i] == pairs[i2]);
        }
    }
    map_holds(after, at);
    assert forall|k: Seq<char>| #[trigger]
        map_of(after).contains_key(k) == (k == name || map_of(pairs).contains_key(k)) && (map_of(
            pairs,
        ).contains_key(k) ==> map_of(after)[k] == map_of(pairs)[k]) by {
        if map_of(pairs).contains_key(k) {
            let i = map_has_position(pairs, k);
            let i2 = if i < at {
                i
            } else {
                i + 1
            };
            assert(after[i2] == pairs[i]);
            map_holds(pairs, i);
            map_holds(after, i2);
        }
        if map_of(after).contains_key(k) && k != name {
            let i = map_has_position(after, k);
            let i2 = if i < at {
                i
            } else {
                i - 1
            };
            assert(after[i] == pairs[i2]);
            map_holds(pairs, i2);
        }
    }
    assert(map_of(after) =~= map_of(pairs).insert(name, value));
}

/// A value, put in place of the one under its name, is put into the map.
pub proof fn value_is_replaced<V>(
    pairs: Seq<(Seq<char>, V)>,
    at: int,
    name: Seq<char>,
    value: V,
)
    requires
        names_differ(pairs),
        named_at(pairs, name, at),
    ensures
        names_differ(pairs.update(at, (name, value))),
        map_of(pairs.update(at, (name, value))) == map_of(pairs).insert(name, value),
{
    let after = pairs.update(at, (name, value));
    assert forall|i: int| 0 <= i < pairs.len() implies (#[trigger] after[i]).0 == pairs[i].0 by {}
    assert forall|i: int, j: int| 0 <= i < j < after.len() implies (#[trigger] after[i]).0 != (
    #[trigger] after[j]).0 by {
        assert(pairs[i].0 != pairs[j].0);
    }
    map_holds(after, at);
    map_holds(pairs, at);
    assert forall|k: Seq<char>| #[trigger]
        map_of(after).contains_key(k) == map_of(pairs).contains_key(k) && (map_of(
            pairs,
        ).contains_key(k) && k != name ==> map_of(after)[k] == map_of(pairs)[k]) by {
        if map_of(pairs).contains_key(k) {
            let i = map_has_position(pairs, k);
            map_holds(pairs, i);
            map_holds(after, i);
        }
        if map_of(after).contains_key(k) {
            let i = map_has_position(after, k);
            map_holds(pairs, i);
        }
    }
    assert(map_of(after) =~= map_of(pairs).insert(name, value));
}

} // verus!
