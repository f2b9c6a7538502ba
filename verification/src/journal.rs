//! The journal: the last events of all instances, each numbered within its instance.

use crate::model::EventModel;
use vstd::prelude::*;

verus! {

/// The last `n` items of a list.
pub open spec fn keep_last<T>(items: Seq<T>, n: nat) -> Seq<T> {
    if items.len() > n {
        items.skip(items.len() - n)
    } else {
        items
    }
}

/// The number that the next event of an instance gets.
pub open spec fn next_version(versions: Map<Seq<char>, nat>, instance: Seq<char>) -> nat {
    if versions.contains_key(instance) {
        versions[instance]
    } else {
        0
    }
}

/// The counters after events were recorded.
pub open spec fn versions_after(
    versions: Map<Seq<char>, nat>,
    events: Seq<EventModel>,
) -> Map<Seq<char>, nat>
    decreases events.len(),
{
    if events.len() == 0 {
        versions
    } else {
        let before = versions_after(versions, events.drop_last());
        let instance = events.last().instance;
        before.insert(instance, next_version(before, instance) + 1)
    }
}

/// Each event has the number that was next for its instance when it was recorded.
pub open spec fn numbered(versions: Map<Seq<char>, nat>, events: Seq<EventModel>) -> bool {
    forall|i: int|
        0 <= i < events.len() ==> (#[trigger] events[i]).version == next_version(
            versions_after(versions, events.take(i)),
            events[i].instance,
        )
}

/// How many events of an instance there are.
pub open spec fn count_of(events: Seq<EventModel>, instance: Seq<char>) -> nat
    decreases events.len(),
{
    if events.len() == 0 {
        0
    } else {
        count_of(events.drop_last(), instance) + if events.last().instance == instance {
            1nat
        } else {
            0nat
        }
    }
}

/// The number of each event and the events of its instance from it on make up the counter.
pub open spec fn counters_fit(events: Seq<EventModel>, versions: Map<Seq<char>, nat>) -> bool {
    forall|i: int|
        0 <= i < events.len() ==> (#[trigger] events[i]).version + count_of(
            events.skip(i),
            events[i].instance,
        ) == next_version(versions, events[i].instance)
}

/// What is kept after more was added does not depend on what had been dropped before.
pub proof fn keeping_twice_is_keeping_once<T>(items: Seq<T>, more: Seq<T>, n: nat)
    ensures
        keep_last(keep_last(items, n) + more, n) == keep_last(items + more, n),
{
    assert(keep_last(keep_last(items, n) + more, n) =~= keep_last(items + more, n));
}

/// An event with the next number of its instance goes on with the numbering.
pub proof fn numbering_goes_on(
    versions: Map<Seq<char>, nat>,
    events: Seq<EventModel>,
    event: EventModel,
)
    requires
        numbered(versions, events),
        event.version == next_version(versions_after(versions, events), event.instance),
    ensures
        numbered(versions, events.push(event)),
        versions_after(versions, events.push(event)) == versions_after(versions, events).insert(
            event.instance,
            next_version(versions_after(versions, events), event.instance) + 1,
        ),
{
    let after = events.push(event);
    assert(after.drop_last() =~= events);
    assert forall|i: int| 0 <= i < after.len() implies (#[trigger] after[i]).version
        == next_version(versions_after(versions, after.take(i)), after[i].instance) by {
        if i < events.len() {
            assert(after.take(i) =~= events.take(i));
            assert(after[i] == events[i]);
        } else {
            assert(after.take(i) =~= events);
        }
    }
}

/// Counters fit once more after one event was recorded.
pub proof fn counters_fit_after_recording(
    events: Seq<EventModel>,
    versions: Map<Seq<char>, nat>,
    event: EventModel,
)
    requires
        counters_fit(events, versions),
        event.version == next_version(versions, event.instance),
    ensures
        counters_fit(
            events.push(event),
            versions.insert(event.instance, next_version(versions, event.instance) + 1),
        ),
{
    let after = events.push(event);
    let counters = versions.insert(event.instance, next_version(versions, event.instance) + 1);
    assert forall|i: int| 0 <= i < after.len() implies (#[trigger] after[i]).version + count_of(
        after.skip(i),
        after[i].instance,
    ) == next_version(counters, after[i].instance) by {
        assert(after.skip(i).last() == event);
        if i < events.len() {
            assert(after.skip(i).drop_last() =~= events.skip(i));
            assert(events[i] == after[i]);
        } else {
            reveal_with_fuel(count_of, 2);
        }
    }
}

/// Counters still fit after the oldest event was dropped.
pub proof fn counters_fit_after_dropping(
    events: Seq<EventModel>,
    versions: Map<Seq<char>, nat>,
)
    requires
        counters_fit(events, versions),
        events.len() > 0,
    ensures
        counters_fit(events.drop_first(), versions),
{
    let after = events.drop_first();
    assert forall|i: int| 0 <= i < after.len() implies (#[trigger] after[i]).version + count_of(
        after.skip(i),
        after[i].instance,
    ) == next_version(versions, after[i].instance) by {
        assert(events[i + 1] == after[i]);
        assert(after.skip(i) =~= events.skip(i + 1));
    }
}

/// What is counted from an earlier event on is what lies between and what is counted from the
/// later one on.
proof fn count_splits(events: Seq<EventModel>, instance: Seq<char>, n: int)
    requires
        0 <= n <= events.len(),
    ensures
        count_of(events, instance) == count_of(events.take(n), instance) + count_of(
            events.skip(n),
            instance,
        ),
    decreases events.len() - n,
{
    if n == events.len() {
        assert(events.take(n) =~= events);
        assert(events.skip(n) =~= Seq::empty());
    } else {
        let fewer = events.drop_last();
        count_splits(fewer, instance, n);
        assert(fewer.take(n) =~= events.take(n));
        assert(fewer.skip(n) =~= events.skip(n).drop_last());
        assert(events.skip(n).last() == events.last());
    }
}

/// The events of one instance are numbered one after the other, whatever their kind: between two
/// of them lie as many events of the instance as their numbers say.
pub proof fn versions_run_on(
    events: Seq<EventModel>,
    versions: Map<Seq<char>, nat>,
    i: int,
    j: int,
)
    requires
        counters_fit(events, versions),
        0 <= i < j < events.len(),
        events[i].instance == events[j].instance,
    ensures
        events[i].version < events[j].version,
        events[j].version == events[i].version + 1 + count_of(
            events.subrange(i + 1, j),
            events[i].instance,
        ),
{
    let instance = events[i].instance;
    let from_i = events.skip(i);
    count_splits(from_i, instance, j - i);
    assert(from_i.skip(j - i) =~= events.skip(j));
    let between = from_i.take(j - i);
    count_splits(between, instance, 1);
    reveal_with_fuel(count_of, 2);
    assert(between.take(1).last() == events[i]);
    assert(between.skip(1) =~= events.subrange(i + 1, j));
    assert(events[i].version + count_of(events.skip(i), instance) == next_version(
        versions,
        instance,
    ));
    assert(events[j].version + count_of(events.skip(j), instance) == next_version(
        versions,
        instance,
    ));
}

/// As many of the last items are kept as may be, in their order.
pub proof fn last_items_are_kept<T>(items: Seq<T>, n: nat, i: int)
    requires
        0 <= i < n,
        i < items.len(),
    ensures
        keep_last(items, n).len() == if items.len() < n {
            items.len()
        } else {
            n
        },
        keep_last(items, n)[keep_last(items, n).len() - 1 - i] == items[items.len() - 1 - i],
{
}

/// The events of an instance are counted, and no others.
proof fn count_is_of_the_instance(events: Seq<EventModel>, instance: Seq<char>)
    ensures
        count_of(events, instance) == events.filter(
            |e: EventModel| e.instance == instance,
        ).len(),
    decreases events.len(),
{
    reveal(Seq::filter);
    if events.len() > 0 {
        count_is_of_the_instance(events.drop_last(), instance);
    }
}

/// A counter goes up by one with each event of its instance, and starts at nothing.
pub proof fn counters_count_events(
    versions: Map<Seq<char>, nat>,
    events: Seq<EventModel>,
    instance: Seq<char>,
)
    ensures
        ({
            let own = events.filter(|e: EventModel| e.instance == instance);
            let after = versions_after(versions, events);
            &&& after.contains_key(instance) <==> versions.contains_key(instance) || own.len() > 0
            &&& after.contains_key(instance) ==> after[instance] == own.len() + (
            if versions.contains_key(instance) {
                versions[instance]
            } else {
                0
            })
        }),
    decreases events.len(),
{
    reveal(Seq::filter);
    if events.len() > 0 {
        counters_count_events(versions, events.drop_last(), instance);
        counters_count_events(versions, events.drop_last(), events.last().instance);
    }
}

/// The number of an event says how many events of its instance there were before it: those that
/// were counted already, and those that were recorded with it before it.
pub proof fn numbers_count_events(
    versions: Map<Seq<char>, nat>,
    events: Seq<EventModel>,
    i: int,
)
    requires
        numbered(versions, events),
        0 <= i < events.len(),
    ensures
        ({
            let instance = events[i].instance;
            events[i].version == events.take(i).filter(
                |e: EventModel| e.instance == instance,
            ).len() + (if versions.contains_key(instance) {
                versions[instance]
            } else {
                0
            })
        }),
{
    counters_count_events(versions, events.take(i), events[i].instance);
}

/// Where counters fit, the number of an event and the events of its instance from it on make up
/// the counter of the instance.
pub proof fn counters_end_at_the_last_event(
    events: Seq<EventModel>,
    versions: Map<Seq<char>, nat>,
    i: int,
)
    requires
        counters_fit(events, versions),
        0 <= i < events.len(),
    ensures
        ({
            let instance = events[i].instance;
            &&& versions.contains_key(instance)
            &&& events[i].version + events.skip(i).filter(
                |e: EventModel| e.instance == instance,
            ).len() == versions[instance]
        }),
{
    let instance = events[i].instance;
    let from = events.skip(i);
    count_is_of_the_instance(from, instance);
    from.lemma_filter_contains(|e: EventModel| e.instance == instance, 0);
}

} // verus!
