//! What a poll changes: the views of the instances, the events for the journal, and the
//! applications to tell about.

use crate::json::same_json;
use crate::lists::{everything_passes, nothing_passes};
use crate::model::{InstanceModel, KindModel};
use vstd::prelude::*;

verus! {

/// What a poll has gathered so far.
pub struct PollModel {
    /// The instances by their names.
    pub instances: Map<Seq<char>, InstanceModel>,
    /// The events to record, each with the instance that it is about.
    pub events: Seq<(Seq<char>, KindModel)>,
    /// The names of the applications whose status changed.
    pub changed: Set<Seq<char>>,
}

/// The view of an instance before a poll.
pub open spec fn previous_of(
    instances: Map<Seq<char>, InstanceModel>,
    id: Seq<char>,
) -> Option<InstanceModel> {
    if instances.contains_key(id) {
        Some(instances[id])
    } else {
        None
    }
}

/// What there is to tell about an instance that was not known before: that it is registered, and
/// how it is.
pub open spec fn news_of(view: InstanceModel) -> Seq<KindModel> {
    seq![
        KindModel::Registered { registration: view.registration },
        KindModel::StatusChanged { status_info: view.status_info },
        KindModel::EndpointsDetected { endpoints: view.endpoints },
        KindModel::InfoChanged { info: view.info },
    ]
}

/// What there is to tell about an instance that was known before: what differs.
pub open spec fn changes_of(before: InstanceModel, view: InstanceModel) -> Seq<KindModel> {
    let status = if before.status_info.status != view.status_info.status {
        seq![KindModel::StatusChanged { status_info: view.status_info }]
    } else {
        Seq::empty()
    };
    let endpoints = if before.endpoints != view.endpoints {
        seq![KindModel::EndpointsDetected { endpoints: view.endpoints }]
    } else {
        Seq::empty()
    };
    let info = if !same_json(before.info, view.info) {
        seq![KindModel::InfoChanged { info: view.info }]
    } else {
        Seq::empty()
    };
    status + endpoints + info
}

/// What there is to tell about an instance.
pub open spec fn told_of(before: Option<InstanceModel>, view: InstanceModel) -> Seq<KindModel> {
    match before {
        Some(before) => changes_of(before, view),
        None => news_of(view),
    }
}

/// The events about one instance.
pub open spec fn about(id: Seq<char>, kinds: Seq<KindModel>) -> Seq<(Seq<char>, KindModel)> {
    kinds.map_values(|kind: KindModel| (id, kind))
}

/// The status of an instance that was known before is another one now.
pub open spec fn status_changed(before: Option<InstanceModel>, view: InstanceModel) -> bool {
    match before {
        Some(before) => before.status_info.status != view.status_info.status,
        None => false,
    }
}

/// The view that is kept: it counts the polls of the instance.
pub open spec fn kept_view(before: Option<InstanceModel>, view: InstanceModel) -> InstanceModel {
    let version: u64 = match before {
        Some(before) => (before.version + 1) as u64,
        None => 1,
    };
    InstanceModel { version, ..view }
}

/// A poll takes the view of one instance in.
pub open spec fn take_in(poll: PollModel, view: InstanceModel) -> PollModel {
    let before = previous_of(poll.instances, view.id);
    PollModel {
        instances: poll.instances.insert(view.id, kept_view(before, view)),
        events: poll.events + about(view.id, told_of(before, view)),
        changed: if status_changed(before, view) {
            poll.changed.insert(view.registration.name)
        } else {
            poll.changed
        },
    }
}

/// What a poll that found these views gathers.
pub open spec fn poll_of(
    instances: Map<Seq<char>, InstanceModel>,
    views: Seq<InstanceModel>,
) -> PollModel
    decreases views.len(),
{
    if views.len() == 0 {
        PollModel { instances, events: Seq::empty(), changed: Set::empty() }
    } else {
        take_in(poll_of(instances, views.drop_last()), views.last())
    }
}

/// Each instance was polled once.
pub open spec fn ids_differ(views: Seq<InstanceModel>) -> bool {
    forall|i: int, j: int|
        0 <= i < j < views.len() ==> (#[trigger] views[i]).id != (#[trigger] views[j]).id
}

/// Without the last view, each instance was still polled once.
proof fn fewer_ids_differ(views: Seq<InstanceModel>)
    requires
        ids_differ(views),
        views.len() > 0,
    ensures
        ids_differ(views.drop_last()),
{
    let fewer = views.drop_last();
    assert forall|i: int, j: int| 0 <= i < j < fewer.len() implies (#[trigger] fewer[i]).id != (
    #[trigger] fewer[j]).id by {
        assert(views[i].id != views[j].id);
    }
}

/// A poll leaves the instances that it did not reach as they were, and keeps each view that it
/// found, counted on from the one before.
pub proof fn poll_keeps_each_view(
    instances: Map<Seq<char>, InstanceModel>,
    views: Seq<InstanceModel>,
)
    requires
        ids_differ(views),
    ensures
        forall|i: int|
            0 <= i < views.len() ==> #[trigger] previous_of(
                poll_of(instances, views).instances,
                views[i].id,
            ) == Some(kept_view(previous_of(instances, views[i].id), views[i])),
        forall|id: Seq<char>|
            (forall|i: int| 0 <= i < views.len() ==> (#[trigger] views[i]).id != id)
                ==> #[trigger] previous_of(poll_of(instances, views).instances, id)
                == previous_of(instances, id),
    decreases views.len(),
{
    if views.len() > 0 {
        let fewer = views.drop_last();
        let last = views.len() - 1;
        fewer_ids_differ(views);
        poll_keeps_each_view(instances, fewer);
        assert forall|i: int| 0 <= i < fewer.len() implies (#[trigger] fewer[i]).id
            != views[last].id by {
            assert(views[i].id != views[last].id);
        }
        let so_far = poll_of(instances, fewer).instances;
        assert(previous_of(so_far, views[last].id) == previous_of(instances, views[last].id));
        assert forall|i: int| 0 <= i < views.len() implies #[trigger] previous_of(
            poll_of(instances, views).instances,
            views[i].id,
        ) == Some(kept_view(previous_of(instances, views[i].id), views[i])) by {
            if i < last {
                assert(fewer[i] == views[i]);
                assert(previous_of(so_far, fewer[i].id) == Some(
                    kept_view(previous_of(instances, fewer[i].id), fewer[i]),
                ));
            }
        }
        assert forall|id: Seq<char>|
            (forall|i: int| 0 <= i < views.len() ==> (#[trigger] views[i]).id != id) implies
            #[trigger] previous_of(poll_of(instances, views).instances, id) == previous_of(
            instances,
            id,
        ) by {
            assert(views[last].id != id);
            assert forall|i: int| 0 <= i < fewer.len() implies (#[trigger] fewer[i]).id != id by {
                assert(views[i].id != id);
            }
            assert(previous_of(so_far, id) == previous_of(instances, id));
        }
    }
}

/// How many of the events are about an instance.
pub open spec fn count_about(events: Seq<(Seq<char>, KindModel)>, id: Seq<char>) -> nat
    decreases events.len(),
{
    if events.len() == 0 {
        0
    } else {
        count_about(events.drop_first(), id) + if events[0].0 == id {
            1nat
        } else {
            0nat
        }
    }
}

/// No more events are about an instance than there are.
pub proof fn count_is_bounded(events: Seq<(Seq<char>, KindModel)>, id: Seq<char>)
    ensures
        count_about(events, id) <= events.len(),
    decreases events.len(),
{
    if events.len() > 0 {
        count_is_bounded(events.drop_first(), id);
    }
}

/// Events that come one after the other are counted together.
proof fn counts_add_up(
    events: Seq<(Seq<char>, KindModel)>,
    more: Seq<(Seq<char>, KindModel)>,
    id: Seq<char>,
)
    ensures
        count_about(events + more, id) == count_about(events, id) + count_about(more, id),
    decreases events.len(),
{
    if events.len() == 0 {
        assert(events + more =~= more);
    } else {
        counts_add_up(events.drop_first(), more, id);
        assert((events + more).drop_first() =~= events.drop_first() + more);
    }
}

/// Events about one instance are about no other.
proof fn counts_are_kept_apart(own: Seq<char>, kinds: Seq<KindModel>, id: Seq<char>)
    ensures
        count_about(about(own, kinds), id) == if own == id {
            kinds.len()
        } else {
            0
        },
    decreases kinds.len(),
{
    if kinds.len() > 0 {
        counts_are_kept_apart(own, kinds.drop_first(), id);
        assert(about(own, kinds).drop_first() =~= about(own, kinds.drop_first()));
    }
}

/// A poll tells at most four things of an instance, and nothing of one that it did not reach.
pub proof fn few_events_each(
    instances: Map<Seq<char>, InstanceModel>,
    views: Seq<InstanceModel>,
    id: Seq<char>,
)
    requires
        ids_differ(views),
    ensures
        count_about(poll_of(instances, views).events, id) <= 4,
        (forall|i: int| 0 <= i < views.len() ==> (#[trigger] views[i]).id != id) ==> count_about(
            poll_of(instances, views).events,
            id,
        ) == 0,
    decreases views.len(),
{
    if views.len() > 0 {
        let fewer = views.drop_last();
        let last = views.len() - 1;
        let so_far = poll_of(instances, fewer);
        let kinds = told_of(previous_of(so_far.instances, views[last].id), views[last]);
        fewer_ids_differ(views);
        few_events_each(instances, fewer, id);
        counts_add_up(so_far.events, about(views[last].id, kinds), id);
        counts_are_kept_apart(views[last].id, kinds, id);
        assert(kinds.len() <= 4);
        if views[last].id == id {
            assert forall|i: int| 0 <= i < fewer.len() implies (#[trigger] fewer[i]).id != id by {
                assert(views[i].id != views[last].id);
            }
        } else if forall|i: int| 0 <= i < views.len() ==> (#[trigger] views[i]).id != id {
            assert forall|i: int| 0 <= i < fewer.len() implies (#[trigger] fewer[i]).id != id by {
                assert(views[i].id != id);
            }
        }
    }
}

/// What a poll tells, instance by instance: what is new of each against the view before the
/// poll, in the order in which the views came.
pub open spec fn told_by_poll(
    instances: Map<Seq<char>, InstanceModel>,
    views: Seq<InstanceModel>,
) -> Seq<(Seq<char>, KindModel)>
    decreases views.len(),
{
    if views.len() == 0 {
        Seq::empty()
    } else {
        told_by_poll(instances, views.drop_last()) + about(
            views.last().id,
            told_of(previous_of(instances, views.last().id), views.last()),
        )
    }
}

/// A poll tells what is new of each instance against the view before the poll, and names exactly
/// the applications of the instances whose status is another one than before.
pub proof fn poll_tells_real_changes(
    instances: Map<Seq<char>, InstanceModel>,
    views: Seq<InstanceModel>,
)
    requires
        ids_differ(views),
    ensures
        poll_of(instances, views).events == told_by_poll(instances, views),
        forall|name: Seq<char>| #[trigger]
            poll_of(instances, views).changed.contains(name) <==> exists|i: int|
                0 <= i < views.len() && (#[trigger] views[i]).registration.name == name
                    && status_changed(previous_of(instances, views[i].id), views[i]),
    decreases views.len(),
{
    if views.len() > 0 {
        let fewer = views.drop_last();
        let last = views.len() - 1;
        fewer_ids_differ(views);
        poll_tells_real_changes(instances, fewer);
        poll_keeps_each_view(instances, fewer);
        assert forall|i: int| 0 <= i < fewer.len() implies (#[trigger] fewer[i]).id
            != views[last].id by {
            assert(views[i].id != views[last].id);
        }
        let so_far = poll_of(instances, fewer);
        assert(previous_of(so_far.instances, views[last].id) == previous_of(
            instances,
            views[last].id,
        ));
        assert forall|name: Seq<char>| #[trigger]
            poll_of(instances, views).changed.contains(name) <==> exists|i: int|
                0 <= i < views.len() && (#[trigger] views[i]).registration.name == name
                    && status_changed(previous_of(instances, views[i].id), views[i]) by {
            if so_far.changed.contains(name) {
                let i = choose|i: int|
                    0 <= i < fewer.len() && (#[trigger] fewer[i]).registration.name == name
                        && status_changed(previous_of(instances, fewer[i].id), fewer[i]);
                assert(views[i].registration.name == name);
            }
            if exists|i: int|
                0 <= i < views.len() && (#[trigger] views[i]).registration.name == name
                    && status_changed(previous_of(instances, views[i].id), views[i]) {
                let i = choose|i: int|
                    0 <= i < views.len() && (#[trigger] views[i]).registration.name == name
                        && status_changed(previous_of(instances, views[i].id), views[i]);
                if i < last {
                    assert(fewer[i].registration.name == name);
                }
            }
        }
    }
}

/// A poll that finds every instance as it was tells nothing and names no application.
pub proof fn quiet_poll_tells_nothing(
    instances: Map<Seq<char>, InstanceModel>,
    views: Seq<InstanceModel>,
)
    requires
        ids_differ(views),
        forall|i: int|
            0 <= i < views.len() ==> {
                &&& instances.contains_key((#[trigger] views[i]).id)
                &&& instances[views[i].id].status_info.status == views[i].status_info.status
                &&& instances[views[i].id].endpoints == views[i].endpoints
                &&& same_json(instances[views[i].id].info, views[i].info)
            },
    ensures
        poll_of(instances, views).events == Seq::<(Seq<char>, KindModel)>::empty(),
        poll_of(instances, views).changed == Set::<Seq<char>>::empty(),
{
    poll_tells_real_changes(instances, views);
    quiet_views_tell_nothing(instances, views);
    assert(poll_of(instances, views).changed =~= Set::empty());
}

proof fn quiet_views_tell_nothing(
    instances: Map<Seq<char>, InstanceModel>,
    views: Seq<InstanceModel>,
)
    requires
        forall|i: int|
            0 <= i < views.len() ==> {
                &&& instances.contains_key((#[trigger] views[i]).id)
                &&& instances[views[i].id].status_info.status == views[i].status_info.status
                &&& instances[views[i].id].endpoints == views[i].endpoints
                &&& same_json(instances[views[i].id].info, views[i].info)
            },
    ensures
        told_by_poll(instances, views) == Seq::<(Seq<char>, KindModel)>::empty(),
    decreases views.len(),
{
    if views.len() > 0 {
        let fewer = views.drop_last();
        let last = views.len() - 1;
        assert forall|i: int| 0 <= i < fewer.len() implies {
            &&& instances.contains_key((#[trigger] fewer[i]).id)
            &&& instances[fewer[i].id].status_info.status == fewer[i].status_info.status
            &&& instances[fewer[i].id].endpoints == fewer[i].endpoints
            &&& same_json(instances[fewer[i].id].info, fewer[i].info)
        } by {
            assert(views[i] == fewer[i]);
        }
        quiet_views_tell_nothing(instances, fewer);
        assert(views[last] == views.last());
        assert(told_of(previous_of(instances, views.last().id), views.last()) =~= Seq::empty());
        assert(told_by_poll(instances, views) =~= Seq::empty());
    }
}

/// The first poll of instances tells four things of each, in this order: that it is registered,
/// its status, its endpoints and its info. It names no application, and the views that are kept
/// are the first of their instances.
pub proof fn first_poll_tells_all(
    instances: Map<Seq<char>, InstanceModel>,
    views: Seq<InstanceModel>,
)
    requires
        ids_differ(views),
        forall|i: int| 0 <= i < views.len() ==> !instances.contains_key((#[trigger] views[i]).id),
    ensures
        poll_of(instances, views).events.len() == 4 * views.len(),
        forall|i: int|
            0 <= i < views.len() ==> {
                let events = poll_of(instances, views).events;
                let view = #[trigger] views[i];
                &&& events[4 * i] == (
                    view.id,
                    KindModel::Registered { registration: view.registration },
                )
                &&& events[4 * i + 1] == (
                    view.id,
                    KindModel::StatusChanged { status_info: view.status_info },
                )
                &&& events[4 * i + 2] == (
                    view.id,
                    KindModel::EndpointsDetected { endpoints: view.endpoints },
                )
                &&& events[4 * i + 3] == (view.id, KindModel::InfoChanged { info: view.info })
            },
        poll_of(instances, views).changed == Set::<Seq<char>>::empty(),
        forall|i: int|
            0 <= i < views.len() ==> #[trigger] previous_of(
                poll_of(instances, views).instances,
                views[i].id,
            ) == Some(InstanceModel { version: 1, ..views[i] }),
    decreases views.len(),
{
    poll_keeps_each_view(instances, views);
    poll_tells_real_changes(instances, views);
    assert(poll_of(instances, views).changed =~= Set::empty());
    if views.len() > 0 {
        let fewer = views.drop_last();
        let last = views.len() - 1;
        fewer_ids_differ(views);
        assert forall|i: int| 0 <= i < fewer.len() implies !instances.contains_key(
            (#[trigger] fewer[i]).id,
        ) by {
            assert(views[i] == fewer[i]);
        }
        first_poll_tells_all(instances, fewer);
        poll_tells_real_changes(instances, fewer);
        let before = poll_of(instances, fewer).events;
        let events = poll_of(instances, views).events;
        assert(!instances.contains_key(views[last].id));
        assert(events == before + about(views[last].id, news_of(views[last])));
        assert forall|i: int| 0 <= i < views.len() implies {
            let view = #[trigger] views[i];
            &&& events[4 * i] == (
                view.id,
                KindModel::Registered { registration: view.registration },
            )
            &&& events[4 * i + 1] == (
                view.id,
                KindModel::StatusChanged { status_info: view.status_info },
            )
            &&& events[4 * i + 2] == (
                view.id,
                KindModel::EndpointsDetected { endpoints: view.endpoints },
            )
            &&& events[4 * i + 3] == (view.id, KindModel::InfoChanged { info: view.info })
        } by {
            if i < last {
                assert(fewer[i] == views[i]);
            }
        }
    }
}

/// Every event of a poll is about an instance that the poll reached.
proof fn events_are_about_polled(
    instances: Map<Seq<char>, InstanceModel>,
    views: Seq<InstanceModel>,
    p: int,
)
    requires
        0 <= p < poll_of(instances, views).events.len(),
    ensures
        exists|i: int|
            0 <= i < views.len() && (#[trigger] views[i]).id == poll_of(instances, views).events[p].0,
    decreases views.len(),
{
    if views.len() > 0 {
        let fewer = views.drop_last();
        let before = poll_of(instances, fewer).events;
        let last = views.len() - 1;
        if p < before.len() {
            events_are_about_polled(instances, fewer, p);
            let i = choose|i: int|
                0 <= i < fewer.len() && (#[trigger] fewer[i]).id == before[p].0;
            assert(views[i].id == before[p].0);
        } else {
            assert(views[last].id == poll_of(instances, views).events[p].0);
        }
    }
}

/// The events about one instance are what there is to tell of it.
proof fn events_of_one(
    instances: Map<Seq<char>, InstanceModel>,
    views: Seq<InstanceModel>,
    i: int,
)
    requires
        ids_differ(views),
        0 <= i < views.len(),
    ensures
        poll_of(instances, views).events.filter(
            |e: (Seq<char>, KindModel)| e.0 == views[i].id,
        ) == about(views[i].id, told_of(previous_of(instances, views[i].id), views[i])),
    decreases views.len(),
{
    let id = views[i].id;
    let own = |e: (Seq<char>, KindModel)| e.0 == id;
    let fewer = views.drop_last();
    let last = views.len() - 1;
    let before = poll_of(instances, fewer);
    let added = about(
        views[last].id,
        told_of(previous_of(before.instances, views[last].id), views[last]),
    );
    fewer_ids_differ(views);
    assert(poll_of(instances, views).events == before.events + added);
    Seq::filter_distributes_over_add(before.events, added, own);
    if i == last {
        assert forall|p: int| 0 <= p < before.events.len() implies !own(
            #[trigger] before.events[p],
        ) by {
            events_are_about_polled(instances, fewer, p);
            let k = choose|k: int|
                0 <= k < fewer.len() && (#[trigger] fewer[k]).id == before.events[p].0;
            assert(views[k].id != views[last].id);
        }
        nothing_passes(before.events, own);
        everything_passes(added, own);
        poll_keeps_each_view(instances, fewer);
        assert forall|k: int| 0 <= k < fewer.len() implies (#[trigger] fewer[k]).id != id by {
            assert(views[k].id != views[last].id);
        }
        assert(previous_of(before.instances, id) == previous_of(instances, id));
        assert(before.events.filter(own) + added.filter(own) =~= added);
    } else {
        events_of_one(instances, fewer, i);
        assert(fewer[i] == views[i]);
        assert forall|p: int| 0 <= p < added.len() implies !own(#[trigger] added[p]) by {
            assert(views[i].id != views[last].id);
        }
        nothing_passes(added, own);
        assert(before.events.filter(own) + added.filter(own) =~= before.events.filter(own));
    }
}

/// What passes a filter is what it lets pass of the list.
proof fn filter_holds<T>(items: Seq<T>, pass: spec_fn(T) -> bool, item: T)
    requires
        pass(item),
    ensures
        items.filter(pass).contains(item) <==> items.contains(item),
{
    if items.contains(item) {
        let k = items.index_of(item);
        items.lemma_filter_contains(pass, k);
    }
    if items.filter(pass).contains(item) {
        items.lemma_filter_contains_rev(pass, item);
    }
}

/// Of an instance that was known before, a poll tells the status exactly where its text is
/// another one, the endpoints exactly where they are others, and the info exactly where it is no
/// longer equal. Each of the three is told whatever becomes of the other two, once, in this
/// order, and nothing else is told.
pub proof fn known_instance_tells_each_change(
    instances: Map<Seq<char>, InstanceModel>,
    views: Seq<InstanceModel>,
    i: int,
)
    requires
        forall|a: int, b: int|
            0 <= a < b < views.len() ==> (#[trigger] views[a]).id != (#[trigger] views[b]).id,
        0 <= i < views.len(),
        instances.contains_key(views[i].id),
    ensures
        ({
            let view = views[i];
            let before = instances[view.id];
            let events = poll_of(instances, views).events;
            let own = events.filter(|e: (Seq<char>, KindModel)| e.0 == view.id);
            let status = (view.id, KindModel::StatusChanged { status_info: view.status_info });
            let endpoints = (view.id, KindModel::EndpointsDetected { endpoints: view.endpoints });
            let info = (view.id, KindModel::InfoChanged { info: view.info });
            &&& events.contains(status) <==> before.status_info.status != view.status_info.status
            &&& events.contains(endpoints) <==> before.endpoints != view.endpoints
            &&& events.contains(info) <==> !same_json(before.info, view.info)
            &&& forall|p: int|
                0 <= p < own.len() ==> (#[trigger] own[p]) == status || own[p] == endpoints
                    || own[p] == info
            &&& forall|p: int, q: int|
                0 <= p < q < own.len() ==> {
                    ||| (#[trigger] own[p]) == status && (#[trigger] own[q]) == endpoints
                    ||| own[p] == status && own[q] == info
                    ||| own[p] == endpoints && own[q] == info
                }
        }),
{
    assert(ids_differ(views));
    let view = views[i];
    let before = instances[view.id];
    let events = poll_of(instances, views).events;
    let pass = |e: (Seq<char>, KindModel)| e.0 == view.id;
    let own = events.filter(pass);
    let status = (view.id, KindModel::StatusChanged { status_info: view.status_info });
    let endpoints = (view.id, KindModel::EndpointsDetected { endpoints: view.endpoints });
    let info = (view.id, KindModel::InfoChanged { info: view.info });
    events_of_one(instances, views, i);
    filter_holds(events, pass, status);
    filter_holds(events, pass, endpoints);
    filter_holds(events, pass, info);
    let first: int = if before.status_info.status != view.status_info.status {
        1
    } else {
        0
    };
    let second: int = if before.endpoints != view.endpoints {
        1
    } else {
        0
    };
    if first == 1 {
        assert(own[0] == status);
    }
    if second == 1 {
        assert(own[first] == endpoints);
    }
    if !same_json(before.info, view.info) {
        assert(own[first + second] == info);
    }
}

/// Of an instance that was not known before, a poll tells its registration, its status, its
/// endpoints and its info, in this order, and nothing else, whatever else the poll found.
pub proof fn new_instance_is_told_in_full(
    instances: Map<Seq<char>, InstanceModel>,
    views: Seq<InstanceModel>,
    i: int,
)
    requires
        forall|a: int, b: int|
            0 <= a < b < views.len() ==> (#[trigger] views[a]).id != (#[trigger] views[b]).id,
        0 <= i < views.len(),
        !instances.contains_key(views[i].id),
    ensures
        ({
            let view = views[i];
            let own = poll_of(instances, views).events.filter(
                |e: (Seq<char>, KindModel)| e.0 == view.id,
            );
            &&& own.len() == 4
            &&& own[0] == (view.id, KindModel::Registered { registration: view.registration })
            &&& own[1] == (view.id, KindModel::StatusChanged { status_info: view.status_info })
            &&& own[2] == (view.id, KindModel::EndpointsDetected { endpoints: view.endpoints })
            &&& own[3] == (view.id, KindModel::InfoChanged { info: view.info })
        }),
{
    assert(ids_differ(views));
    events_of_one(instances, views, i);
}

/// A poll tells of the instances that it reached and of no others, of one after the other.
pub proof fn events_come_in_the_order_of_the_poll(
    instances: Map<Seq<char>, InstanceModel>,
    views: Seq<InstanceModel>,
    p: int,
    q: int,
    i: int,
    j: int,
)
    requires
        forall|a: int, b: int|
            0 <= a < b < views.len() ==> (#[trigger] views[a]).id != (#[trigger] views[b]).id,
        0 <= p < poll_of(instances, views).events.len(),
        0 <= q < poll_of(instances, views).events.len(),
        0 <= i < j < views.len(),
        poll_of(instances, views).events[p].0 == views[i].id,
        poll_of(instances, views).events[q].0 == views[j].id,
    ensures
        p < q,
        forall|r: int|
            0 <= r < poll_of(instances, views).events.len() ==> exists|k: int|
                0 <= k < views.len() && (#[trigger] views[k]).id == (#[trigger] poll_of(
                    instances,
                    views,
                ).events[r]).0,
    decreases views.len(),
{
    assert(ids_differ(views));
    assert forall|r: int| 0 <= r < poll_of(instances, views).events.len() implies exists|k: int|
        0 <= k < views.len() && (#[trigger] views[k]).id == (#[trigger] poll_of(
            instances,
            views,
        ).events[r]).0 by {
        events_are_about_polled(instances, views, r);
    }
    let fewer = views.drop_last();
    let last = views.len() - 1;
    let before = poll_of(instances, fewer).events;
    fewer_ids_differ(views);
    if p >= before.len() {
        assert(poll_of(instances, views).events[p].0 == views[last].id);
        assert(views[i].id != views[last].id);
    }
    if q < before.len() {
        assert(before[q] == poll_of(instances, views).events[q]);
        if j == last {
            events_are_about_polled(instances, fewer, q);
            let k = choose|k: int| 0 <= k < fewer.len() && (#[trigger] fewer[k]).id == before[q].0;
            assert(views[k].id != views[last].id);
        } else {
            assert(fewer[i] == views[i] && fewer[j] == views[j]);
            assert(before[p] == poll_of(instances, views).events[p]);
            events_come_in_the_order_of_the_poll(instances, fewer, p, q, i, j);
        }
    }
}

/// After a poll, an instance that it reached is known as it was found, with a version that counts
/// its polls: one more than before, or one. An instance that it did not reach is known as before.
pub proof fn views_are_kept_and_counted(
    instances: Map<Seq<char>, InstanceModel>,
    views: Seq<InstanceModel>,
    id: Seq<char>,
)
    requires
        forall|a: int, b: int|
            0 <= a < b < views.len() ==> (#[trigger] views[a]).id != (#[trigger] views[b]).id,
    ensures
        ({
            let after = poll_of(instances, views).instances;
            &&& forall|i: int|
                0 <= i < views.len() && (#[trigger] views[i]).id == id ==> {
                    &&& after.contains_key(id)
                    &&& after[id] == (InstanceModel { version: after[id].version, ..views[i] })
                    &&& instances.contains_key(id) && instances[id].version < u64::MAX
                        ==> after[id].version == instances[id].version + 1
                    &&& !instances.contains_key(id) ==> after[id].version == 1
                }
            &&& (forall|i: int| 0 <= i < views.len() ==> (#[trigger] views[i]).id != id) ==> {
                &&& after.contains_key(id) <==> instances.contains_key(id)
                &&& after.contains_key(id) ==> after[id] == instances[id]
            }
        }),
{
    assert(ids_differ(views));
    poll_keeps_each_view(instances, views);
    let after = poll_of(instances, views).instances;
    assert forall|i: int| 0 <= i < views.len() && (#[trigger] views[i]).id == id implies {
        &&& after.contains_key(id)
        &&& after[id] == (InstanceModel { version: after[id].version, ..views[i] })
        &&& instances.contains_key(id) && instances[id].version < u64::MAX ==> after[id].version
            == instances[id].version + 1
        &&& !instances.contains_key(id) ==> after[id].version == 1
    } by {
        assert(previous_of(after, views[i].id) == Some(
            kept_view(previous_of(instances, views[i].id), views[i]),
        ));
    }
    if forall|i: int| 0 <= i < views.len() ==> (#[trigger] views[i]).id != id {
        assert(previous_of(after, id) == previous_of(instances, id));
    }
}

/// A poll names an application exactly where one of its instances was known before with another
/// text as its status, whichever the two texts are.
pub proof fn changed_status_is_named(
    instances: Map<Seq<char>, InstanceModel>,
    views: Seq<InstanceModel>,
    name: Seq<char>,
)
    requires
        forall|a: int, b: int|
            0 <= a < b < views.len() ==> (#[trigger] views[a]).id != (#[trigger] views[b]).id,
    ensures
        poll_of(instances, views).changed.contains(name) <==> exists|i: int|
            0 <= i < views.len() && (#[trigger] views[i]).registration.name == name
                && instances.contains_key(views[i].id)
                && instances[views[i].id].status_info.status != views[i].status_info.status,
{
    assert(ids_differ(views));
    poll_tells_real_changes(instances, views);
    if poll_of(instances, views).changed.contains(name) {
        let i = choose|i: int|
            0 <= i < views.len() && (#[trigger] views[i]).registration.name == name
                && status_changed(previous_of(instances, views[i].id), views[i]);
        assert(views[i].registration.name == name);
        assert(instances.contains_key(views[i].id));
        assert(instances[views[i].id].status_info.status != views[i].status_info.status);
    }
}

} // verus!
