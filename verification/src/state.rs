//! What the monitor keeps: the configured instances, their last views and the journal.

use crate::clock::{is_timestamp, now_iso};
use crate::config::{ConfigModel, InstanceConfig, InstancesConfig};
use crate::groups::{all_groups_wf, among, applications_are_the_names, every_instance_has_one_group, group_instances};
use crate::groups::{group_models, groups_of, text_models};
use crate::journal::{counters_fit, counters_fit_after_dropping, counters_fit_after_recording};
use crate::journal::{keep_last, keeping_twice_is_keeping_once};
use crate::journal::{next_version, numbered, numbering_goes_on, versions_after};
use crate::json::same_json;
use crate::lists::{filter_begins, filter_goes_on, nothing_passes};
use crate::model::{all_events_wf, all_instances_wf, copy_endpoints, copy_optional};
use crate::model::{event_models, instance_models, optional_text, same_endpoints};
use crate::model::{ApplicationGroup, EventModel, GroupModel, InstanceModel, InstanceView};
use crate::model::{JournalEvent, JournalEventKind, KindModel};
use crate::polling::{about, changed_status_is_named, changes_of, ids_differ, news_of, poll_of, previous_of};
use crate::polling::{count_about, count_is_bounded, few_events_each};
use crate::polling::{kept_view, poll_keeps_each_view};
use crate::polling::{poll_tells_real_changes, quiet_poll_tells_nothing};
use crate::polling::{status_changed, take_in, told_of, PollModel};
use crate::table::{map_has_position, map_holds, map_of, named_at, names_differ};
use crate::table::{new_name_is_added, nothing_is_named, value_is_replaced};
use crate::text::{less_is_irreflexive, less_is_total, less_is_transitive};
use crate::text::{same_text, text_before, text_less};
use std::collections::VecDeque;
use vstd::prelude::*;

verus! {

/// How many events the journal keeps where the configuration does not say.
pub const DEFAULT_JOURNAL_MAX_EVENTS: usize = 5000;

/// What the monitor keeps. Instances stand in the order of their names, each once; the journal
/// holds no more events than configured.
pub struct MonitorState {
    instances: Vec<InstanceView>,
    configs: Vec<InstanceConfig>,
    journal: VecDeque<JournalEvent>,
    journal_max_events: usize,
    journal_versions: Vec<(String, u64)>,
}

/// What the monitor knows.
pub struct MonitorModel {
    /// The configured instances by their names.
    pub configs: Map<Seq<char>, ConfigModel>,
    /// The last views of the instances by their names.
    pub instances: Map<Seq<char>, InstanceModel>,
    /// The last events, the oldest first.
    pub journal: Seq<EventModel>,
    /// How many events the journal keeps.
    pub journal_max_events: nat,
    /// How many events of each instance there have been.
    pub versions: Map<Seq<char>, nat>,
}

/// The configurations with their names.
pub open spec fn config_pairs(configs: Seq<InstanceConfig>) -> Seq<(Seq<char>, ConfigModel)> {
    configs.map_values(|c: InstanceConfig| (c.name@, c@))
}

/// The views with the names of their instances.
pub open spec fn instance_pairs(instances: Seq<InstanceView>) -> Seq<(Seq<char>, InstanceModel)> {
    instances.map_values(|v: InstanceView| (v.id@, v@))
}

/// The counters with the names of their instances.
pub open spec fn version_pairs(versions: Seq<(String, u64)>) -> Seq<(Seq<char>, nat)> {
    versions.map_values(|p: (String, u64)| (p.0@, p.1 as nat))
}

/// The configurations by name; of two with one name, the later one counts.
pub open spec fn configs_by_name(configs: Seq<InstanceConfig>) -> Map<Seq<char>, ConfigModel>
    decreases configs.len(),
{
    if configs.len() == 0 {
        Map::empty()
    } else {
        configs_by_name(configs.drop_last()).insert(configs.last().name@, configs.last()@)
    }
}

/// Each view comes before all that follow it, in the order of their names.
pub open spec fn ids_ascend(instances: Seq<InstanceModel>) -> bool {
    forall|i: int, j: int|
        0 <= i < j < instances.len() ==> text_less(
            (#[trigger] instances[i]).id,
            (#[trigger] instances[j]).id,
        )
}

/// The list holds all instances of the map in the order of their names.
pub open spec fn lists_instances(
    instances: Map<Seq<char>, InstanceModel>,
    list: Seq<InstanceModel>,
) -> bool {
    &&& ids_ascend(list)
    &&& forall|i: int|
        0 <= i < list.len() ==> instances.contains_key((#[trigger] list[i]).id)
            && instances[list[i].id] == list[i]
    &&& forall|id: Seq<char>| #[trigger]
        instances.contains_key(id) ==> exists|i: int|
            0 <= i < list.len() && (#[trigger] list[i]).id == id
}

/// All instances in the order of their names.
pub open spec fn in_order(instances: Map<Seq<char>, InstanceModel>) -> Seq<InstanceModel> {
    choose|list: Seq<InstanceModel>| lists_instances(instances, list)
}

proof fn instance_lists_agree_up_to(
    instances: Map<Seq<char>, InstanceModel>,
    a: Seq<InstanceModel>,
    b: Seq<InstanceModel>,
    n: int,
)
    requires
        lists_instances(instances, a),
        lists_instances(instances, b),
        0 <= n <= a.len(),
    ensures
        n <= b.len(),
        forall|i: int| 0 <= i < n ==> (#[trigger] a[i]) == b[i],
    decreases n,
{
    if n > 0 {
        let last = n - 1;
        instance_lists_agree_up_to(instances, a, b, last);
        let id = a[last].id;
        assert(instances.contains_key(id));
        let k = choose|k: int| 0 <= k < b.len() && (#[trigger] b[k]).id == id;
        less_is_irreflexive(id);
        if k < last {
            assert(a[k] == b[k]);
            assert(text_less(a[k].id, a[last].id));
        }
        if k > last {
            let other = b[last].id;
            assert(text_less(b[last].id, b[k].id));
            assert(instances.contains_key(other));
            let m = choose|m: int| 0 <= m < a.len() && (#[trigger] a[m]).id == other;
            less_is_irreflexive(other);
            if m < last {
                assert(a[m] == b[m]);
                assert(text_less(b[m].id, b[last].id));
            } else if m > last {
                assert(text_less(a[last].id, a[m].id));
                less_is_transitive(id, other, id);
            }
        }
        assert(instances[a[last].id] == a[last]);
        assert(instances[b[last].id] == b[last]);
    }
}

/// All instances stand in the order of their names in one way only.
pub proof fn order_is_unique(
    instances: Map<Seq<char>, InstanceModel>,
    a: Seq<InstanceModel>,
    b: Seq<InstanceModel>,
)
    requires
        lists_instances(instances, a),
        lists_instances(instances, b),
    ensures
        a == b,
{
    instance_lists_agree_up_to(instances, a, b, a.len() as int);
    instance_lists_agree_up_to(instances, b, a, b.len() as int);
    assert(a =~= b);
}

/// What the monitor knows after an event was recorded: the event is the last of the journal, the
/// oldest one gives way where there are too many, and the counter of the instance goes on.
pub open spec fn recorded(model: MonitorModel, event: EventModel) -> MonitorModel {
    MonitorModel {
        journal: keep_last(model.journal.push(event), model.journal_max_events),
        versions: model.versions.insert(
            event.instance,
            next_version(model.versions, event.instance) + 1,
        ),
        ..model
    }
}

impl View for MonitorState {
    type V = MonitorModel;

    closed spec fn view(&self) -> MonitorModel {
        MonitorModel {
            configs: map_of(config_pairs(self.configs@)),
            instances: map_of(instance_pairs(self.instances@)),
            journal: event_models(self.journal@),
            journal_max_events: self.journal_max_events as nat,
            versions: map_of(version_pairs(self.journal_versions@)),
        }
    }
}

impl MonitorState {
    /// The state is one that the monitor can be in.
    pub closed spec fn wf(self) -> bool {
        &&& names_differ(config_pairs(self.configs@))
        &&& ids_ascend(instance_models(self.instances@))
        &&& all_instances_wf(self.instances@)
        &&& names_differ(version_pairs(self.journal_versions@))
        &&& self.journal@.len() <= self.journal_max_events
        &&& all_events_wf(self.journal@)
        &&& counters_fit(
            event_models(self.journal@),
            map_of(version_pairs(self.journal_versions@)),
        )
    }

    /// The journal of a state holds no more events than configured, and the events of each
    /// instance are numbered up to its counter.
    pub proof fn journal_is_bounded_and_numbered(self)
        requires
            self.wf(),
        ensures
            self@.journal.len() <= self@.journal_max_events,
            counters_fit(self@.journal, self@.versions),
    {
    }

    /// Ascending names differ.
    proof fn instance_names_differ(self)
        requires
            self.wf(),
        ensures
            names_differ(instance_pairs(self.instances@)),
    {
        let list = instance_models(self.instances@);
        let pairs = instance_pairs(self.instances@);
        assert forall|i: int, j: int| 0 <= i < j < pairs.len() implies (#[trigger] pairs[i]).0 != (
        #[trigger] pairs[j]).0 by {
            assert(text_less(list[i].id, list[j].id));
            less_is_irreflexive(list[i].id);
        }
    }

    /// The views are kept in the order of their names.
    proof fn instances_are_in_order(self)
        requires
            self.wf(),
        ensures
            instance_models(self.instances@) == in_order(self@.instances),
            lists_instances(self@.instances, in_order(self@.instances)),
    {
        let list = instance_models(self.instances@);
        let pairs = instance_pairs(self.instances@);
        self.instance_names_differ();
        assert forall|i: int| 0 <= i < list.len() implies self@.instances.contains_key(
            (#[trigger] list[i]).id,
        ) && self@.instances[list[i].id] == list[i] by {
            map_holds(pairs, i);
            assert(pairs[i] == (list[i].id, list[i]));
        }
        assert forall|id: Seq<char>| #[trigger] self@.instances.contains_key(id) implies exists|
            i: int,
        | 0 <= i < list.len() && (#[trigger] list[i]).id == id by {
            let i = map_has_position(pairs, id);
            assert(list[i].id == id);
        }
        order_is_unique(self@.instances, list, in_order(self@.instances));
    }

    /// The instances of a state stand in the order of their names in some way.
    pub proof fn instances_can_be_listed(self)
        requires
            self.wf(),
        ensures
            lists_instances(self@.instances, in_order(self@.instances)),
    {
        self.instances_are_in_order();
    }

    /// A monitor that has seen nothing yet.
    pub fn new(cfg: InstancesConfig) -> (state: MonitorState)
        ensures
            state.wf(),
            state@ == (MonitorModel {
                configs: configs_by_name(cfg.instances@),
                instances: Map::empty(),
                journal: Seq::empty(),
                journal_max_events: match cfg.server.journal_max_events {
                    Some(n) => n as nat,
                    None => 5000,
                },
                versions: Map::empty(),
            }),
    {
        let journal_max_events = match cfg.server.journal_max_events {
            Some(n) => n,
            None => DEFAULT_JOURNAL_MAX_EVENTS,
        };
        let ghost given = cfg.instances@;
        let mut configs: Vec<InstanceConfig> = Vec::new();
        proof {
            nothing_is_named(config_pairs(configs@));
        }
        for config in it: cfg.instances
            invariant
                it.seq() == given,
                names_differ(config_pairs(configs@)),
                map_of(config_pairs(configs@)) == configs_by_name(given.take(it.index() as int)),
        {
            let ghost before = configs@;
            let ghost pairs = config_pairs(before);
            let ghost added = config;
            assert(given.take(it.index() + 1).drop_last() =~= given.take(it.index() as int));
            match find_config(&configs, config.name.as_str()) {
                Some(at) => {
                    configs.set(at, config);
                    proof {
                        value_is_replaced(pairs, at as int, added.name@, added@);
                        assert(config_pairs(configs@) =~= pairs.update(
                            at as int,
                            (added.name@, added@),
                        ));
                    }
                },
                None => {
                    configs.push(config);
                    proof {
                        new_name_is_added(pairs, pairs.len() as int, added.name@, added@);
                        assert(config_pairs(configs@) =~= pairs.insert(
                            pairs.len() as int,
                            (added.name@, added@),
                        ));
                    }
                },
            }
        }
        assert(given.take(given.len() as int) =~= given);
        let state = MonitorState {
            instances: Vec::new(),
            configs,
            journal: VecDeque::new(),
            journal_max_events,
            journal_versions: Vec::new(),
        };
        proof {
            nothing_is_named(instance_pairs(state.instances@));
            nothing_is_named(version_pairs(state.journal_versions@));
            assert(state@.journal =~= Seq::empty());
        }
        state
    }
}

/// The position of a configuration.
fn find_config(configs: &Vec<InstanceConfig>, name: &str) -> (found: Option<usize>)
    ensures
        match found {
            Some(i) => named_at(config_pairs(configs@), name@, i as int),
            None => !map_of(config_pairs(configs@)).contains_key(name@),
        },
{
    let mut i: usize = 0;
    while i < configs.len()
        invariant
            i <= configs.len(),
            forall|j: int| 0 <= j < i ==> !named_at(config_pairs(configs@), name@, j),
        decreases configs.len() - i,
    {
        if same_text(configs[i].name.as_str(), name) {
            return Some(i);
        }
        i = i + 1;
    }
    None
}

/// The position of a counter.
fn find_version(versions: &Vec<(String, u64)>, name: &str) -> (found: Option<usize>)
    ensures
        match found {
            Some(i) => named_at(version_pairs(versions@), name@, i as int),
            None => !map_of(version_pairs(versions@)).contains_key(name@),
        },
{
    let mut i: usize = 0;
    while i < versions.len()
        invariant
            i <= versions.len(),
            forall|j: int| 0 <= j < i ==> !named_at(version_pairs(versions@), name@, j),
        decreases versions.len() - i,
    {
        if same_text(versions[i].0.as_str(), name) {
            return Some(i);
        }
        i = i + 1;
    }
    None
}

/// The position at which an instance stands, or would stand.
fn place_of(instances: &Vec<InstanceView>, id: &str) -> (at: usize)
    requires
        ids_ascend(instance_models(instances@)),
    ensures
        at <= instances.len(),
        forall|i: int| 0 <= i < at ==> text_less((#[trigger] instances@[i]).id@, id@),
        at < instances.len() && instances@[at as int].id@ != id@ ==> !map_of(
            instance_pairs(instances@),
        ).contains_key(id@) && forall|i: int|
            at <= i < instances.len() ==> text_less(id@, (#[trigger] instances@[i]).id@),
        at == instances.len() ==> !map_of(instance_pairs(instances@)).contains_key(id@),
{
    let mut at: usize = 0;
    while at < instances.len() && text_before(instances[at].id.as_str(), id)
        invariant
            at <= instances.len(),
            forall|i: int| 0 <= i < at ==> text_less((#[trigger] instances@[i]).id@, id@),
        decreases instances.len() - at,
    {
        at = at + 1;
    }
    proof {
        let list = instance_models(instances@);
        let pairs = instance_pairs(instances@);
        if at == instances.len() || instances@[at as int].id@ != id@ {
            if at < instances.len() {
                less_is_total(instances@[at as int].id@, id@);
                assert forall|i: int| at <= i < instances.len() implies text_less(
                    id@,
                    (#[trigger] instances@[i]).id@,
                ) by {
                    if i > at {
                        assert(text_less(list[at as int].id, list[i].id));
                        less_is_transitive(id@, list[at as int].id, list[i].id);
                    }
                }
            }
            if map_of(pairs).contains_key(id@) {
                let i = map_has_position(pairs, id@);
                less_is_irreflexive(id@);
                assert(instances@[i].id@ == id@);
            }
        }
    }
    at
}

/// Events that wait to be recorded, each with the instance that it is about.
pub open spec fn pending_models(events: Seq<(String, JournalEventKind)>) -> Seq<
    (Seq<char>, KindModel),
> {
    events.map_values(|e: (String, JournalEventKind)| (e.0@, e.1@))
}

/// The JSON values in all of the waiting events are valid.
pub open spec fn all_pending_wf(events: Seq<(String, JournalEventKind)>) -> bool {
    forall|i: int| 0 <= i < events.len() ==> (#[trigger] events[i]).1.wf()
}

/// Tells of an instance that was not known before.
fn tell_news(view: &InstanceView, events: &mut Vec<(String, JournalEventKind)>)
    requires
        view.wf(),
        all_pending_wf(old(events)@),
    ensures
        all_pending_wf(final(events)@),
        pending_models(final(events)@) == pending_models(old(events)@) + about(
            view@.id,
            news_of(view@),
        ),
{
    events.push(
        (
            view.id.clone(),
            JournalEventKind::Registered { registration: view.registration.clone() },
        ),
    );
    events.push(
        (view.id.clone(), JournalEventKind::StatusChanged { status_info: view.status_info.clone() }),
    );
    events.push(
        (
            view.id.clone(),
            JournalEventKind::EndpointsDetected { endpoints: copy_endpoints(&view.endpoints) },
        ),
    );
    events.push((view.id.clone(), JournalEventKind::InfoChanged { info: view.info.clone() }));
    assert(pending_models(events@) =~= pending_models(old(events)@) + about(
        view@.id,
        news_of(view@),
    ));
}

/// Tells what differs of an instance that was known before, and whether its status does.
fn tell_changes(
    before: &InstanceView,
    view: &InstanceView,
    events: &mut Vec<(String, JournalEventKind)>,
) -> (changed: bool)
    requires
        before.wf(),
        view.wf(),
        all_pending_wf(old(events)@),
    ensures
        all_pending_wf(final(events)@),
        pending_models(final(events)@) == pending_models(old(events)@) + about(
            view@.id,
            changes_of(before@, view@),
        ),
        changed == status_changed(Some(before@), view@),
{
    let changed = !same_text(
        before.status_info.status.as_str(),
        view.status_info.status.as_str(),
    );
    if changed {
        events.push(
            (
                view.id.clone(),
                JournalEventKind::StatusChanged { status_info: view.status_info.clone() },
            ),
        );
    }
    if !same_endpoints(&before.endpoints, &view.endpoints) {
        events.push(
            (
                view.id.clone(),
                JournalEventKind::EndpointsDetected { endpoints: copy_endpoints(&view.endpoints) },
            ),
        );
    }
    if !before.info.same(&view.info) {
        events.push((view.id.clone(), JournalEventKind::InfoChanged { info: view.info.clone() }));
    }
    assert(pending_models(events@) =~= pending_models(old(events)@) + about(
        view@.id,
        changes_of(before@, view@),
    ));
    changed
}

impl MonitorState {
    /// The configured instances, each once.
    pub fn configs(&self) -> (configs: &Vec<InstanceConfig>)
        requires
            self.wf(),
        ensures
            names_differ(config_pairs(configs@)),
            map_of(config_pairs(configs@)) == self@.configs,
    {
        &self.configs
    }

    /// The actuator of an instance and the token to show there, by the name of the instance.
    pub fn actuator_target(&self, instance_id: &str) -> (target: Option<(String, Option<String>)>)
        requires
            self.wf(),
        ensures
            match target {
                Some((base_url, token)) => {
                    &&& self@.configs.contains_key(instance_id@)
                    &&& base_url@ == self@.configs[instance_id@].actuator_base_url
                    &&& optional_text(token) == self@.configs[instance_id@].bearer_token
                },
                None => !self@.configs.contains_key(instance_id@),
            },
    {
        match find_config(&self.configs, instance_id) {
            Some(i) => {
                proof {
                    map_holds(config_pairs(self.configs@), i as int);
                }
                let config = &self.configs[i];
                Some((config.actuator_base_url.clone(), copy_optional(&config.bearer_token)))
            },
            None => None,
        }
    }

    /// The last view of an instance, by its name.
    pub fn instance(&self, id: &str) -> (found: Option<&InstanceView>)
        requires
            self.wf(),
        ensures
            match found {
                Some(view) => view.wf() && self@.instances.contains_key(id@) && view@
                    == self@.instances[id@],
                None => !self@.instances.contains_key(id@),
            },
    {
        let at = place_of(&self.instances, id);
        if at < self.instances.len() && same_text(self.instances[at].id.as_str(), id) {
            proof {
                self.instance_names_differ();
                map_holds(instance_pairs(self.instances@), at as int);
            }
            Some(&self.instances[at])
        } else {
            None
        }
    }

    /// The journal, the oldest event first.
    pub fn journal_events(&self) -> (events: Vec<JournalEvent>)
        requires
            self.wf(),
        ensures
            all_events_wf(events@),
            event_models(events@) == self@.journal,
    {
        let mut events: Vec<JournalEvent> = Vec::new();
        let mut i: usize = 0;
        while i < self.journal.len()
            invariant
                self.wf(),
                i <= self.journal.len(),
                events.len() == i,
                all_events_wf(events@),
                forall|j: int| 0 <= j < i ==> (#[trigger] events@[j])@ == self.journal@[j]@,
            decreases self.journal.len() - i,
        {
            events.push(self.journal[i].clone());
            i = i + 1;
        }
        assert(event_models(events@) =~= self@.journal);
        events
    }

    /// Records an event with the next number of its instance, as of `timestamp`, and hands it
    /// back for those who follow the journal.
    pub fn record_at(
        &mut self,
        instance: String,
        kind: JournalEventKind,
        timestamp: String,
    ) -> (event: JournalEvent)
        requires
            old(self).wf(),
            kind.wf(),
            next_version(old(self)@.versions, instance@) < u64::MAX,
        ensures
            final(self).wf(),
            event.wf(),
            event@ == (EventModel {
                instance: instance@,
                version: next_version(old(self)@.versions, instance@) as u64,
                timestamp: timestamp@,
                kind: kind@,
            }),
            final(self)@ == recorded(old(self)@, event@),
    {
        let ghost model = self@;
        let ghost pairs = version_pairs(self.journal_versions@);
        let ghost name = instance@;
        let version: u64 = match find_version(&self.journal_versions, instance.as_str()) {
            Some(at) => {
                proof {
                    map_holds(pairs, at as int);
                }
                let assigned = self.journal_versions[at].1;
                self.journal_versions.set(at, (instance.clone(), assigned + 1));
                proof {
                    value_is_replaced(pairs, at as int, name, (assigned + 1) as nat);
                    assert(version_pairs(self.journal_versions@) =~= pairs.update(
                        at as int,
                        (name, (assigned + 1) as nat),
                    ));
                }
                assigned
            },
            None => {
                self.journal_versions.push((instance.clone(), 1));
                proof {
                    new_name_is_added(pairs, pairs.len() as int, name, 1nat);
                    assert(version_pairs(self.journal_versions@) =~= pairs.insert(
                        pairs.len() as int,
                        (name, 1nat),
                    ));
                }
                0
            },
        };
        let event = JournalEvent { instance, version, timestamp, kind };
        let copy = event.clone();
        self.journal.push_back(event);
        proof {
            counters_fit_after_recording(model.journal, model.versions, copy@);
            assert(event_models(self.journal@) =~= model.journal.push(copy@));
        }
        let ghost full = self.journal@;
        if self.journal.len() > self.journal_max_events {
            self.journal.pop_front();
            proof {
                counters_fit_after_dropping(event_models(full), self@.versions);
                assert(event_models(self.journal@) =~= event_models(full).drop_first());
                assert(event_models(self.journal@) =~= keep_last(
                    event_models(full),
                    model.journal_max_events,
                ));
            }
        }
        copy
    }

    /// Records an event with the next number of its instance, as of now, and hands it back for
    /// those who follow the journal.
    pub fn record_journal_event(&mut self, instance: String, kind: JournalEventKind) -> (event:
        JournalEvent)
        requires
            old(self).wf(),
            kind.wf(),
            next_version(old(self)@.versions, instance@) < u64::MAX,
        ensures
            final(self).wf(),
            event.wf(),
            event@.instance == instance@,
            event@.version == next_version(old(self)@.versions, instance@),
            event@.kind == kind@,
            is_timestamp(event@.timestamp),
            final(self)@ == recorded(old(self)@, event@),
    {
        let now = now_iso();
        self.record_at(instance, kind, now)
    }

    /// Keeps a view in place of the one before.
    fn keep_view(&mut self, at: usize, view: InstanceView)
        requires
            old(self).wf(),
            view.wf(),
            at <= old(self).instances.len(),
            forall|i: int|
                0 <= i < at ==> text_less((#[trigger] old(self).instances@[i]).id@, view.id@),
            at < old(self).instances.len() && old(self).instances@[at as int].id@ != view.id@
                ==> !old(self)@.instances.contains_key(view.id@) && forall|i: int|
                at <= i < old(self).instances.len() ==> text_less(
                    view.id@,
                    (#[trigger] old(self).instances@[i]).id@,
                ),
            at == old(self).instances.len() ==> !old(self)@.instances.contains_key(view.id@),
        ensures
            final(self).wf(),
            final(self)@ == (MonitorModel {
                instances: old(self)@.instances.insert(view@.id, view@),
                ..old(self)@
            }),
    {
        let ghost before = self.instances@;
        let ghost pairs = instance_pairs(before);
        let ghost list = instance_models(before);
        let ghost model = view@;
        proof {
            self.instance_names_differ();
        }
        if at < self.instances.len() && same_text(
            self.instances[at].id.as_str(),
            view.id.as_str(),
        ) {
            self.instances.set(at, view);
            proof {
                value_is_replaced(pairs, at as int, model.id, model);
                let after = instance_models(self.instances@);
                assert(instance_pairs(self.instances@) =~= pairs.update(
                    at as int,
                    (model.id, model),
                ));
                assert forall|i: int, j: int| 0 <= i < j < after.len() implies text_less(
                    (#[trigger] after[i]).id,
                    (#[trigger] after[j]).id,
                ) by {
                    assert(text_less(list[i].id, list[j].id));
                }
            }
        } else {
            self.instances.insert(at, view);
            proof {
                new_name_is_added(pairs, at as int, model.id, model);
                let after = instance_models(self.instances@);
                assert(instance_pairs(self.instances@) =~= pairs.insert(
                    at as int,
                    (model.id, model),
                ));
                assert forall|i: int, j: int| 0 <= i < j < after.len() implies text_less(
                    (#[trigger] after[i]).id,
                    (#[trigger] after[j]).id,
                ) by {
                    if i < at && j < at {
                        assert(text_less(list[i].id, list[j].id));
                    } else if i < at && j > at {
                        assert(text_less(list[i].id, list[j - 1].id));
                    } else if i > at {
                        assert(text_less(list[i - 1].id, list[j - 1].id));
                    } else if i == at {
                        assert(self.instances@[j] == before[j - 1]);
                    } else {
                        assert(self.instances@[i] == before[i]);
                    }
                }
            }
        }
    }
}

/// What a poll leaves to be told: the events that it recorded, for those who follow the journal,
/// and the applications whose status changed, for those who follow the applications.
pub struct PollReport {
    pub recorded: Vec<JournalEvent>,
    pub published: Vec<ApplicationGroup>,
}

/// The counters are far enough from the largest number for an instance to be polled that many
/// times, with all that there can be to tell of it each time.
pub open spec fn has_room(model: MonitorModel, polled: nat) -> bool {
    &&& 4 * polled <= u64::MAX
    &&& forall|name: Seq<char>| #[trigger]
        model.versions.contains_key(name) ==> model.versions[name] + 4 * polled <= u64::MAX
    &&& forall|id: Seq<char>| #[trigger]
        model.instances.contains_key(id) ==> model.instances[id].version + polled <= u64::MAX
}

/// The events are recordings of what was to be told: in that order, each with the time at which
/// it was recorded.
pub open spec fn recordings_of(
    recorded: Seq<EventModel>,
    told: Seq<(Seq<char>, KindModel)>,
) -> bool {
    &&& recorded.len() == told.len()
    &&& forall|i: int|
        0 <= i < told.len() ==> {
            &&& (#[trigger] recorded[i]).instance == told[i].0
            &&& recorded[i].kind == told[i].1
            &&& is_timestamp(recorded[i].timestamp)
        }
}

/// The applications of those names.
pub open spec fn groups_named(groups: Seq<GroupModel>, names: Set<Seq<char>>) -> Seq<GroupModel> {
    groups.filter(|g: GroupModel| names.contains(g.name))
}

/// The applications among `groups` whose names are among `names`.
fn select_groups(groups: Vec<ApplicationGroup>, names: &Vec<String>) -> (selected: Vec<
    ApplicationGroup,
>)
    requires
        all_groups_wf(groups@),
    ensures
        all_groups_wf(selected@),
        group_models(selected@) == groups_named(
            group_models(groups@),
            text_models(names@).to_set(),
        ),
{
    let ghost given = groups@;
    let ghost all = group_models(given);
    let ghost wanted = text_models(names@).to_set();
    let ghost named = |g: GroupModel| wanted.contains(g.name);
    let mut selected: Vec<ApplicationGroup> = Vec::new();
    proof {
        filter_begins(all, named);
    }
    assert(group_models(selected@) =~= Seq::empty());
    for group in it: groups
        invariant
            it.seq() == given,
            all_groups_wf(given),
            all == group_models(given),
            wanted == text_models(names@).to_set(),
            named == (|g: GroupModel| wanted.contains(g.name)),
            all_groups_wf(selected@),
            group_models(selected@) == all.take(it.index() as int).filter(named),
    {
        let ghost before = selected@;
        let ghost i = it.index() as int;
        assert(group == given[i]);
        assert(all[i] == group@);
        proof {
            filter_goes_on(all, named, i);
        }
        if among(names, group.name.as_str()) {
            selected.push(group);
            assert(group_models(selected@) =~= group_models(before).push(all[i]));
        }
    }
    assert(all.take(all.len() as int) =~= all);
    selected
}

impl MonitorState {
    /// Whether the counters are far enough from the largest number for an instance to be polled
    /// that many times. Once is enough for a poll that reaches each instance once.
    pub fn has_room_for(&self, polled: usize) -> (room: bool)
        requires
            self.wf(),
        ensures
            room == has_room(self@, polled as nat),
    {
        let most: u128 = u64::MAX as u128;
        let events: u128 = 4 * (polled as u128);
        if events > most {
            return false;
        }
        let mut i: usize = 0;
        while i < self.journal_versions.len()
            invariant
                self.wf(),
                most == u64::MAX,
                events == 4 * polled,
                events <= most,
                i <= self.journal_versions.len(),
                forall|j: int|
                    0 <= j < i ==> (#[trigger] self.journal_versions@[j]).1 + events <= most,
            decreases self.journal_versions.len() - i,
        {
            if self.journal_versions[i].1 as u128 + events > most {
                proof {
                    let pairs = version_pairs(self.journal_versions@);
                    map_holds(pairs, i as int);
                    assert(self@.versions.contains_key(pairs[i as int].0));
                }
                return false;
            }
            i = i + 1;
        }
        let mut k: usize = 0;
        while k < self.instances.len()
            invariant
                self.wf(),
                most == u64::MAX,
                k <= self.instances.len(),
                forall|j: int|
                    0 <= j < k ==> (#[trigger] self.instances@[j]).version + polled <= most,
            decreases self.instances.len() - k,
        {
            if self.instances[k].version as u128 + polled as u128 > most {
                proof {
                    let pairs = instance_pairs(self.instances@);
                    self.instance_names_differ();
                    map_holds(pairs, k as int);
                    assert(self@.instances.contains_key(pairs[k as int].0));
                }
                return false;
            }
            k = k + 1;
        }
        proof {
            assert forall|name: Seq<char>| #[trigger] self@.versions.contains_key(name) implies
                self@.versions[name] + 4 * polled <= u64::MAX by {
                let pairs = version_pairs(self.journal_versions@);
                let j = map_has_position(pairs, name);
                map_holds(pairs, j);
                assert(self.journal_versions@[j].1 + events <= most);
            }
            assert forall|id: Seq<char>| #[trigger] self@.instances.contains_key(id) implies
                self@.instances[id].version + polled <= u64::MAX by {
                let pairs = instance_pairs(self.instances@);
                self.instance_names_differ();
                let j = map_has_position(pairs, id);
                map_holds(pairs, j);
                assert(self.instances@[j].version + polled <= most);
            }
        }
        true
    }

    /// Takes the view of one instance in: keeps it, and adds what there is to tell.
    fn take_in_view(
        &mut self,
        view: InstanceView,
        events: &mut Vec<(String, JournalEventKind)>,
        changed: &mut Vec<String>,
    )
        requires
            old(self).wf(),
            view.wf(),
            all_pending_wf(old(events)@),
            old(self)@.instances.contains_key(view@.id) ==> old(self)@.instances[view@.id].version
                < u64::MAX,
        ensures
            final(self).wf(),
            all_pending_wf(final(events)@),
            take_in(
                PollModel {
                    instances: old(self)@.instances,
                    events: pending_models(old(events)@),
                    changed: text_models(old(changed)@).to_set(),
                },
                view@,
            ) == (PollModel {
                instances: final(self)@.instances,
                events: pending_models(final(events)@),
                changed: text_models(final(changed)@).to_set(),
            }),
            final(self)@ == (MonitorModel { instances: final(self)@.instances, ..old(self)@ }),
    {
        let ghost found = view@;
        let ghost known_before = previous_of(self@.instances, found.id);
        let at = place_of(&self.instances, view.id.as_str());
        let known = at < self.instances.len() && same_text(
            self.instances[at].id.as_str(),
            view.id.as_str(),
        );
        let mut view = view;
        if known {
            proof {
                self.instance_names_differ();
                map_holds(instance_pairs(self.instances@), at as int);
                assert(known_before == Some(self.instances@[at as int]@));
            }
            if tell_changes(&self.instances[at], &view, events) {
                let ghost names = changed@;
                changed.push(view.registration.name.clone());
                assert(text_models(changed@) =~= text_models(names).push(
                    found.registration.name,
                ));
                assert(text_models(changed@).to_set() =~= text_models(names).to_set().insert(
                    found.registration.name,
                )) by {
                    assert(text_models(changed@).last() == found.registration.name);
                    assert forall|name: Seq<char>| text_models(names).contains(
                        name,
                    ) implies text_models(changed@).contains(name) by {
                        let i = text_models(names).index_of(name);
                        assert(text_models(changed@)[i] == name);
                    }
                }
            }
            let version: u64 = self.instances[at].version + 1;
            view.version = version;
        } else {
            tell_news(&view, events);
            view.version = 1;
        }
        self.keep_view(at, view);
    }

    /// Takes the views in that a poll found, records what there is to tell of them, and reports
    /// what others wait for. An application is published only where its status changed: an
    /// instance that is seen for the first time is no change, and a poll that finds everything
    /// as it was publishes nothing.
    #[verifier::spinoff_prover]
    #[verifier::rlimit(40)]
    pub fn poll_once(&mut self, views: Vec<InstanceView>) -> (report: PollReport)
        requires
            old(self).wf(),
            all_instances_wf(views@),
            has_room(old(self)@, views@.len()) || (ids_differ(instance_models(views@)) && has_room(
                old(self)@,
                1,
            )),
        ensures
            final(self).wf(),
            all_events_wf(report.recorded@),
            all_groups_wf(report.published@),
            ({
                let before = old(self)@;
                let after = final(self)@;
                let poll = poll_of(before.instances, instance_models(views@));
                let events = event_models(report.recorded@);
                &&& after == (MonitorModel {
                    instances: poll.instances,
                    journal: keep_last(before.journal + events, before.journal_max_events),
                    versions: versions_after(before.versions, events),
                    ..before
                })
                &&& recordings_of(events, poll.events)
                &&& numbered(before.versions, events)
                &&& group_models(report.published@) == groups_named(
                    groups_of(in_order(poll.instances)),
                    poll.changed,
                )
            }),
    {
        let ghost start = self@;
        let ghost given = views@;
        let ghost found = instance_models(given);
        let ghost n = given.len();
        let mut events: Vec<(String, JournalEventKind)> = Vec::new();
        let mut changed: Vec<String> = Vec::new();
        assert(pending_models(events@) =~= Seq::empty());
        assert(text_models(changed@).to_set() =~= Set::empty());
        assert(found.take(0) =~= Seq::empty());
        for view in it: views
            invariant
                it.seq() == given,
                n == given.len(),
                all_instances_wf(given),
                found == instance_models(given),
                has_room(start, n) || (ids_differ(found) && has_room(start, 1)),
                self.wf(),
                self@ == (MonitorModel { instances: self@.instances, ..start }),
                poll_of(start.instances, found.take(it.index() as int)) == (PollModel {
                    instances: self@.instances,
                    events: pending_models(events@),
                    changed: text_models(changed@).to_set(),
                }),
                all_pending_wf(events@),
                events.len() <= 4 * it.index(),
                has_room(start, n) ==> forall|id: Seq<char>| #[trigger]
                    self@.instances.contains_key(id) ==> self@.instances[id].version + (n
                        - it.index()) <= u64::MAX,
                ids_differ(found) ==> forall|k: int|
                    it.index() <= k < n ==> previous_of(
                        self@.instances,
                        (#[trigger] found[k]).id,
                    ) == previous_of(start.instances, found[k].id),
        {
            let ghost i = it.index() as int;
            assert(view == given[i]);
            assert(found[i] == view@);
            assert(found.take(i + 1).drop_last() =~= found.take(i));
            assert(found.take(i + 1).last() == found[i]);
            let ghost kinds = told_of(previous_of(self@.instances, view@.id), view@);
            let ghost so_far = pending_models(events@);
            assert(previous_of(self@.instances, found[i].id) matches Some(before)
                ==> before.version < u64::MAX);
            self.take_in_view(view, &mut events, &mut changed);
            assert(kinds.len() <= 4);
            assert(pending_models(events@) == so_far + about(found[i].id, kinds));
            assert(pending_models(events@).len() == so_far.len() + kinds.len());
        }
        assert(found.take(n as int) =~= found);
        let ghost poll = poll_of(start.instances, found);
        let ghost told = pending_models(events@);
        let ghost waiting = events@;
        let ghost total = events@.len();
        let mut recorded: Vec<JournalEvent> = Vec::new();
        proof {
            assert(event_models(recorded@) =~= Seq::empty());
            assert(start.journal + event_models(recorded@) =~= start.journal);
            self.journal_is_bounded_and_numbered();
            assert forall|name: Seq<char>| #[trigger]
                next_version(start.versions, name) + count_about(told, name) <= u64::MAX by {
                count_is_bounded(told, name);
                if !has_room(start, n) {
                    few_events_each(start.instances, found, name);
                }
            }
            assert(told.skip(0) =~= told);
        }
        for event in it: events
            invariant
                it.seq() == waiting,
                total == waiting.len(),
                told == pending_models(waiting),
                all_pending_wf(waiting),
                self.wf(),
                self@ == (MonitorModel {
                    instances: poll.instances,
                    journal: keep_last(
                        start.journal + event_models(recorded@),
                        start.journal_max_events,
                    ),
                    versions: versions_after(start.versions, event_models(recorded@)),
                    ..start
                }),
                all_events_wf(recorded@),
                recorded.len() == it.index(),
                recordings_of(event_models(recorded@), told.take(it.index() as int)),
                numbered(start.versions, event_models(recorded@)),
                forall|name: Seq<char>| #[trigger]
                    next_version(self@.versions, name) + count_about(
                        told.skip(it.index() as int),
                        name,
                    ) <= u64::MAX,
        {
            let ghost i = it.index() as int;
            let ghost before = event_models(recorded@);
            assert(event == waiting[i]);
            assert(told[i] == (event.0@, event.1@));
            let (instance, kind) = event;
            let ghost counters = self@.versions;
            assert(told.skip(i).drop_first() =~= told.skip(i + 1));
            assert(told.skip(i)[0] == told[i]);
            assert(next_version(counters, instance@) + count_about(told.skip(i), instance@)
                <= u64::MAX);
            let done = self.record_journal_event(instance, kind);
            let ghost model = done@;
            recorded.push(done);
            proof {
                let after = event_models(recorded@);
                assert(after =~= before.push(model));
                numbering_goes_on(start.versions, before, model);
                keeping_twice_is_keeping_once(
                    start.journal + before,
                    seq![model],
                    start.journal_max_events,
                );
                assert(start.journal + after =~= (start.journal + before) + seq![model]);
                assert(keep_last(start.journal + before, start.journal_max_events).push(model)
                    =~= keep_last(start.journal + before, start.journal_max_events)
                    + seq![model]);
                assert forall|k: int| 0 <= k < i + 1 implies {
                    &&& (#[trigger] after[k]).instance == told.take(i + 1)[k].0
                    &&& after[k].kind == told.take(i + 1)[k].1
                    &&& is_timestamp(after[k].timestamp)
                } by {
                    if k < i {
                        assert(after[k] == before[k]);
                        assert(told.take(i)[k] == told.take(i + 1)[k]);
                    }
                }
                assert forall|name: Seq<char>| #[trigger]
                    next_version(self@.versions, name) + count_about(told.skip(i + 1), name)
                        <= u64::MAX by {
                    assert(next_version(counters, name) + count_about(told.skip(i), name)
                        <= u64::MAX);
                }
            }
        }
        assert(told.take(total as int) =~= told);
        proof {
            self.instances_are_in_order();
        }
        let published = if changed.len() == 0 {
            let none: Vec<ApplicationGroup> = Vec::new();
            proof {
                let all = groups_of(in_order(poll.instances));
                let named = |g: GroupModel| poll.changed.contains(g.name);
                assert(text_models(changed@).to_set() =~= Set::empty());
                nothing_passes(all, named);
                assert(group_models(none@) =~= Seq::empty());
            }
            none
        } else {
            select_groups(group_instances(&self.instances), &changed)
        };
        PollReport { recorded, published }
    }
}

/// The applications that the instances make up, for the user interface and for those who follow
/// the applications.
pub fn build_application_groups(state: &MonitorState) -> (groups: Vec<ApplicationGroup>)
    requires
        state.wf(),
    ensures
        all_groups_wf(groups@),
        group_models(groups@) == groups_of(in_order(state@.instances)),
{
    proof {
        state.instances_are_in_order();
    }
    group_instances(&state.instances)
}

/// A poll publishes exactly the applications with an instance whose status is another one than
/// before the poll.
pub proof fn published_are_the_changed(
    instances: Map<Seq<char>, InstanceModel>,
    views: Seq<InstanceModel>,
    group: GroupModel,
)
    requires
        ids_differ(views),
    ensures
        ({
            let poll = poll_of(instances, views);
            let groups = groups_of(in_order(poll.instances));
            groups_named(groups, poll.changed).contains(group) <==> groups.contains(group)
                && exists|i: int|
                0 <= i < views.len() && (#[trigger] views[i]).registration.name == group.name
                    && status_changed(previous_of(instances, views[i].id), views[i])
        }),
{
    let poll = poll_of(instances, views);
    let groups = groups_of(in_order(poll.instances));
    let named = |g: GroupModel| poll.changed.contains(g.name);
    poll_tells_real_changes(instances, views);
    if groups_named(groups, poll.changed).contains(group) {
        let k = groups_named(groups, poll.changed).index_of(group);
        groups.lemma_filter_pred(named, k);
        groups.lemma_filter_contains_rev(named, group);
    }
    if groups.contains(group) && poll.changed.contains(group.name) {
        let k = groups.index_of(group);
        groups.lemma_filter_contains(named, k);
    }
}

/// An instance whose status changed is told about with its new status: the application that is
/// published holds the view that the poll found.
pub proof fn changed_status_is_published(
    instances: Map<Seq<char>, InstanceModel>,
    views: Seq<InstanceModel>,
    i: int,
)
    requires
        ids_differ(views),
        0 <= i < views.len(),
        status_changed(previous_of(instances, views[i].id), views[i]),
        ({
            let after = poll_of(instances, views).instances;
            lists_instances(after, in_order(after))
        }),
    ensures
        ({
            let poll = poll_of(instances, views);
            let published = groups_named(groups_of(in_order(poll.instances)), poll.changed);
            exists|g: int|
                0 <= g < published.len() && (#[trigger] published[g]).name
                    == views[i].registration.name && published[g].instances.contains(
                    kept_view(previous_of(instances, views[i].id), views[i]),
                )
        }),
{
    let poll = poll_of(instances, views);
    let list = in_order(poll.instances);
    let groups = groups_of(list);
    let kept = kept_view(previous_of(instances, views[i].id), views[i]);
    poll_keeps_each_view(instances, views);
    assert(previous_of(poll.instances, views[i].id) == Some(kept));
    let k = choose|k: int| 0 <= k < list.len() && (#[trigger] list[k]).id == views[i].id;
    assert(list[k] == kept);
    every_instance_has_one_group(list, k);
    let g = choose|g: int|
        0 <= g < groups.len() && (#[trigger] groups[g]).instances.contains(list[k]);
    assert(groups[g].name == views[i].registration.name);
    published_are_the_changed(instances, views, groups[g]);
    assert(groups.contains(groups[g]));
    let published = groups_named(groups, poll.changed);
    let at = published.index_of(groups[g]);
    assert(published[at] == groups[g]);
}

/// A poll that finds every instance as it was leaves the journal and its counters alone and
/// publishes nothing.
pub proof fn quiet_poll_is_silent(
    before: MonitorModel,
    views: Seq<InstanceModel>,
    events: Seq<EventModel>,
)
    requires
        before.journal.len() <= before.journal_max_events,
        ids_differ(views),
        forall|i: int|
            0 <= i < views.len() ==> {
                &&& before.instances.contains_key((#[trigger] views[i]).id)
                &&& before.instances[views[i].id].status_info.status
                    == views[i].status_info.status
                &&& before.instances[views[i].id].endpoints == views[i].endpoints
                &&& same_json(before.instances[views[i].id].info, views[i].info)
            },
        recordings_of(events, poll_of(before.instances, views).events),
    ensures
        events.len() == 0,
        keep_last(before.journal + events, before.journal_max_events) == before.journal,
        versions_after(before.versions, events) == before.versions,
        groups_named(
            groups_of(in_order(poll_of(before.instances, views).instances)),
            poll_of(before.instances, views).changed,
        ) == Seq::<GroupModel>::empty(),
{
    let poll = poll_of(before.instances, views);
    quiet_poll_tells_nothing(before.instances, views);
    assert(before.journal + events =~= before.journal);
    nothing_passes(
        groups_of(in_order(poll.instances)),
        |g: GroupModel| poll.changed.contains(g.name),
    );
}

/// Recording events keeps the journal within its bound, drops the oldest first, and never loses
/// the newest ones.
pub proof fn journal_keeps_the_newest(
    journal: Seq<EventModel>,
    events: Seq<EventModel>,
    max: nat,
    i: int,
)
    requires
        0 <= i < (journal + events).len(),
    ensures
        keep_last(journal + events, max).len() <= max,
        (journal + events).len() <= max ==> keep_last(journal + events, max) == journal + events,
        (journal + events).len() - i <= max ==> keep_last(journal + events, max).contains(
            (journal + events)[i],
        ),
{
    let all = journal + events;
    let kept = keep_last(all, max);
    if all.len() - i <= max {
        let at = i - (all.len() - kept.len());
        assert(kept[at] == all[i]);
    }
}

/// Where an instance was known before a poll with another text as its status than the poll found,
/// whichever the two texts are, its application is published, and with what the poll found.
pub proof fn each_changed_status_is_published(
    instances: Map<Seq<char>, InstanceModel>,
    views: Seq<InstanceModel>,
    i: int,
)
    requires
        forall|a: int, b: int|
            0 <= a < b < views.len() ==> (#[trigger] views[a]).id != (#[trigger] views[b]).id,
        0 <= i < views.len(),
        instances.contains_key(views[i].id),
        instances[views[i].id].status_info.status != views[i].status_info.status,
        ({
            let after = poll_of(instances, views).instances;
            lists_instances(after, in_order(after))
        }),
    ensures
        ({
            let poll = poll_of(instances, views);
            let published = groups_named(groups_of(in_order(poll.instances)), poll.changed);
            exists|g: int, k: int|
                0 <= g < published.len() && 0 <= k < published[g].instances.len()
                    && published[g].name == views[i].registration.name && (
                #[trigger] published[g].instances[k]) == (InstanceModel {
                    version: published[g].instances[k].version,
                    ..views[i]
                })
        }),
{
    assert(ids_differ(views));
    changed_status_is_published(instances, views, i);
    let poll = poll_of(instances, views);
    let published = groups_named(groups_of(in_order(poll.instances)), poll.changed);
    let kept = kept_view(previous_of(instances, views[i].id), views[i]);
    let g = choose|g: int|
        0 <= g < published.len() && (#[trigger] published[g]).name == views[i].registration.name
            && published[g].instances.contains(kept);
    let k = published[g].instances.index_of(kept);
    assert(published[g].instances[k] == kept);
}

/// Each published application is one of the applications as they are after the poll, has an
/// instance that was known before with another text as its status, and is published once.
pub proof fn only_changed_status_is_published(
    instances: Map<Seq<char>, InstanceModel>,
    views: Seq<InstanceModel>,
    g: int,
)
    requires
        forall|a: int, b: int|
            0 <= a < b < views.len() ==> (#[trigger] views[a]).id != (#[trigger] views[b]).id,
        0 <= g < groups_named(
            groups_of(in_order(poll_of(instances, views).instances)),
            poll_of(instances, views).changed,
        ).len(),
    ensures
        ({
            let poll = poll_of(instances, views);
            let groups = groups_of(in_order(poll.instances));
            let published = groups_named(groups, poll.changed);
            &&& groups.contains(published[g])
            &&& exists|i: int|
                0 <= i < views.len() && (#[trigger] views[i]).registration.name
                    == published[g].name && instances.contains_key(views[i].id)
                    && instances[views[i].id].status_info.status != views[i].status_info.status
            &&& forall|h: int|
                0 <= h < published.len() && h != g ==> (#[trigger] published[h]).name
                    != published[g].name
        }),
{
    let poll = poll_of(instances, views);
    let groups = groups_of(in_order(poll.instances));
    let published = groups_named(groups, poll.changed);
    let named = |x: GroupModel| poll.changed.contains(x.name);
    groups.lemma_filter_pred(named, g);
    groups.lemma_filter_contains_rev(named, published[g]);
    changed_status_is_named(instances, views, published[g].name);
    applications_are_the_names(in_order(poll.instances), published[g].name);
    filtered_names_differ(groups, poll.changed);
}

/// Applications with different names still have different names after a selection.
proof fn filtered_names_differ(groups: Seq<GroupModel>, names: Set<Seq<char>>)
    requires
        forall|a: int, b: int|
            0 <= a < b < groups.len() ==> (#[trigger] groups[a]).name != (#[trigger] groups[b]).name,
    ensures
        forall|a: int, b: int|
            0 <= a < groups_named(groups, names).len() && 0 <= b < groups_named(groups, names).len()
                && a != b ==> (#[trigger] groups_named(groups, names)[a]).name != (
            #[trigger] groups_named(groups, names)[b]).name,
    decreases groups.len(),
{
    reveal(Seq::filter);
    if groups.len() > 0 {
        let fewer = groups.drop_last();
        let named = |x: GroupModel| names.contains(x.name);
        assert forall|a: int, b: int| 0 <= a < b < fewer.len() implies (#[trigger] fewer[a]).name
            != (#[trigger] fewer[b]).name by {
            assert(groups[a].name != groups[b].name);
        }
        filtered_names_differ(fewer, names);
        assert forall|a: int| 0 <= a < groups_named(fewer, names).len() implies (
        #[trigger] groups_named(fewer, names)[a]).name != groups.last().name by {
            let item = groups_named(fewer, names)[a];
            fewer.lemma_filter_contains_rev(named, item);
            let k = fewer.index_of(item);
            assert(groups[k].name != groups[groups.len() - 1].name);
        }
    }
}

/// What was recorded is what was to be told, one for one: about that instance, of that kind, and
/// with a time.
pub proof fn recordings_tell_what_was_told(
    recorded: Seq<EventModel>,
    told: Seq<(Seq<char>, KindModel)>,
    i: int,
)
    requires
        recordings_of(recorded, told),
        0 <= i < told.len(),
    ensures
        recorded.len() == told.len(),
        (recorded[i].instance, recorded[i].kind) == told[i],
        is_timestamp(recorded[i].timestamp),
{
}

/// Recording an event changes the journal and the counter of the instance, and nothing else: the
/// event is the newest of the journal, unless the journal keeps none, the events before it stay
/// in their order as far as there is room, and the counter goes up by one.
pub proof fn recording_adds_the_newest(model: MonitorModel, event: EventModel)
    requires
        model.journal.len() <= model.journal_max_events,
    ensures
        ({
            let after = recorded(model, event);
            let n = after.journal.len();
            &&& after.configs == model.configs
            &&& after.instances == model.instances
            &&& after.journal_max_events == model.journal_max_events
            &&& n == if model.journal.len() < model.journal_max_events {
                model.journal.len() + 1
            } else {
                model.journal_max_events
            }
            &&& n > 0 ==> after.journal[n - 1] == event
            &&& forall|i: int|
                0 <= i < model.journal.len() && (i > 0 || model.journal.len()
                    < model.journal_max_events) ==> after.journal[n - 1 - (model.journal.len() - i)]
                    == #[trigger] model.journal[i]
            &&& after.versions.contains_key(event.instance)
            &&& after.versions[event.instance] == 1 + (if model.versions.contains_key(
                event.instance,
            ) {
                model.versions[event.instance]
            } else {
                0
            })
            &&& forall|name: Seq<char>|
                name != event.instance ==> (#[trigger] after.versions.contains_key(name)
                    <==> model.versions.contains_key(name)) && (model.versions.contains_key(name)
                    ==> after.versions[name] == model.versions[name])
        }),
{
}

/// The first event of an instance has the number zero, and each further one the number of the
/// events before it.
pub proof fn numbers_begin_at_zero(model: MonitorModel, event: EventModel)
    ensures
        !model.versions.contains_key(event.instance) ==> next_version(
            model.versions,
            event.instance,
        ) == 0,
        next_version(recorded(model, event).versions, event.instance) == next_version(
            model.versions,
            event.instance,
        ) + 1,
{
}

/// Of the configurations of one name the last one counts.
pub proof fn last_configuration_counts(configs: Seq<InstanceConfig>, i: int)
    requires
        0 <= i < configs.len(),
        forall|j: int| i < j < configs.len() ==> (#[trigger] configs[j]).name@ != configs[i].name@,
    ensures
        configs_by_name(configs).contains_key(configs[i].name@),
        configs_by_name(configs)[configs[i].name@] == configs[i]@,
    decreases configs.len(),
{
    let fewer = configs.drop_last();
    let last = configs.len() - 1;
    if i < last {
        assert forall|j: int| i < j < fewer.len() implies (#[trigger] fewer[j]).name@
            != fewer[i].name@ by {
            assert(configs[j].name@ != configs[i].name@);
        }
        last_configuration_counts(fewer, i);
        assert(configs[last].name@ != configs[i].name@);
    }
}

/// No name is known that is not configured.
pub proof fn known_names_are_configured(configs: Seq<InstanceConfig>, name: Seq<char>)
    requires
        configs_by_name(configs).contains_key(name),
    ensures
        exists|i: int| 0 <= i < configs.len() && (#[trigger] configs[i]).name@ == name,
    decreases configs.len(),
{
    let fewer = configs.drop_last();
    let last = configs.len() - 1;
    if configs[last].name@ != name {
        known_names_are_configured(fewer, name);
        let i = choose|i: int| 0 <= i < fewer.len() && (#[trigger] fewer[i]).name@ == name;
        assert(configs[i].name@ == name);
    }
}

/// A list of all instances has each of them once, as it is known, and the names ascend by their
/// code points.
pub proof fn listed_instances_ascend(
    instances: Map<Seq<char>, InstanceModel>,
    list: Seq<InstanceModel>,
    id: Seq<char>,
)
    requires
        lists_instances(instances, list),
    ensures
        forall|i: int, j: int|
            0 <= i < j < list.len() ==> text_less((#[trigger] list[i]).id, (#[trigger] list[j]).id),
        forall|i: int|
            0 <= i < list.len() ==> instances.contains_key((#[trigger] list[i]).id)
                && instances[list[i].id] == list[i],
        instances.contains_key(id) ==> exists|i: int|
            0 <= i < list.len() && (#[trigger] list[i]).id == id,
{
}

/// Counters that are at least four times the polls away from the largest number leave room.
pub proof fn far_counters_leave_room(model: MonitorModel, polled: nat)
    requires
        4 * polled <= u64::MAX,
        forall|name: Seq<char>| #[trigger]
            model.versions.contains_key(name) ==> model.versions[name] + 4 * polled <= u64::MAX,
        forall|id: Seq<char>| #[trigger]
            model.instances.contains_key(id) ==> model.instances[id].version + polled <= u64::MAX,
    ensures
        has_room(model, polled),
{
}

} // verus!
