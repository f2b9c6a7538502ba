//! Instances that share a name, seen as one application.

use crate::model::{all_instances_wf, copy_optional, instance_models};
use crate::model::{ApplicationGroup, GroupModel, InstanceModel, InstanceView};
use crate::text::{less_is_irreflexive, less_is_total, less_is_transitive};
use crate::text::{same_text, text_before, text_less};
use vstd::prelude::*;

verus! {

/// The names of the instances, each once, in the order in which they first come.
pub open spec fn names_of(instances: Seq<InstanceModel>) -> Seq<Seq<char>>
    decreases instances.len(),
{
    if instances.len() == 0 {
        Seq::empty()
    } else {
        let names = names_of(instances.drop_last());
        let name = instances.last().registration.name;
        if names.contains(name) {
            names
        } else {
            names.push(name)
        }
    }
}

/// The instances of one name.
pub open spec fn members_of(instances: Seq<InstanceModel>, name: Seq<char>) -> Seq<InstanceModel> {
    instances.filter(|v: InstanceModel| v.registration.name == name)
}

/// The status of an application: up where any of its instances is, offline where all of them
/// are, down otherwise.
pub open spec fn group_status(members: Seq<InstanceModel>) -> Seq<char> {
    if exists|i: int| 0 <= i < members.len() && (#[trigger] members[i]).status_info.status == "UP"@ {
        "UP"@
    } else if forall|i: int|
        0 <= i < members.len() ==> (#[trigger] members[i]).status_info.status == "OFFLINE"@ {
        "OFFLINE"@
    } else {
        "DOWN"@
    }
}

/// The greatest of the times at which the instances were seen; without instances, nothing.
pub open spec fn latest_of(members: Seq<InstanceModel>) -> Seq<char>
    decreases members.len(),
{
    if members.len() == 0 {
        Seq::empty()
    } else {
        let latest = latest_of(members.drop_last());
        let last = members.last().status_timestamp;
        if text_less(latest, last) {
            last
        } else {
            latest
        }
    }
}

/// The application of one name.
pub open spec fn group_of(instances: Seq<InstanceModel>, name: Seq<char>) -> GroupModel {
    let members = members_of(instances, name);
    GroupModel {
        build_version: if members.len() > 0 {
            members[0].build_version
        } else {
            None
        },
        instances: members,
        name,
        status: group_status(members),
        status_timestamp: latest_of(members),
    }
}

/// The applications that instances make up.
pub open spec fn groups_of(instances: Seq<InstanceModel>) -> Seq<GroupModel> {
    names_of(instances).map_values(|name: Seq<char>| group_of(instances, name))
}

/// A list of applications.
pub open spec fn group_models(groups: Seq<ApplicationGroup>) -> Seq<GroupModel> {
    groups.map_values(|g: ApplicationGroup| g@)
}

/// The JSON values in all of the applications are valid.
pub open spec fn all_groups_wf(groups: Seq<ApplicationGroup>) -> bool {
    forall|i: int| 0 <= i < groups.len() ==> (#[trigger] groups[i]).wf()
}

/// A list of texts.
pub open spec fn text_models(texts: Seq<String>) -> Seq<Seq<char>> {
    texts.map_values(|t: String| t@)
}

/// Whether a text is among others.
pub fn among(texts: &Vec<String>, text: &str) -> (found: bool)
    ensures
        found == text_models(texts@).contains(text@),
{
    let ghost list = text_models(texts@);
    let mut i: usize = 0;
    while i < texts.len()
        invariant
            i <= texts.len(),
            list == text_models(texts@),
            forall|j: int| 0 <= j < i ==> #[trigger] list[j] != text@,
        decreases texts.len() - i,
    {
        assert(list[i as int] == texts@[i as int]@);
        if same_text(texts[i].as_str(), text) {
            assert(list.contains(text@));
            return true;
        }
        i = i + 1;
    }
    false
}

/// Copies of the instances of one name.
fn copy_members(instances: &Vec<InstanceView>, name: &str) -> (members: Vec<InstanceView>)
    requires
        all_instances_wf(instances@),
    ensures
        all_instances_wf(members@),
        instance_models(members@) == members_of(instance_models(instances@), name@),
{
    let ghost all = instance_models(instances@);
    let ghost named = |v: InstanceModel| v.registration.name == name@;
    let mut members: Vec<InstanceView> = Vec::new();
    let mut i: usize = 0;
    assert(all.take(0).filter(named) =~= Seq::empty()) by {
        reveal(Seq::filter);
    }
    assert(instance_models(members@) =~= Seq::empty());
    while i < instances.len()
        invariant
            i <= instances.len(),
            all_instances_wf(instances@),
            all == instance_models(instances@),
            named == (|v: InstanceModel| v.registration.name == name@),
            all_instances_wf(members@),
            instance_models(members@) == all.take(i as int).filter(named),
        decreases instances.len() - i,
    {
        let ghost before = members@;
        assert(all[i as int] == instances@[i as int]@);
        assert(all.take(i + 1).drop_last() =~= all.take(i as int));
        assert(all.take(i + 1).last() == all[i as int]);
        proof {
            reveal(Seq::filter);
        }
        if same_text(instances[i].registration.name.as_str(), name) {
            members.push(instances[i].clone());
            assert(instance_models(members@) =~= instance_models(before).push(all[i as int]));
        }
        i = i + 1;
    }
    assert(all.take(i as int) =~= all);
    members
}

/// The status of an application.
fn status_of(members: &Vec<InstanceView>) -> (status: String)
    ensures
        status@ == group_status(instance_models(members@)),
{
    let ghost all = instance_models(members@);
    let mut all_offline = true;
    let mut i: usize = 0;
    while i < members.len()
        invariant
            i <= members.len(),
            all == instance_models(members@),
            forall|j: int| 0 <= j < i ==> (#[trigger] all[j]).status_info.status != "UP"@,
            all_offline == forall|j: int|
                0 <= j < i ==> (#[trigger] all[j]).status_info.status == "OFFLINE"@,
        decreases members.len() - i,
    {
        assert(all[i as int] == members@[i as int]@);
        if same_text(members[i].status_info.status.as_str(), "UP") {
            return "UP".to_owned();
        }
        if !same_text(members[i].status_info.status.as_str(), "OFFLINE") {
            all_offline = false;
        }
        i = i + 1;
    }
    if all_offline {
        "OFFLINE".to_owned()
    } else {
        "DOWN".to_owned()
    }
}

/// The greatest of the times at which the instances were seen.
fn latest_timestamp(members: &Vec<InstanceView>) -> (latest: String)
    ensures
        latest@ == latest_of(instance_models(members@)),
{
    let ghost all = instance_models(members@);
    let mut latest = String::new();
    let mut i: usize = 0;
    while i < members.len()
        invariant
            i <= members.len(),
            all == instance_models(members@),
            latest@ == latest_of(all.take(i as int)),
        decreases members.len() - i,
    {
        assert(all[i as int] == members@[i as int]@);
        assert(all.take(i + 1).drop_last() =~= all.take(i as int));
        if text_before(latest.as_str(), members[i].status_timestamp.as_str()) {
            latest = members[i].status_timestamp.clone();
        }
        i = i + 1;
    }
    assert(all.take(i as int) =~= all);
    latest
}

/// The application of one name.
fn gather(instances: &Vec<InstanceView>, name: &str) -> (group: ApplicationGroup)
    requires
        all_instances_wf(instances@),
    ensures
        group.wf(),
        group@ == group_of(instance_models(instances@), name@),
{
    let members = copy_members(instances, name);
    let ghost all = instance_models(members@);
    let build_version = if members.len() > 0 {
        assert(all[0] == members@[0]@);
        copy_optional(&members[0].build_version)
    } else {
        None
    };
    ApplicationGroup {
        build_version,
        status: status_of(&members),
        status_timestamp: latest_timestamp(&members),
        name: name.to_owned(),
        instances: members,
    }
}

/// The names of the instances, each once.
fn distinct_names(instances: &Vec<InstanceView>) -> (names: Vec<String>)
    ensures
        text_models(names@) == names_of(instance_models(instances@)),
{
    let ghost all = instance_models(instances@);
    let mut names: Vec<String> = Vec::new();
    let mut i: usize = 0;
    assert(text_models(names@) =~= Seq::empty());
    while i < instances.len()
        invariant
            i <= instances.len(),
            all == instance_models(instances@),
            text_models(names@) == names_of(all.take(i as int)),
        decreases instances.len() - i,
    {
        let ghost before = names@;
        assert(all[i as int] == instances@[i as int]@);
        assert(all.take(i + 1).drop_last() =~= all.take(i as int));
        if !among(&names, instances[i].registration.name.as_str()) {
            names.push(instances[i].registration.name.clone());
            assert(text_models(names@) =~= text_models(before).push(
                all[i as int].registration.name,
            ));
        }
        i = i + 1;
    }
    assert(all.take(i as int) =~= all);
    names
}

/// The applications that instances make up.
pub fn group_instances(instances: &Vec<InstanceView>) -> (groups: Vec<ApplicationGroup>)
    requires
        all_instances_wf(instances@),
    ensures
        all_groups_wf(groups@),
        group_models(groups@) == groups_of(instance_models(instances@)),
{
    let ghost all = instance_models(instances@);
    let names = distinct_names(instances);
    let ghost wanted = groups_of(all);
    let mut groups: Vec<ApplicationGroup> = Vec::new();
    let mut i: usize = 0;
    while i < names.len()
        invariant
            i <= names.len(),
            all == instance_models(instances@),
            all_instances_wf(instances@),
            text_models(names@) == names_of(all),
            wanted == groups_of(all),
            all_groups_wf(groups@),
            groups.len() == i,
            forall|j: int| 0 <= j < i ==> (#[trigger] groups@[j])@ == wanted[j],
        decreases names.len() - i,
    {
        assert(text_models(names@)[i as int] == names@[i as int]@);
        groups.push(gather(instances, names[i].as_str()));
        i = i + 1;
    }
    assert(text_models(names@).len() == names@.len());
    assert(group_models(groups@) =~= wanted);
    groups
}

/// The names of applications differ, and they are the names of the instances.
pub proof fn names_are_distinct_and_complete(instances: Seq<InstanceModel>)
    ensures
        names_of(instances).no_duplicates(),
        forall|i: int|
            0 <= i < instances.len() ==> names_of(instances).contains(
                (#[trigger] instances[i]).registration.name,
            ),
        forall|name: Seq<char>| #[trigger]
            names_of(instances).contains(name) ==> exists|i: int|
                0 <= i < instances.len() && (#[trigger] instances[i]).registration.name == name,
    decreases instances.len(),
{
    if instances.len() > 0 {
        let fewer = instances.drop_last();
        let names = names_of(fewer);
        let name = instances.last().registration.name;
        names_are_distinct_and_complete(fewer);
        assert(names.push(name).last() == name);
        assert forall|i: int| 0 <= i < instances.len() implies names_of(instances).contains(
            (#[trigger] instances[i]).registration.name,
        ) by {
            let own = instances[i].registration.name;
            if i < fewer.len() {
                assert(fewer[i] == instances[i]);
                let k = names.index_of(own);
                assert(names.contains(own));
                assert(names_of(instances)[k] == own);
            } else if !names.contains(name) {
                assert(names_of(instances)[names.len() as int] == own);
            }
        }
        assert forall|other: Seq<char>| #[trigger] names_of(instances).contains(
            other,
        ) implies exists|i: int|
            0 <= i < instances.len() && (#[trigger] instances[i]).registration.name == other by {
            if names.contains(other) {
                let i = choose|i: int|
                    0 <= i < fewer.len() && (#[trigger] fewer[i]).registration.name == other;
                assert(instances[i].registration.name == other);
            } else {
                let k = choose|k: int|
                    0 <= k < names_of(instances).len() && names_of(instances)[k] == other;
                assert(k == names.len());
                assert(instances[instances.len() - 1].registration.name == other);
            }
        }
    }
}

/// Every instance belongs to exactly one application: the one of its name.
pub proof fn every_instance_has_one_group(instances: Seq<InstanceModel>, i: int)
    requires
        0 <= i < instances.len(),
    ensures
        exists|g: int|
            0 <= g < groups_of(instances).len() && (#[trigger] groups_of(
                instances,
            )[g]).instances.contains(instances[i]),
        forall|g: int|
            0 <= g < groups_of(instances).len() && (#[trigger] groups_of(
                instances,
            )[g]).instances.contains(instances[i]) ==> groups_of(instances)[g].name
                == instances[i].registration.name,
        forall|g: int, h: int|
            0 <= g < groups_of(instances).len() && 0 <= h < groups_of(instances).len()
                && (#[trigger] groups_of(instances)[g]).instances.contains(instances[i]) && (
            #[trigger] groups_of(instances)[h]).instances.contains(instances[i]) ==> g == h,
{
    let own = instances[i].registration.name;
    let names = names_of(instances);
    let groups = groups_of(instances);
    names_are_distinct_and_complete(instances);
    let at = names.index_of(own);
    let named = |v: InstanceModel| v.registration.name == own;
    instances.lemma_filter_contains(named, i);
    assert(groups[at].instances.contains(instances[i]));
    assert forall|g: int|
        0 <= g < groups.len() && (#[trigger] groups[g]).instances.contains(
            instances[i],
        ) implies groups[g].name == own by {
        let held = |v: InstanceModel| v.registration.name == names[g];
        let k = groups[g].instances.index_of(instances[i]);
        instances.lemma_filter_pred(held, k);
    }
}

/// The status of an application with instances: up exactly where one of them is up, offline
/// exactly where all of them are offline.
pub proof fn group_status_sums_up(members: Seq<InstanceModel>)
    requires
        members.len() > 0,
    ensures
        group_status(members) == "UP"@ <==> exists|i: int|
            0 <= i < members.len() && (#[trigger] members[i]).status_info.status == "UP"@,
        group_status(members) == "OFFLINE"@ <==> forall|i: int|
            0 <= i < members.len() ==> (#[trigger] members[i]).status_info.status == "OFFLINE"@,
        group_status(members) == "UP"@ || group_status(members) == "OFFLINE"@ || group_status(
            members,
        ) == "DOWN"@,
{
    reveal_strlit("UP");
    reveal_strlit("OFFLINE");
    reveal_strlit("DOWN");
    assert("UP"@.len() == 2 && "OFFLINE"@.len() == 7 && "DOWN"@.len() == 4);
    if forall|i: int|
        0 <= i < members.len() ==> (#[trigger] members[i]).status_info.status == "OFFLINE"@ {
        assert(members[0].status_info.status == "OFFLINE"@);
    }
}

/// The time of an application is the time of one of its instances, and none of them is later.
pub proof fn latest_is_the_greatest(members: Seq<InstanceModel>)
    requires
        members.len() > 0,
    ensures
        exists|i: int|
            0 <= i < members.len() && (#[trigger] members[i]).status_timestamp == latest_of(
                members,
            ),
        forall|i: int|
            0 <= i < members.len() ==> !text_less(
                latest_of(members),
                (#[trigger] members[i]).status_timestamp,
            ),
    decreases members.len(),
{
    let fewer = members.drop_last();
    let last = members.last().status_timestamp;
    less_is_irreflexive(last);
    if fewer.len() == 0 {
        less_is_total(Seq::empty(), last);
        assert(members[0].status_timestamp == last);
        assert(!text_less(last, Seq::empty()));
    } else {
        latest_is_the_greatest(fewer);
        let latest = latest_of(fewer);
        let i = choose|i: int|
            0 <= i < fewer.len() && (#[trigger] fewer[i]).status_timestamp == latest;
        assert(members[i].status_timestamp == latest);
        assert(members[members.len() - 1].status_timestamp == last);
        assert forall|j: int| 0 <= j < members.len() implies !text_less(
            latest_of(members),
            (#[trigger] members[j]).status_timestamp,
        ) by {
            let own = members[j].status_timestamp;
            if j < fewer.len() {
                assert(fewer[j] == members[j]);
                if text_less(latest, last) && text_less(last, own) {
                    less_is_transitive(latest, last, own);
                }
            }
        }
    }
}

/// Each application holds all instances of its name, in their order, and no others. It is up
/// where any of them is, offline where all of them are, and down otherwise. It tells the latest
/// of their times and the build version of the first of them.
pub proof fn application_sums_up_its_instances(instances: Seq<InstanceModel>, g: int)
    requires
        0 <= g < groups_of(instances).len(),
    ensures
        ({
            let group = groups_of(instances)[g];
            let up = exists|i: int|
                0 <= i < group.instances.len() && (#[trigger] group.instances[i]).status_info.status
                    == "UP"@;
            let offline = forall|i: int|
                0 <= i < group.instances.len() ==> (
                #[trigger] group.instances[i]).status_info.status == "OFFLINE"@;
            &&& group.instances == instances.filter(
                |v: InstanceModel| v.registration.name == group.name,
            )
            &&& group.instances.len() > 0
            &&& up ==> group.status == "UP"@
            &&& offline ==> group.status == "OFFLINE"@
            &&& !up && !offline ==> group.status == "DOWN"@
            &&& exists|i: int|
                0 <= i < group.instances.len() && (#[trigger] group.instances[i]).status_timestamp
                    == group.status_timestamp
            &&& forall|i: int|
                0 <= i < group.instances.len() ==> !text_less(
                    group.status_timestamp,
                    (#[trigger] group.instances[i]).status_timestamp,
                )
            &&& group.build_version == group.instances[0].build_version
        }),
{
    let group = groups_of(instances)[g];
    let names = names_of(instances);
    let own = |v: InstanceModel| v.registration.name == names[g];
    names_are_distinct_and_complete(instances);
    assert(group.name == names[g]);
    assert(own =~= (|v: InstanceModel| v.registration.name == group.name));
    assert(names.contains(names[g]));
    let i = choose|i: int|
        0 <= i < instances.len() && (#[trigger] instances[i]).registration.name == names[g];
    instances.lemma_filter_contains(own, i);
    group_status_sums_up(group.instances);
    latest_is_the_greatest(group.instances);
}

/// There is one application for each name that an instance has, and none for another name.
pub proof fn applications_are_the_names(instances: Seq<InstanceModel>, name: Seq<char>)
    ensures
        ({
            let groups = groups_of(instances);
            &&& forall|g: int, h: int|
                0 <= g < h < groups.len() ==> (#[trigger] groups[g]).name != (
                #[trigger] groups[h]).name
            &&& (exists|g: int| 0 <= g < groups.len() && (#[trigger] groups[g]).name == name)
                <==> exists|i: int|
                0 <= i < instances.len() && (#[trigger] instances[i]).registration.name == name
        }),
{
    let groups = groups_of(instances);
    let names = names_of(instances);
    names_are_distinct_and_complete(instances);
    assert forall|g: int, h: int| 0 <= g < h < groups.len() implies (#[trigger] groups[g]).name != (
    #[trigger] groups[h]).name by {
        assert(names[g] != names[h]);
    }
    if exists|g: int| 0 <= g < groups.len() && (#[trigger] groups[g]).name == name {
        let g = choose|g: int| 0 <= g < groups.len() && (#[trigger] groups[g]).name == name;
        assert(names[g] == name);
        assert(names.contains(name));
    }
    if exists|i: int| 0 <= i < instances.len() && (#[trigger] instances[i]).registration.name == name {
        let i = choose|i: int|
            0 <= i < instances.len() && (#[trigger] instances[i]).registration.name == name;
        assert(names.contains(instances[i].registration.name));
        let g = names.index_of(name);
        assert(groups[g].name == name);
    }
}

/// A list shows its items one for one, in their order.
pub proof fn application_lists_show_their_items(
    groups: Seq<ApplicationGroup>,
    texts: Seq<String>,
)
    ensures
        group_models(groups).len() == groups.len(),
        forall|i: int|
            0 <= i < groups.len() ==> (#[trigger] group_models(groups)[i]) == groups[i]@,
        text_models(texts).len() == texts.len(),
        forall|i: int| 0 <= i < texts.len() ==> (#[trigger] text_models(texts)[i]) == texts[i]@,
{
}

} // verus!
