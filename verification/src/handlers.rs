//! What the monitor answers to the user interface.

use crate::groups::{all_groups_wf, group_models, groups_of};
use crate::json::{Json, JsonModel};
use crate::model::{all_events_wf, event_models, ApplicationGroup, InstanceView, JournalEvent};
use crate::state::{build_application_groups, in_order, MonitorState};
use crate::text::{contains_text, has_text};
use vstd::prelude::*;

verus! {

/// What a caller wants to get: a stream of events, the page of the user interface, or data.
#[derive(Debug, PartialEq, Eq, Structural, Clone, Copy)]
pub enum Wanted {
    EventStream,
    Page,
    Data,
}

/// The answer to a request for the applications.
#[derive(Debug)]
pub enum ApplicationsReply {
    EventStream,
    Page,
    Applications { groups: Vec<ApplicationGroup> },
}

/// The answer to a request for the journal.
#[derive(Debug)]
pub enum JournalReply {
    EventStream,
    Page,
    Events { events: Vec<JournalEvent> },
}

/// The answer to a request for one instance.
#[derive(Debug)]
pub enum InstanceReply {
    Page,
    Instance { view: InstanceView },
    NotFound,
}

/// What an `Accept` header asks for. A stream of events goes before a page.
pub open spec fn wanted_by(accept: Seq<char>) -> Wanted {
    if contains_text(accept, "text/event-stream"@) {
        Wanted::EventStream
    } else if contains_text(accept, "text/html"@) {
        Wanted::Page
    } else {
        Wanted::Data
    }
}

/// The health groups among the details of a state of health; without any, an empty list.
pub open spec fn health_groups(details: JsonModel) -> JsonModel {
    match details.field("groups"@) {
        Some(groups) => groups,
        None => JsonModel::Array(Seq::empty()),
    }
}

/// What an `Accept` header asks for; a missing header counts as an empty one.
pub fn negotiate(accept: &str) -> (wanted: Wanted)
    ensures
        wanted == wanted_by(accept@),
{
    if has_text(accept, "text/event-stream") {
        Wanted::EventStream
    } else if has_text(accept, "text/html") {
        Wanted::Page
    } else {
        Wanted::Data
    }
}

/// The applications: as a stream of changes, as the page that shows them, or as data.
pub fn applications_handler(accept: &str, state: &MonitorState) -> (reply: ApplicationsReply)
    requires
        state.wf(),
    ensures
        match reply {
            ApplicationsReply::EventStream => wanted_by(accept@) == Wanted::EventStream,
            ApplicationsReply::Page => wanted_by(accept@) == Wanted::Page,
            ApplicationsReply::Applications { groups } => {
                &&& wanted_by(accept@) == Wanted::Data
                &&& all_groups_wf(groups@)
                &&& group_models(groups@) == groups_of(in_order(state@.instances))
            },
        },
{
    match negotiate(accept) {
        Wanted::EventStream => ApplicationsReply::EventStream,
        Wanted::Page => ApplicationsReply::Page,
        Wanted::Data => ApplicationsReply::Applications {
            groups: build_application_groups(state),
        },
    }
}

/// The journal: as a stream of events, as the page that shows them, or as data.
pub fn journal_handler(accept: &str, state: &MonitorState) -> (reply: JournalReply)
    requires
        state.wf(),
    ensures
        match reply {
            JournalReply::EventStream => wanted_by(accept@) == Wanted::EventStream,
            JournalReply::Page => wanted_by(accept@) == Wanted::Page,
            JournalReply::Events { events } => {
                &&& wanted_by(accept@) == Wanted::Data
                &&& all_events_wf(events@)
                &&& event_models(events@) == state@.journal
            },
        },
{
    match negotiate(accept) {
        Wanted::EventStream => JournalReply::EventStream,
        Wanted::Page => JournalReply::Page,
        Wanted::Data => JournalReply::Events { events: state.journal_events() },
    }
}

/// One instance: as the page that shows it, or as data where it was seen.
pub fn instance_detail_handler(accept: &str, state: &MonitorState, id: &str) -> (reply:
    InstanceReply)
    requires
        state.wf(),
    ensures
        match reply {
            InstanceReply::Page => contains_text(accept@, "text/html"@),
            InstanceReply::Instance { view } => {
                &&& !contains_text(accept@, "text/html"@)
                &&& view.wf()
                &&& state@.instances.contains_key(id@)
                &&& view@ == state@.instances[id@]
            },
            InstanceReply::NotFound => {
                &&& !contains_text(accept@, "text/html"@)
                &&& !state@.instances.contains_key(id@)
            },
        },
{
    if has_text(accept, "text/html") {
        return InstanceReply::Page;
    }
    match state.instance(id) {
        Some(view) => InstanceReply::Instance { view: view.clone() },
        None => InstanceReply::NotFound,
    }
}

/// The names of the health groups of an instance, where the instance was seen.
pub fn health_groups_handler(state: &MonitorState, id: &str) -> (groups: Option<Json>)
    requires
        state.wf(),
    ensures
        match groups {
            Some(groups) => {
                &&& state@.instances.contains_key(id@)
                &&& groups.wf()
                &&& groups@ == health_groups(state@.instances[id@].status_info.details)
            },
            None => !state@.instances.contains_key(id@),
        },
{
    match state.instance(id) {
        Some(view) => match view.status_info.details.get("groups") {
            Some(groups) => Some(groups.clone()),
            None => {
                let none = Json::Array(Vec::new());
                assert(none@->Array_0 =~= Seq::empty());
                Some(none)
            },
        },
        None => None,
    }
}

/// A caller that takes a stream of events gets it; one that takes HTML, and no stream, gets the
/// page; every other one gets data.
pub proof fn accepted_type_decides(accept: Seq<char>)
    ensures
        wanted_by(accept) == Wanted::EventStream <==> contains_text(accept, "text/event-stream"@),
        wanted_by(accept) == Wanted::Page <==> contains_text(accept, "text/html"@)
            && !contains_text(accept, "text/event-stream"@),
        wanted_by(accept) == Wanted::Data <==> !contains_text(accept, "text/html"@)
            && !contains_text(accept, "text/event-stream"@),
{
}

/// The health groups are what the details hold under `groups`, whatever that is, and an empty
/// list where they hold nothing there.
pub proof fn groups_come_from_the_details(details: JsonModel)
    ensures
        details matches JsonModel::Object(fields) ==> fields.contains_key("groups"@)
            ==> health_groups(details) == fields["groups"@],
        !(details matches JsonModel::Object(fields) && fields.contains_key("groups"@))
            ==> health_groups(details) == JsonModel::Array(Seq::empty()),
{
}

} // verus!
