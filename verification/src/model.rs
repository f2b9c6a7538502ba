//! What the monitor knows of an application and tells the user interface.

use crate::json::{Json, JsonModel};
use crate::text::same_text;
use vstd::prelude::*;

verus! {

/// The instances that share a name, seen as one application.
#[derive(Debug)]
pub struct ApplicationGroup {
    pub build_version: Option<String>,
    pub instances: Vec<InstanceView>,
    pub name: String,
    pub status: String,
    pub status_timestamp: String,
}

/// One monitored instance, as the last poll found it.
#[derive(Debug)]
pub struct InstanceView {
    pub build_version: Option<String>,
    pub endpoints: Vec<EndpointView>,
    pub id: String,
    pub info: Json,
    pub registered: bool,
    pub registration: RegistrationView,
    pub status_info: StatusInfoView,
    pub status_timestamp: String,
    pub tags: Json,
    pub version: u64,
}

/// An actuator endpoint that an instance exposes.
#[derive(Debug)]
pub struct EndpointView {
    pub id: String,
    pub url: String,
}

/// How an instance is registered.
#[derive(Debug)]
pub struct RegistrationView {
    pub health_url: String,
    pub management_url: String,
    pub metadata: Json,
    pub name: String,
    pub service_url: String,
    pub source: String,
}

/// The health of an instance.
#[derive(Debug)]
pub struct StatusInfoView {
    pub status: String,
    pub details: Json,
    pub out_of_service: bool,
    pub restricted: bool,
}

/// A single journal event. The version counts the events of its instance, whatever their kind.
#[derive(Debug)]
pub struct JournalEvent {
    pub instance: String,
    pub version: u64,
    pub timestamp: String,
    pub kind: JournalEventKind,
}

/// What a journal event tells.
#[derive(Debug)]
pub enum JournalEventKind {
    Registered { registration: RegistrationView },
    StatusChanged { status_info: StatusInfoView },
    EndpointsDetected { endpoints: Vec<EndpointView> },
    InfoChanged { info: Json },
}

/// What an endpoint is.
pub struct EndpointModel {
    pub id: Seq<char>,
    pub url: Seq<char>,
}

/// What a registration is.
pub struct RegistrationModel {
    pub health_url: Seq<char>,
    pub management_url: Seq<char>,
    pub metadata: JsonModel,
    pub name: Seq<char>,
    pub service_url: Seq<char>,
    pub source: Seq<char>,
}

/// What a state of health is.
pub struct StatusModel {
    pub status: Seq<char>,
    pub details: JsonModel,
    pub out_of_service: bool,
    pub restricted: bool,
}

/// What an instance is.
pub struct InstanceModel {
    pub build_version: Option<Seq<char>>,
    pub endpoints: Seq<EndpointModel>,
    pub id: Seq<char>,
    pub info: JsonModel,
    pub registered: bool,
    pub registration: RegistrationModel,
    pub status_info: StatusModel,
    pub status_timestamp: Seq<char>,
    pub tags: JsonModel,
    pub version: u64,
}

/// What an application is.
pub struct GroupModel {
    pub build_version: Option<Seq<char>>,
    pub instances: Seq<InstanceModel>,
    pub name: Seq<char>,
    pub status: Seq<char>,
    pub status_timestamp: Seq<char>,
}

/// What a journal event tells.
pub enum KindModel {
    Registered { registration: RegistrationModel },
    StatusChanged { status_info: StatusModel },
    EndpointsDetected { endpoints: Seq<EndpointModel> },
    InfoChanged { info: JsonModel },
}

/// What a journal event is.
pub struct EventModel {
    pub instance: Seq<char>,
    pub version: u64,
    pub timestamp: Seq<char>,
    pub kind: KindModel,
}

/// An optional text.
pub open spec fn optional_text(text: Option<String>) -> Option<Seq<char>> {
    match text {
        Some(t) => Some(t@),
        None => None,
    }
}

/// A list of endpoints.
pub open spec fn endpoint_models(endpoints: Seq<EndpointView>) -> Seq<EndpointModel> {
    endpoints.map_values(|e: EndpointView| e@)
}

/// A list of instances.
pub open spec fn instance_models(instances: Seq<InstanceView>) -> Seq<InstanceModel> {
    instances.map_values(|v: InstanceView| v@)
}

/// A list of events.
pub open spec fn event_models(events: Seq<JournalEvent>) -> Seq<EventModel> {
    events.map_values(|e: JournalEvent| e@)
}

impl View for EndpointView {
    type V = EndpointModel;

    open spec fn view(&self) -> EndpointModel {
        EndpointModel { id: self.id@, url: self.url@ }
    }
}

impl View for RegistrationView {
    type V = RegistrationModel;

    open spec fn view(&self) -> RegistrationModel {
        RegistrationModel {
            health_url: self.health_url@,
            management_url: self.management_url@,
            metadata: self.metadata@,
            name: self.name@,
            service_url: self.service_url@,
            source: self.source@,
        }
    }
}

impl View for StatusInfoView {
    type V = StatusModel;

    open spec fn view(&self) -> StatusModel {
        StatusModel {
            status: self.status@,
            details: self.details@,
            out_of_service: self.out_of_service,
            restricted: self.restricted,
        }
    }
}

impl View for InstanceView {
    type V = InstanceModel;

    open spec fn view(&self) -> InstanceModel {
        InstanceModel {
            build_version: optional_text(self.build_version),
            endpoints: endpoint_models(self.endpoints@),
            id: self.id@,
            info: self.info@,
            registered: self.registered,
            registration: self.registration@,
            status_info: self.status_info@,
            status_timestamp: self.status_timestamp@,
            tags: self.tags@,
            version: self.version,
        }
    }
}

impl View for ApplicationGroup {
    type V = GroupModel;

    open spec fn view(&self) -> GroupModel {
        GroupModel {
            build_version: optional_text(self.build_version),
            instances: instance_models(self.instances@),
            name: self.name@,
            status: self.status@,
            status_timestamp: self.status_timestamp@,
        }
    }
}

impl View for JournalEventKind {
    type V = KindModel;

    open spec fn view(&self) -> KindModel {
        match *self {
            JournalEventKind::Registered { registration } => KindModel::Registered {
                registration: registration@,
            },
            JournalEventKind::StatusChanged { status_info } => KindModel::StatusChanged {
                status_info: status_info@,
            },
            JournalEventKind::EndpointsDetected { endpoints } => KindModel::EndpointsDetected {
                endpoints: endpoint_models(endpoints@),
            },
            JournalEventKind::InfoChanged { info } => KindModel::InfoChanged { info: info@ },
        }
    }
}

impl View for JournalEvent {
    type V = EventModel;

    open spec fn view(&self) -> EventModel {
        EventModel {
            instance: self.instance@,
            version: self.version,
            timestamp: self.timestamp@,
            kind: self.kind@,
        }
    }
}

impl RegistrationView {
    /// The metadata is a valid JSON value.
    pub open spec fn wf(self) -> bool {
        self.metadata.wf()
    }
}

impl StatusInfoView {
    /// The details are a valid JSON value.
    pub open spec fn wf(self) -> bool {
        self.details.wf()
    }
}

impl InstanceView {
    /// The JSON values in it are valid.
    pub open spec fn wf(self) -> bool {
        &&& self.info.wf()
        &&& self.registration.wf()
        &&& self.status_info.wf()
        &&& self.tags.wf()
    }
}

impl ApplicationGroup {
    /// The JSON values in it are valid.
    pub open spec fn wf(self) -> bool {
        all_instances_wf(self.instances@)
    }
}

impl JournalEventKind {
    /// The JSON values in it are valid.
    pub open spec fn wf(self) -> bool {
        match self {
            JournalEventKind::Registered { registration } => registration.wf(),
            JournalEventKind::StatusChanged { status_info } => status_info.wf(),
            JournalEventKind::EndpointsDetected { endpoints } => true,
            JournalEventKind::InfoChanged { info } => info.wf(),
        }
    }
}

impl JournalEvent {
    /// The JSON values in it are valid.
    pub open spec fn wf(self) -> bool {
        self.kind.wf()
    }
}

/// The JSON values in all of the instances are valid.
pub open spec fn all_instances_wf(instances: Seq<InstanceView>) -> bool {
    forall|i: int| 0 <= i < instances.len() ==> (#[trigger] instances[i]).wf()
}

/// The JSON values in all of the events are valid.
pub open spec fn all_events_wf(events: Seq<JournalEvent>) -> bool {
    forall|i: int| 0 <= i < events.len() ==> (#[trigger] events[i]).wf()
}

/// A copy of an optional text.
pub fn copy_optional(text: &Option<String>) -> (copy: Option<String>)
    ensures
        optional_text(copy) == optional_text(*text),
{
    match text {
        Some(t) => Some(t.clone()),
        None => None,
    }
}

/// A copy of a list of endpoints.
pub fn copy_endpoints(endpoints: &Vec<EndpointView>) -> (copies: Vec<EndpointView>)
    ensures
        endpoint_models(copies@) == endpoint_models(endpoints@),
{
    let mut copies: Vec<EndpointView> = Vec::new();
    let mut i: usize = 0;
    while i < endpoints.len()
        invariant
            i <= endpoints.len(),
            copies.len() == i,
            forall|j: int| 0 <= j < i ==> (#[trigger] copies@[j])@ == endpoints@[j]@,
        decreases endpoints.len() - i,
    {
        copies.push(
            EndpointView { id: endpoints[i].id.clone(), url: endpoints[i].url.clone() },
        );
        i = i + 1;
    }
    assert(endpoint_models(copies@) =~= endpoint_models(endpoints@));
    copies
}

/// Whether two lists of endpoints are the same.
pub fn same_endpoints(a: &Vec<EndpointView>, b: &Vec<EndpointView>) -> (same: bool)
    ensures
        same == (endpoint_models(a@) == endpoint_models(b@)),
{
    let ghost x = endpoint_models(a@);
    let ghost y = endpoint_models(b@);
    if a.len() != b.len() {
        assert(x.len() != y.len());
        return false;
    }
    let mut i: usize = 0;
    while i < a.len()
        invariant
            a.len() == b.len(),
            i <= a.len(),
            x == endpoint_models(a@),
            y == endpoint_models(b@),
            forall|j: int| 0 <= j < i ==> #[trigger] x[j] == y[j],
        decreases a.len() - i,
    {
        assert(x[i as int] == a@[i as int]@ && y[i as int] == b@[i as int]@);
        if !same_text(a[i].id.as_str(), b[i].id.as_str()) || !same_text(
            a[i].url.as_str(),
            b[i].url.as_str(),
        ) {
            assert(x[i as int] != y[i as int]);
            return false;
        }
        i = i + 1;
    }
    assert(x =~= y);
    true
}

impl Clone for RegistrationView {
    fn clone(&self) -> (copy: RegistrationView)
        ensures
            self.wf() ==> copy@ == self@ && copy.wf(),
    {
        RegistrationView {
            health_url: self.health_url.clone(),
            management_url: self.management_url.clone(),
            metadata: self.metadata.clone(),
            name: self.name.clone(),
            service_url: self.service_url.clone(),
            source: self.source.clone(),
        }
    }
}

impl Clone for StatusInfoView {
    fn clone(&self) -> (copy: StatusInfoView)
        ensures
            self.wf() ==> copy@ == self@ && copy.wf(),
    {
        StatusInfoView {
            status: self.status.clone(),
            details: self.details.clone(),
            out_of_service: self.out_of_service,
            restricted: self.restricted,
        }
    }
}

impl Clone for InstanceView {
    fn clone(&self) -> (copy: InstanceView)
        ensures
            self.wf() ==> copy@ == self@ && copy.wf(),
    {
        InstanceView {
            build_version: copy_optional(&self.build_version),
            endpoints: copy_endpoints(&self.endpoints),
            id: self.id.clone(),
            info: self.info.clone(),
            registered: self.registered,
            registration: self.registration.clone(),
            status_info: self.status_info.clone(),
            status_timestamp: self.status_timestamp.clone(),
            tags: self.tags.clone(),
            version: self.version,
        }
    }
}

impl Clone for JournalEventKind {
    fn clone(&self) -> (copy: JournalEventKind)
        ensures
            self.wf() ==> copy@ == self@ && copy.wf(),
    {
        match self {
            JournalEventKind::Registered { registration } => JournalEventKind::Registered {
                registration: registration.clone(),
            },
            JournalEventKind::StatusChanged { status_info } => JournalEventKind::StatusChanged {
                status_info: status_info.clone(),
            },
            JournalEventKind::EndpointsDetected { endpoints } => {
                JournalEventKind::EndpointsDetected { endpoints: copy_endpoints(endpoints) }
            },
            JournalEventKind::InfoChanged { info } => JournalEventKind::InfoChanged {
                info: info.clone(),
            },
        }
    }
}

impl Clone for JournalEvent {
    fn clone(&self) -> (copy: JournalEvent)
        ensures
            self.wf() ==> copy@ == self@ && copy.wf(),
    {
        JournalEvent {
            instance: self.instance.clone(),
            version: self.version,
            timestamp: self.timestamp.clone(),
            kind: self.kind.clone(),
        }
    }
}

/// An instance shows each of its fields.
pub proof fn instance_shows_its_fields(view: InstanceView)
    ensures
        view@.build_version is Some <==> view.build_version is Some,
        view.build_version matches Some(version) ==> view@.build_version == Some(version@),
        view@.endpoints.len() == view.endpoints.len(),
        forall|i: int|
            0 <= i < view.endpoints.len() ==> (#[trigger] view@.endpoints[i]).id
                == view.endpoints@[i].id@ && view@.endpoints[i].url == view.endpoints@[i].url@,
        view@.id == view.id@,
        view@.info == view.info@,
        view@.registered == view.registered,
        view@.registration == view.registration@,
        view@.status_info == view.status_info@,
        view@.status_timestamp == view.status_timestamp@,
        view@.tags == view.tags@,
        view@.version == view.version,
{
}

/// A registration and a state of health show each of their fields.
pub proof fn registration_and_health_show_their_fields(
    registration: RegistrationView,
    health: StatusInfoView,
)
    ensures
        registration@.health_url == registration.health_url@,
        registration@.management_url == registration.management_url@,
        registration@.metadata == registration.metadata@,
        registration@.name == registration.name@,
        registration@.service_url == registration.service_url@,
        registration@.source == registration.source@,
        health@.status == health.status@,
        health@.details == health.details@,
        health@.out_of_service == health.out_of_service,
        health@.restricted == health.restricted,
{
}

/// An application shows each of its fields.
pub proof fn application_shows_its_fields(group: ApplicationGroup)
    ensures
        group@.build_version is Some <==> group.build_version is Some,
        group.build_version matches Some(version) ==> group@.build_version == Some(version@),
        group@.instances.len() == group.instances.len(),
        forall|i: int|
            0 <= i < group.instances.len() ==> (#[trigger] group@.instances[i])
                == group.instances@[i]@,
        group@.name == group.name@,
        group@.status == group.status@,
        group@.status_timestamp == group.status_timestamp@,
{
}

/// An event shows each of its fields, and its kind what the kind tells.
pub proof fn event_shows_its_fields(event: JournalEvent)
    ensures
        event@.instance == event.instance@,
        event@.version == event.version,
        event@.timestamp == event.timestamp@,
        event@.kind == event.kind@,
        event.kind matches JournalEventKind::Registered { registration } ==> event@.kind == (
        KindModel::Registered { registration: registration@ }),
        event.kind matches JournalEventKind::StatusChanged { status_info } ==> event@.kind == (
        KindModel::StatusChanged { status_info: status_info@ }),
        event.kind matches JournalEventKind::InfoChanged { info } ==> event@.kind == (
        KindModel::InfoChanged { info: info@ }),
        event.kind matches JournalEventKind::EndpointsDetected { endpoints } ==> (
        event@.kind matches KindModel::EndpointsDetected { endpoints: shown } && shown.len()
            == endpoints.len() && forall|i: int|
            0 <= i < endpoints.len() ==> (#[trigger] shown[i]).id == endpoints@[i].id@
                && shown[i].url == endpoints@[i].url@),
{
}

/// A list shows its items one for one, in their order.
pub proof fn lists_show_their_items(
    endpoints: Seq<EndpointView>,
    instances: Seq<InstanceView>,
    events: Seq<JournalEvent>,
)
    ensures
        endpoint_models(endpoints).len() == endpoints.len(),
        forall|i: int|
            0 <= i < endpoints.len() ==> (#[trigger] endpoint_models(endpoints)[i]).id
                == endpoints[i].id@ && endpoint_models(endpoints)[i].url == endpoints[i].url@,
        instance_models(instances).len() == instances.len(),
        forall|i: int|
            0 <= i < instances.len() ==> (#[trigger] instance_models(instances)[i])
                == instances[i]@,
        event_models(events).len() == events.len(),
        forall|i: int|
            0 <= i < events.len() ==> (#[trigger] event_models(events)[i]) == events[i]@,
{
}

} // verus!
