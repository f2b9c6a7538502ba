//! The calls that one poll makes to one instance, and the view of the instance that they give.
//!
//! A probe asks the root of the actuator for the endpoints, then the health endpoint, and the
//! info endpoint where there is one. The addresses are always built from the configured one: a
//! discovered address may carry a scheme that does not reach the instance.

use crate::clock::{is_timestamp, now_iso};
use crate::config::{ConfigModel, InstanceConfig};
use crate::discovery::{discover_endpoints, discovered_document, exposed_endpoints};
use crate::exchange::{payload_of, read_payload, Exchange, ExchangeModel};
use crate::health::{check_health_at, health_of_exchange, health_url};
use crate::json::{empty_object, insert_entry, new_entries, parsed_json, Json, JsonModel};
use crate::model::{copy_optional, endpoint_models, optional_text};
use crate::model::{EndpointModel, EndpointView, InstanceModel, InstanceView};
use crate::model::{RegistrationModel, RegistrationView, StatusInfoView, StatusModel};
use crate::text::{joined, same_text};
use crate::urls::{context_path, context_path_of, origin, origin_of};
use vstd::prelude::*;

verus! {

/// A call to make: an address, the token to show where one is configured, and how long to wait.
#[derive(Debug)]
pub struct ActuatorRequest {
    pub url: String,
    pub bearer_token: Option<String>,
    pub timeout_secs: u64,
}

/// How far a probe has come.
#[derive(Debug)]
pub enum Probe {
    Discovering,
    CheckingHealth { endpoints: Vec<EndpointView> },
    FetchingInfo { endpoints: Vec<EndpointView>, status_info: StatusInfoView },
}

/// What a probe wants next: a call, after which it goes on, or nothing more.
#[derive(Debug)]
pub enum ProbeStep {
    Send { probe: Probe, request: ActuatorRequest },
    Finished { view: InstanceView },
}

/// What a call is.
pub struct RequestModel {
    pub url: Seq<char>,
    pub bearer_token: Option<Seq<char>>,
    pub timeout_secs: u64,
}

/// How far a probe has come.
pub enum ProbeModel {
    Discovering,
    CheckingHealth { endpoints: Seq<EndpointModel> },
    FetchingInfo { endpoints: Seq<EndpointModel>, status_info: StatusModel },
}

/// What a probe wants next.
pub enum StepModel {
    Send { probe: ProbeModel, request: RequestModel },
    Finished { view: InstanceModel },
}

impl View for ActuatorRequest {
    type V = RequestModel;

    open spec fn view(&self) -> RequestModel {
        RequestModel {
            url: self.url@,
            bearer_token: optional_text(self.bearer_token),
            timeout_secs: self.timeout_secs,
        }
    }
}

impl View for Probe {
    type V = ProbeModel;

    open spec fn view(&self) -> ProbeModel {
        match *self {
            Probe::Discovering => ProbeModel::Discovering,
            Probe::CheckingHealth { endpoints } => ProbeModel::CheckingHealth {
                endpoints: endpoint_models(endpoints@),
            },
            Probe::FetchingInfo { endpoints, status_info } => ProbeModel::FetchingInfo {
                endpoints: endpoint_models(endpoints@),
                status_info: status_info@,
            },
        }
    }
}

impl View for ProbeStep {
    type V = StepModel;

    open spec fn view(&self) -> StepModel {
        match *self {
            ProbeStep::Send { probe, request } => StepModel::Send {
                probe: probe@,
                request: request@,
            },
            ProbeStep::Finished { view } => StepModel::Finished { view: view@ },
        }
    }
}

impl Probe {
    /// The JSON values in it are valid.
    pub open spec fn wf(self) -> bool {
        match self {
            Probe::FetchingInfo { endpoints, status_info } => status_info.wf(),
            _ => true,
        }
    }
}

impl ProbeStep {
    /// The JSON values in it are valid.
    pub open spec fn wf(self) -> bool {
        match self {
            ProbeStep::Send { probe, request } => probe.wf(),
            ProbeStep::Finished { view } => view.wf(),
        }
    }
}

/// A call to an instance.
pub open spec fn request_to(cfg: ConfigModel, below: Seq<char>, timeout_secs: u64) -> RequestModel {
    RequestModel {
        url: cfg.actuator_base_url + below,
        bearer_token: cfg.bearer_token,
        timeout_secs,
    }
}

/// An endpoint of that name is among the list.
pub open spec fn has_endpoint(endpoints: Seq<EndpointModel>, id: Seq<char>) -> bool {
    exists|i: int| 0 <= i < endpoints.len() && (#[trigger] endpoints[i]).id == id
}

/// The info that a call to the info endpoint gives: what it answers, or an object without fields
/// where there is no answer.
pub open spec fn info_of_exchange(exchange: ExchangeModel) -> JsonModel {
    match exchange {
        ExchangeModel::Answered { status, body } => payload_of(body),
        ExchangeModel::Failed { .. } => empty_object(),
    }
}

/// The version that an instance says it was built as.
pub open spec fn build_version_of(info: JsonModel) -> Option<Seq<char>> {
    match info.field("build"@) {
        Some(build) => match build.field("version"@) {
            Some(version) => version.text(),
            None => None,
        },
        None => None,
    }
}

/// The registration that the configuration of an instance amounts to.
pub open spec fn registration_of(cfg: ConfigModel) -> RegistrationModel {
    RegistrationModel {
        health_url: health_url(cfg.actuator_base_url),
        management_url: cfg.actuator_base_url,
        metadata: JsonModel::Object(
            Map::empty().insert(
                "management.context-path"@,
                JsonModel::Text(context_path(cfg.actuator_base_url)),
            ),
        ),
        name: cfg.name,
        service_url: origin(cfg.actuator_base_url),
        source: "static"@,
    }
}

/// The view of an instance that a probe gives.
pub open spec fn probed_instance(
    cfg: ConfigModel,
    endpoints: Seq<EndpointModel>,
    status_info: StatusModel,
    info: JsonModel,
    now: Seq<char>,
) -> InstanceModel {
    InstanceModel {
        build_version: build_version_of(info),
        endpoints,
        id: cfg.name,
        info,
        registered: true,
        registration: registration_of(cfg),
        status_info,
        status_timestamp: now,
        tags: empty_object(),
        version: 1,
    }
}

/// How a probe begins.
pub open spec fn first_step(cfg: ConfigModel) -> StepModel {
    StepModel::Send {
        probe: ProbeModel::Discovering,
        request: RequestModel {
            url: cfg.actuator_base_url,
            bearer_token: cfg.bearer_token,
            timeout_secs: 5,
        },
    }
}

/// How a probe goes on after a call.
pub open spec fn next_step(
    cfg: ConfigModel,
    probe: ProbeModel,
    exchange: ExchangeModel,
    now: Seq<char>,
) -> StepModel {
    match probe {
        ProbeModel::Discovering => StepModel::Send {
            probe: ProbeModel::CheckingHealth {
                endpoints: exposed_endpoints(discovered_document(exchange)),
            },
            request: request_to(cfg, "/health"@, 9),
        },
        ProbeModel::CheckingHealth { endpoints } => {
            let status_info = health_of_exchange(cfg.actuator_base_url, exchange, now);
            if has_endpoint(endpoints, "info"@) {
                StepModel::Send {
                    probe: ProbeModel::FetchingInfo { endpoints, status_info },
                    request: request_to(cfg, "/info"@, 5),
                }
            } else {
                StepModel::Finished {
                    view: probed_instance(cfg, endpoints, status_info, empty_object(), now),
                }
            }
        },
        ProbeModel::FetchingInfo { endpoints, status_info } => StepModel::Finished {
            view: probed_instance(cfg, endpoints, status_info, info_of_exchange(exchange), now),
        },
    }
}

/// Whether an endpoint of that name is among the list.
pub fn lists_endpoint(endpoints: &Vec<EndpointView>, id: &str) -> (found: bool)
    ensures
        found == has_endpoint(endpoint_models(endpoints@), id@),
{
    let ghost list = endpoint_models(endpoints@);
    let mut i: usize = 0;
    while i < endpoints.len()
        invariant
            i <= endpoints.len(),
            list == endpoint_models(endpoints@),
            forall|j: int| 0 <= j < i ==> (#[trigger] list[j]).id != id@,
        decreases endpoints.len() - i,
    {
        assert(list[i as int] == endpoints@[i as int]@);
        if same_text(endpoints[i].id.as_str(), id) {
            return true;
        }
        i = i + 1;
    }
    false
}

/// The version that an instance says it was built as.
pub fn read_build_version(info: &Json) -> (version: Option<String>)
    requires
        info.wf(),
    ensures
        optional_text(version) == build_version_of(info@),
{
    match info.get("build") {
        Some(build) => match build.get("version") {
            Some(version) => match version.as_text() {
                Some(text) => Some(text.to_owned()),
                None => None,
            },
            None => None,
        },
        None => None,
    }
}

/// The registration that the configuration of an instance amounts to.
pub fn register(cfg: &InstanceConfig) -> (registration: RegistrationView)
    ensures
        registration.wf(),
        registration@ == registration_of(cfg@),
{
    let mut metadata = new_entries();
    insert_entry(
        &mut metadata,
        "management.context-path".to_owned(),
        Json::Text(context_path_of(cfg.actuator_base_url.as_str())),
    );
    RegistrationView {
        health_url: joined(cfg.actuator_base_url.as_str(), "/health"),
        management_url: cfg.actuator_base_url.clone(),
        metadata: Json::Object(metadata),
        name: cfg.name.clone(),
        service_url: origin_of(cfg.actuator_base_url.as_str()),
        source: "static".to_owned(),
    }
}

/// The view of an instance that a probe gives.
pub fn view_instance(
    cfg: &InstanceConfig,
    endpoints: Vec<EndpointView>,
    status_info: StatusInfoView,
    info: Json,
    now: String,
) -> (view: InstanceView)
    requires
        status_info.wf(),
        info.wf(),
    ensures
        view.wf(),
        view@ == probed_instance(
            cfg@,
            endpoint_models(endpoints@),
            status_info@,
            info@,
            now@,
        ),
{
    InstanceView {
        build_version: read_build_version(&info),
        endpoints,
        id: cfg.name.clone(),
        info,
        registered: true,
        registration: register(cfg),
        status_info,
        status_timestamp: now,
        tags: Json::Object(new_entries()),
        version: 1,
    }
}

/// Begins the probe of an instance.
pub fn begin_probe(cfg: &InstanceConfig) -> (step: ProbeStep)
    ensures
        step.wf(),
        step@ == first_step(cfg@),
{
    ProbeStep::Send {
        probe: Probe::Discovering,
        request: ActuatorRequest {
            url: cfg.actuator_base_url.clone(),
            bearer_token: copy_optional(&cfg.bearer_token),
            timeout_secs: 5,
        },
    }
}

fn request_below(cfg: &InstanceConfig, below: &str, timeout_secs: u64) -> (request:
    ActuatorRequest)
    ensures
        request@ == request_to(cfg@, below@, timeout_secs),
{
    ActuatorRequest {
        url: joined(cfg.actuator_base_url.as_str(), below),
        bearer_token: copy_optional(&cfg.bearer_token),
        timeout_secs,
    }
}

/// Goes on with a probe after the call that it wanted ended, at `now`.
pub fn advance_probe_at(cfg: &InstanceConfig, probe: Probe, exchange: Exchange, now: String) -> (
    step: ProbeStep)
    requires
        probe.wf(),
    ensures
        step.wf(),
        step@ == next_step(cfg@, probe@, exchange@, now@),
{
    match probe {
        Probe::Discovering => ProbeStep::Send {
            probe: Probe::CheckingHealth { endpoints: discover_endpoints(&exchange) },
            request: request_below(cfg, "/health", 9),
        },
        Probe::CheckingHealth { endpoints } => {
            let status_info = check_health_at(
                cfg.actuator_base_url.as_str(),
                exchange,
                now.clone(),
            );
            if lists_endpoint(&endpoints, "info") {
                ProbeStep::Send {
                    probe: Probe::FetchingInfo { endpoints, status_info },
                    request: request_below(cfg, "/info", 5),
                }
            } else {
                let info = Json::Object(new_entries());
                ProbeStep::Finished {
                    view: view_instance(cfg, endpoints, status_info, info, now),
                }
            }
        },
        Probe::FetchingInfo { endpoints, status_info } => {
            let info = match &exchange {
                Exchange::Answered { status: _, body } => read_payload(body),
                Exchange::Failed { .. } => Json::Object(new_entries()),
            };
            ProbeStep::Finished { view: view_instance(cfg, endpoints, status_info, info, now) }
        },
    }
}

/// Goes on with a probe after the call that it wanted ended.
pub fn advance_probe(cfg: &InstanceConfig, probe: Probe, exchange: Exchange) -> (step: ProbeStep)
    requires
        probe.wf(),
    ensures
        step.wf(),
        exists|now: Seq<char>| #[trigger]
            is_timestamp(now) && step@ == next_step(cfg@, probe@, exchange@, now),
{
    let now = now_iso();
    advance_probe_at(cfg, probe, exchange, now)
}

/// A probe calls nothing but the configured address and what stands below it, and shows nothing
/// but the configured token, whatever it was answered.
pub proof fn calls_stay_below_the_configured_address(
    cfg: ConfigModel,
    probe: ProbeModel,
    exchange: ExchangeModel,
    now: Seq<char>,
)
    ensures
        first_step(cfg) matches StepModel::Send { probe: _, request } && request.url
            == cfg.actuator_base_url && request.bearer_token == cfg.bearer_token,
        next_step(cfg, probe, exchange, now) matches StepModel::Send { probe: _, request } ==> {
            &&& request.url == cfg.actuator_base_url + "/health"@ || request.url
                == cfg.actuator_base_url + "/info"@
            &&& request.bearer_token == cfg.bearer_token
        },
{
}

/// A probe ends after the health endpoint where no info endpoint was discovered, and after the
/// info endpoint otherwise; its view is made of what the calls gave.
pub proof fn probe_runs_to_its_view(
    cfg: ConfigModel,
    root: ExchangeModel,
    health: ExchangeModel,
    info: ExchangeModel,
    root_at: Seq<char>,
    health_at: Seq<char>,
    info_at: Seq<char>,
)
    ensures
        ({
            let endpoints = exposed_endpoints(discovered_document(root));
            let status_info = health_of_exchange(cfg.actuator_base_url, health, health_at);
            let checking = ProbeModel::CheckingHealth { endpoints };
            let fetching = ProbeModel::FetchingInfo { endpoints, status_info };
            &&& next_step(cfg, ProbeModel::Discovering, root, root_at) == (StepModel::Send {
                probe: checking,
                request: request_to(cfg, "/health"@, 9),
            })
            &&& !has_endpoint(endpoints, "info"@) ==> next_step(cfg, checking, health, health_at)
                == (StepModel::Finished {
                view: probed_instance(cfg, endpoints, status_info, empty_object(), health_at),
            })
            &&& has_endpoint(endpoints, "info"@) ==> next_step(cfg, checking, health, health_at)
                == (StepModel::Send { probe: fetching, request: request_to(cfg, "/info"@, 5) })
            &&& next_step(cfg, fetching, info, info_at) == (StepModel::Finished {
                view: probed_instance(
                    cfg,
                    endpoints,
                    status_info,
                    info_of_exchange(info),
                    info_at,
                ),
            })
        }),
{
}

/// The build version of a probed instance is the text under `version` of the object under `build`
/// of its info, whatever else either of them holds; in every other case there is none.
pub proof fn build_version_is_the_version_of_the_build(
    cfg: ConfigModel,
    endpoints: Seq<EndpointModel>,
    status_info: StatusModel,
    info: JsonModel,
    now: Seq<char>,
    version: Seq<char>,
)
    ensures
        ({
            let view = probed_instance(cfg, endpoints, status_info, info, now);
            &&& view.build_version == build_version_of(info)
            &&& view.build_version == Some(version) <==> (info matches JsonModel::Object(fields)
                && fields.contains_key("build"@) && (fields["build"@] matches JsonModel::Object(
                build,
            ) && build.contains_key("version"@) && build["version"@] == JsonModel::Text(version)))
        }),
{
}

/// A probed instance is what the calls gave, under the name and with the registration of its
/// configuration: the configured address, the health endpoint below it, and where the address
/// leads. It has no tags, and is the first view of its kind.
pub proof fn probed_view_is_made_of_the_answers(
    cfg: ConfigModel,
    endpoints: Seq<EndpointModel>,
    status_info: StatusModel,
    info: JsonModel,
    now: Seq<char>,
)
    ensures
        ({
            let view = probed_instance(cfg, endpoints, status_info, info, now);
            &&& view.id == cfg.name
            &&& view.endpoints == endpoints
            &&& view.status_info == status_info
            &&& view.info == info
            &&& view.status_timestamp == now
            &&& view.registered
            &&& view.version == 1
            &&& view.tags == JsonModel::Object(Map::empty())
            &&& view.registration == registration_of(cfg)
            &&& view.registration.name == cfg.name
            &&& view.registration.management_url == cfg.actuator_base_url
            &&& view.registration.health_url == cfg.actuator_base_url + "/health"@
            &&& view.registration.service_url == origin(cfg.actuator_base_url)
            &&& view.registration.source == "static"@
            &&& view.registration.metadata matches JsonModel::Object(metadata) && {
                &&& metadata.contains_key("management.context-path"@)
                &&& metadata["management.context-path"@] == JsonModel::Text(
                    context_path(cfg.actuator_base_url),
                )
                &&& forall|key: Seq<char>| #[trigger]
                    metadata.contains_key(key) ==> key == "management.context-path"@
            }
        }),
{
}

/// A probe calls the configured address first and the health endpoint next, whatever it is
/// answered, and then the info endpoint exactly where an endpoint of that name was discovered.
/// It waits five seconds each time, and nine for the health, and always shows the configured
/// token.
pub proof fn probe_makes_its_calls_in_order(
    cfg: ConfigModel,
    endpoints: Seq<EndpointModel>,
    exchange: ExchangeModel,
    now: Seq<char>,
)
    ensures
        first_step(cfg) matches StepModel::Send { probe, request } && {
            &&& probe is Discovering
            &&& request.url == cfg.actuator_base_url
            &&& request.bearer_token == cfg.bearer_token
            &&& request.timeout_secs == 5
        },
        next_step(cfg, ProbeModel::Discovering, exchange, now) matches StepModel::Send {
            probe,
            request,
        } && {
            &&& probe == (ProbeModel::CheckingHealth {
                endpoints: exposed_endpoints(discovered_document(exchange)),
            })
            &&& request.url == cfg.actuator_base_url + "/health"@
            &&& request.bearer_token == cfg.bearer_token
            &&& request.timeout_secs == 9
        },
        ({
            let step = next_step(cfg, ProbeModel::CheckingHealth { endpoints }, exchange, now);
            let status_info = health_of_exchange(cfg.actuator_base_url, exchange, now);
            let listed = exists|i: int|
                0 <= i < endpoints.len() && (#[trigger] endpoints[i]).id == "info"@;
            &&& listed ==> (step matches StepModel::Send { probe, request } && {
                &&& probe == (ProbeModel::FetchingInfo { endpoints, status_info })
                &&& request.url == cfg.actuator_base_url + "/info"@
                &&& request.bearer_token == cfg.bearer_token
                &&& request.timeout_secs == 5
            })
            &&& !listed ==> step == (StepModel::Finished {
                view: probed_instance(
                    cfg,
                    endpoints,
                    status_info,
                    JsonModel::Object(Map::empty()),
                    now,
                ),
            })
        }),
{
}

/// The info of an instance is what the info endpoint answers as JSON: null where that is no JSON,
/// and an object without fields where the call failed.
pub proof fn info_is_the_answer(
    cfg: ConfigModel,
    endpoints: Seq<EndpointModel>,
    status_info: StatusModel,
    exchange: ExchangeModel,
    now: Seq<char>,
)
    ensures
        next_step(
            cfg,
            ProbeModel::FetchingInfo { endpoints, status_info },
            exchange,
            now,
        ) matches StepModel::Finished { view } && {
            &&& view == probed_instance(cfg, endpoints, status_info, view.info, now)
            &&& exchange is Failed ==> view.info == JsonModel::Object(Map::empty())
            &&& exchange matches ExchangeModel::Answered { status, body } ==> {
                &&& body is Some && parsed_json(body->0) is Some ==> view.info == parsed_json(
                    body->0,
                )->0
                &&& body is None || parsed_json(body->0) is None ==> view.info == JsonModel::Null
            }
        },
{
}

/// A call shows its address, its token and how long it may take.
pub proof fn request_shows_its_fields(request: ActuatorRequest)
    ensures
        request@.url == request.url@,
        request@.timeout_secs == request.timeout_secs,
        request@.bearer_token is Some <==> request.bearer_token is Some,
        request.bearer_token matches Some(token) ==> request@.bearer_token == Some(token@),
{
}

/// A probe and its steps show what they hold.
pub proof fn probe_shows_what_it_holds(probe: Probe, step: ProbeStep)
    ensures
        probe is Discovering <==> probe@ is Discovering,
        probe matches Probe::CheckingHealth { endpoints } ==> probe@ == (
        ProbeModel::CheckingHealth { endpoints: endpoint_models(endpoints@) }),
        probe matches Probe::FetchingInfo { endpoints, status_info } ==> probe@ == (
        ProbeModel::FetchingInfo {
            endpoints: endpoint_models(endpoints@),
            status_info: status_info@,
        }),
        step matches ProbeStep::Send { probe: next, request } ==> step@ == (StepModel::Send {
            probe: next@,
            request: request@,
        }),
        step matches ProbeStep::Finished { view } ==> step@ == (StepModel::Finished {
            view: view@,
        }),
{
}

} // verus!
