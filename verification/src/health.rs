//! The health of an instance, read from what its health endpoint answers.

use crate::clock::{is_timestamp, now_iso};
use crate::exchange::{payload_of, read_payload, Exchange, ExchangeModel};
use crate::json::{fields_of, parsed_json, Json, JsonModel, Number, NumberModel};
use crate::json::{insert_entry, merge_entries, new_entries, remove_entry};
use crate::model::{optional_text, StatusInfoView, StatusModel};
use crate::text::joined;
use vstd::prelude::*;

verus! {

/// The address of the health endpoint below an actuator.
pub open spec fn health_url(base_url: Seq<char>) -> Seq<char> {
    base_url + "/health"@
}

/// The status that a health payload reports.
pub open spec fn reported_status(body: JsonModel) -> Option<Seq<char>> {
    match body.field("status"@) {
        Some(status) => status.text(),
        None => None,
    }
}

/// The details of a health payload: the payload without its status. Where the components form an
/// object, they become the details themselves, beside what else the payload holds.
pub open spec fn health_details(body: JsonModel) -> JsonModel {
    match body {
        JsonModel::Object(fields) => {
            let rest = fields.remove("status"@);
            match JsonModel::Object(rest).field("components"@) {
                Some(JsonModel::Object(components)) => JsonModel::Object(
                    components.union_prefer_right(rest.remove("components"@)),
                ),
                _ => JsonModel::Object(rest),
            }
        },
        _ => body,
    }
}

/// What stands in for the details where an answer is no health payload.
pub open spec fn placeholder_details(
    url: Seq<char>,
    status: u16,
    reason: Option<Seq<char>>,
    now: Seq<char>,
) -> JsonModel {
    let error = match reason {
        Some(reason) => reason,
        None => "Error"@,
    };
    JsonModel::Object(
        Map::empty().insert("path"@, JsonModel::Text(url)).insert(
            "error"@,
            JsonModel::Text(error),
        ).insert("status"@, JsonModel::Number(NumberModel::Unsigned(status as u64))).insert(
            "timestamp"@,
            JsonModel::Text(now),
        ),
    )
}

/// The health that an answer shows.
pub open spec fn health_of_reply(
    url: Seq<char>,
    status: u16,
    reason: Option<Seq<char>>,
    body: JsonModel,
    now: Seq<char>,
) -> StatusModel {
    match reported_status(body) {
        Some(reported) => StatusModel {
            status: reported,
            details: health_details(body),
            out_of_service: false,
            restricted: false,
        },
        None => StatusModel {
            status: "DOWN"@,
            details: placeholder_details(url, status, reason, now),
            out_of_service: false,
            restricted: false,
        },
    }
}

/// The exception that a failure is told as.
pub open spec fn exception_name(timed_out: bool, not_connected: bool) -> Seq<char> {
    if timed_out {
        "java.util.concurrent.TimeoutException"@
    } else if not_connected {
        "java.net.ConnectException"@
    } else {
        "java.io.IOException"@
    }
}

/// The health that a failure shows.
pub open spec fn health_of_failure(
    timed_out: bool,
    not_connected: bool,
    message: Seq<char>,
) -> StatusModel {
    StatusModel {
        status: "OFFLINE"@,
        details: JsonModel::Object(
            Map::empty().insert(
                "exception"@,
                JsonModel::Text(exception_name(timed_out, not_connected)),
            ).insert("message"@, JsonModel::Text(message)),
        ),
        out_of_service: false,
        restricted: false,
    }
}

/// The health that the end of a call shows.
pub open spec fn health_of_exchange(
    base_url: Seq<char>,
    exchange: ExchangeModel,
    now: Seq<char>,
) -> StatusModel {
    match exchange {
        ExchangeModel::Answered { status, body } => health_of_reply(
            health_url(base_url),
            status,
            reason_phrase(status),
            payload_of(body),
            now,
        ),
        ExchangeModel::Failed { timed_out, not_connected, message } => health_of_failure(
            timed_out,
            not_connected,
            message,
        ),
    }
}

/// The standard phrase for an HTTP status, where there is one.
pub uninterp spec fn reason_phrase(status: u16) -> Option<Seq<char>>;

/// Calls `http::StatusCode::canonical_reason`, by the path under which `axum` hands it on.
/// Claimed: whether there is a phrase, and which, depends on the number alone; a number that is
/// no status has none. The table of phrases is not spelled out.
#[verifier::external_body]
fn canonical_reason(status: u16) -> (reason: Option<String>)
    ensures
        match reason {
            Some(reason) => reason_phrase(status) == Some(reason@),
            None => reason_phrase(status) is None,
        },
{
    let code = axum::http::StatusCode::from_u16(status).ok()?;
    code.canonical_reason().map(String::from)
}

/// Hoists the components of a health payload into its details.
pub fn hoist_components(body: Json) -> (details: Json)
    requires
        body.wf(),
    ensures
        details.wf(),
        details@ == health_details(body@),
{
    match body {
        Json::Object(fields) => {
            let mut rest = fields;
            remove_entry(&mut rest, "status");
            let ghost kept = fields_of(rest@);
            match remove_entry(&mut rest, "components") {
                Some(Json::Object(components)) => {
                    let mut merged = components;
                    merge_entries(&mut merged, rest);
                    Json::Object(merged)
                },
                Some(other) => {
                    let ghost held = other@;
                    insert_entry(&mut rest, "components".to_owned(), other);
                    assert(kept.remove("components"@).insert("components"@, held) =~= kept);
                    Json::Object(rest)
                },
                None => {
                    assert(kept.remove("components"@) =~= kept);
                    Json::Object(rest)
                },
            }
        },
        other => other,
    }
}

/// The health that an answer shows.
pub fn read_health_reply(
    url: &str,
    status: u16,
    reason: Option<String>,
    body: Json,
    now: String,
) -> (health: StatusInfoView)
    requires
        body.wf(),
    ensures
        health.wf(),
        health@ == health_of_reply(url@, status, optional_text(reason), body@, now@),
{
    let reported: Option<String> = match body.get("status") {
        Some(value) => match value.as_text() {
            Some(text) => Some(text.to_owned()),
            None => None,
        },
        None => None,
    };
    match reported {
        Some(status) => StatusInfoView {
            status,
            details: hoist_components(body),
            out_of_service: false,
            restricted: false,
        },
        None => {
            let error = match reason {
                Some(reason) => reason,
                None => "Error".to_owned(),
            };
            let mut details = new_entries();
            insert_entry(&mut details, "path".to_owned(), Json::Text(url.to_owned()));
            insert_entry(&mut details, "error".to_owned(), Json::Text(error));
            insert_entry(
                &mut details,
                "status".to_owned(),
                Json::Number(Number::Unsigned(status as u64)),
            );
            insert_entry(&mut details, "timestamp".to_owned(), Json::Text(now));
            StatusInfoView {
                status: "DOWN".to_owned(),
                details: Json::Object(details),
                out_of_service: false,
                restricted: false,
            }
        },
    }
}

/// The health that a failure to get an answer shows.
pub fn read_health_failure(timed_out: bool, not_connected: bool, message: String) -> (health:
    StatusInfoView)
    ensures
        health.wf(),
        health@ == health_of_failure(timed_out, not_connected, message@),
{
    let exception = if timed_out {
        "java.util.concurrent.TimeoutException"
    } else if not_connected {
        "java.net.ConnectException"
    } else {
        "java.io.IOException"
    };
    let mut details = new_entries();
    insert_entry(&mut details, "exception".to_owned(), Json::Text(exception.to_owned()));
    insert_entry(&mut details, "message".to_owned(), Json::Text(message));
    StatusInfoView {
        status: "OFFLINE".to_owned(),
        details: Json::Object(details),
        out_of_service: false,
        restricted: false,
    }
}

/// The health that a call to the health endpoint shows, as seen at `now`.
pub fn check_health_at(base_url: &str, exchange: Exchange, now: String) -> (health: StatusInfoView)
    ensures
        health.wf(),
        health@ == health_of_exchange(base_url@, exchange@, now@),
{
    match exchange {
        Exchange::Answered { status, body } => {
            let url = joined(base_url, "/health");
            let reason = canonical_reason(status);
            read_health_reply(url.as_str(), status, reason, read_payload(&body), now)
        },
        Exchange::Failed { timed_out, not_connected, message } => read_health_failure(
            timed_out,
            not_connected,
            message,
        ),
    }
}

/// The health that a call to the health endpoint shows. The clock is read once; only the
/// placeholder for an answer that is no health payload tells the time.
pub fn check_health(base_url: &str, exchange: Exchange) -> (health: StatusInfoView)
    ensures
        health.wf(),
        exists|now: Seq<char>| #[trigger]
            is_timestamp(now) && health@ == health_of_exchange(base_url@, exchange@, now),
{
    let now = now_iso();
    check_health_at(base_url, exchange, now)
}

/// An answer that reports a status is a valid health payload, whatever its HTTP status is, when
/// it came and from where.
pub proof fn http_status_does_not_matter(
    url: Seq<char>,
    other_url: Seq<char>,
    status: u16,
    other_status: u16,
    reason: Option<Seq<char>>,
    other_reason: Option<Seq<char>>,
    body: JsonModel,
    now: Seq<char>,
    later: Seq<char>,
)
    requires
        reported_status(body) is Some,
    ensures
        health_of_reply(url, status, reason, body, now) == health_of_reply(
            other_url,
            other_status,
            other_reason,
            body,
            later,
        ),
{
}

/// No field of a health payload is lost but the status, and the components where they are
/// hoisted: every other one stands among the details unchanged.
pub proof fn other_fields_are_kept(fields: Map<Seq<char>, JsonModel>, key: Seq<char>)
    requires
        fields.contains_key(key),
        key != "status"@,
        key == "components"@ ==> !(fields[key] is Object),
    ensures
        health_details(JsonModel::Object(fields)).field(key) == Some(fields[key]),
{
}

/// Every component is hoisted into the details, unless the payload holds a field of the same
/// name beside the components.
pub proof fn components_are_hoisted(
    fields: Map<Seq<char>, JsonModel>,
    components: Map<Seq<char>, JsonModel>,
    key: Seq<char>,
)
    requires
        fields.contains_key("components"@),
        fields["components"@] == JsonModel::Object(components),
        components.contains_key(key),
        !fields.contains_key(key) || key == "status"@ || key == "components"@,
    ensures
        health_details(JsonModel::Object(fields)).field(key) == Some(components[key]),
{
    reveal_strlit("status");
    reveal_strlit("components");
    assert("status"@.len() != "components"@.len());
}

/// The details hold nothing that the payload did not hold, as a field or as a component.
pub proof fn details_add_nothing(fields: Map<Seq<char>, JsonModel>, key: Seq<char>)
    requires
        health_details(JsonModel::Object(fields)).field(key) is Some,
    ensures
        ({
            let value = health_details(JsonModel::Object(fields)).field(key);
            ||| key != "status"@ && JsonModel::Object(fields).field(key) == value
            ||| JsonModel::Object(fields).field("components"@) is Some && JsonModel::Object(
                fields,
            ).field("components"@)->0.field(key) == value
        }),
{
}

/// A payload with a text as its status is shown with exactly that status, whatever it is. Its
/// details are the other fields of the payload; where the components form an object, each of
/// them stands among the details under its own key, unless another field has that key, and the
/// components are no detail themselves.
pub proof fn reported_health_is_shown(
    url: Seq<char>,
    status: u16,
    reason: Option<Seq<char>>,
    fields: Map<Seq<char>, JsonModel>,
    reported: Seq<char>,
    now: Seq<char>,
)
    requires
        fields.contains_key("status"@),
        fields["status"@] == JsonModel::Text(reported),
    ensures
        ({
            let health = health_of_reply(url, status, reason, JsonModel::Object(fields), now);
            let hoisted = fields.contains_key("components"@) && fields["components"@] is Object;
            let components = fields["components"@]->Object_0;
            &&& health.status == reported
            &&& !health.out_of_service
            &&& !health.restricted
            &&& health.details matches JsonModel::Object(details) && {
                &&& !hoisted ==> forall|key: Seq<char>|
                    {
                        &&& #[trigger] details.contains_key(key) <==> fields.contains_key(key)
                            && key != "status"@
                        &&& details.contains_key(key) ==> details[key] == fields[key]
                    }
                &&& hoisted ==> forall|key: Seq<char>|
                    {
                        let beside = fields.contains_key(key) && key != "status"@ && key
                            != "components"@;
                        &&& #[trigger] details.contains_key(key) <==> beside
                            || components.contains_key(key)
                        &&& beside ==> details[key] == fields[key]
                        &&& !beside && components.contains_key(key) ==> details[key]
                            == components[key]
                    }
            }
        }),
{
    reveal_strlit("status");
    reveal_strlit("components");
    assert("status"@.len() != "components"@.len());
}

/// An answer that is no object with a text as its status is told as down, with the address that
/// was called, the phrase for the HTTP status, that status and the time, and nothing else.
pub proof fn other_answer_is_down(
    url: Seq<char>,
    status: u16,
    reason: Option<Seq<char>>,
    body: JsonModel,
    now: Seq<char>,
)
    requires
        !(body matches JsonModel::Object(fields) && fields.contains_key("status"@)
            && fields["status"@] is Text),
    ensures
        ({
            let health = health_of_reply(url, status, reason, body, now);
            &&& health.status == "DOWN"@
            &&& !health.out_of_service
            &&& !health.restricted
            &&& health.details matches JsonModel::Object(details) && {
                &&& details.contains_key("path"@) && details["path"@] == JsonModel::Text(url)
                &&& details.contains_key("error"@)
                &&& reason is Some ==> details["error"@] == JsonModel::Text(reason->0)
                &&& reason is None ==> details["error"@] == JsonModel::Text("Error"@)
                &&& details.contains_key("status"@)
                &&& details["status"@] == JsonModel::Number(NumberModel::Unsigned(status as u64))
                &&& details.contains_key("timestamp"@)
                &&& details["timestamp"@] == JsonModel::Text(now)
                &&& forall|key: Seq<char>| #[trigger]
                    details.contains_key(key) ==> key == "path"@ || key == "error"@ || key
                        == "status"@ || key == "timestamp"@
            }
        }),
{
    reveal_strlit("path");
    reveal_strlit("error");
    reveal_strlit("status");
    reveal_strlit("timestamp");
    assert("path"@.len() == 4 && "error"@.len() == 5 && "status"@.len() == 6 && "timestamp"@.len()
        == 9);
}

/// A failed call is told as offline, with what went wrong and the message, and nothing else. A
/// call that took too long is told so even where there was no connection.
pub proof fn failure_is_offline(
    base_url: Seq<char>,
    timed_out: bool,
    not_connected: bool,
    message: Seq<char>,
    now: Seq<char>,
)
    ensures
        ({
            let failed = ExchangeModel::Failed { timed_out, not_connected, message };
            let health = health_of_exchange(base_url, failed, now);
            &&& health == health_of_failure(timed_out, not_connected, message)
            &&& health.status == "OFFLINE"@
            &&& !health.out_of_service
            &&& !health.restricted
            &&& health.details matches JsonModel::Object(details) && {
                &&& details.contains_key("message"@)
                &&& details["message"@] == JsonModel::Text(message)
                &&& details.contains_key("exception"@)
                &&& timed_out ==> details["exception"@] == JsonModel::Text(
                    "java.util.concurrent.TimeoutException"@,
                )
                &&& !timed_out && not_connected ==> details["exception"@] == JsonModel::Text(
                    "java.net.ConnectException"@,
                )
                &&& !timed_out && !not_connected ==> details["exception"@] == JsonModel::Text(
                    "java.io.IOException"@,
                )
                &&& forall|key: Seq<char>| #[trigger]
                    details.contains_key(key) ==> key == "message"@ || key == "exception"@
            }
        }),
{
    reveal_strlit("message");
    reveal_strlit("exception");
    assert("message"@.len() == 7 && "exception"@.len() == 9);
}

/// An answer is judged by what its body says as JSON, and as null where the body could not be
/// read or is no JSON. The address that is told is that of the health endpoint.
pub proof fn answer_is_judged_by_its_body(
    base_url: Seq<char>,
    status: u16,
    body: Option<Seq<u8>>,
    now: Seq<char>,
)
    ensures
        ({
            let health = health_of_exchange(
                base_url,
                ExchangeModel::Answered { status, body },
                now,
            );
            let url = base_url + "/health"@;
            let reason = reason_phrase(status);
            &&& body is Some && parsed_json(body->0) is Some ==> health == health_of_reply(
                url,
                status,
                reason,
                parsed_json(body->0)->0,
                now,
            )
            &&& body is None || parsed_json(body->0) is None ==> health == health_of_reply(
                url,
                status,
                reason,
                JsonModel::Null,
                now,
            )
        }),
{
}

/// A health endpoint that answers with a payload is seen with the status of the payload, its
/// other fields and its hoisted components, whatever the HTTP status is.
pub proof fn answered_health_is_shown(
    base_url: Seq<char>,
    status: u16,
    bytes: Seq<u8>,
    fields: Map<Seq<char>, JsonModel>,
    reported: Seq<char>,
    now: Seq<char>,
    key: Seq<char>,
)
    requires
        parsed_json(bytes) == Some(JsonModel::Object(fields)),
        fields.contains_key("status"@),
        fields["status"@] == JsonModel::Text(reported),
    ensures
        ({
            let health = health_of_exchange(
                base_url,
                ExchangeModel::Answered { status, body: Some(bytes) },
                now,
            );
            let hoisted = fields.contains_key("components"@) && fields["components"@] is Object;
            let components = fields["components"@]->Object_0;
            let beside = fields.contains_key(key) && key != "status"@ && (key != "components"@
                || !hoisted);
            &&& health.status == reported
            &&& health.details matches JsonModel::Object(details) && {
                &&& details.contains_key(key) <==> beside || hoisted && components.contains_key(key)
                &&& beside ==> details[key] == fields[key]
                &&& !beside && details.contains_key(key) ==> details[key] == components[key]
            }
        }),
{
    reported_health_is_shown(
        base_url + "/health"@,
        status,
        reason_phrase(status),
        fields,
        reported,
        now,
    );
}

/// The details of a payload without components as an object are its fields but for the status; of
/// what is no object they are the payload itself.
pub proof fn plain_payload_is_kept(body: JsonModel)
    ensures
        !(body is Object) ==> health_details(body) == body,
        body matches JsonModel::Object(fields) ==> !(fields.contains_key("components"@)
            && fields["components"@] is Object) ==> (health_details(body) matches JsonModel::Object(
            details,
        ) && forall|key: Seq<char>|
            {
                &&& #[trigger] details.contains_key(key) <==> fields.contains_key(key) && key
                    != "status"@
                &&& details.contains_key(key) ==> details[key] == fields[key]
            }),
{
    reveal_strlit("status");
    reveal_strlit("components");
    assert("status"@.len() != "components"@.len());
}

} // verus!
