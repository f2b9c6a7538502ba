//! How a call to a remote actuator ended.

use crate::json::{parse_json, parsed_json, Json, JsonModel};
use vstd::prelude::*;

verus! {

/// The end of one HTTP call: an answer, with its body where the body could be read, or a failure
/// to get one.
#[derive(Debug)]
pub enum Exchange {
    Answered { status: u16, body: Option<Vec<u8>> },
    Failed { timed_out: bool, not_connected: bool, message: String },
}

/// What the end of a call is.
pub enum ExchangeModel {
    Answered { status: u16, body: Option<Seq<u8>> },
    Failed { timed_out: bool, not_connected: bool, message: Seq<char> },
}

/// The bytes of a body that could be read.
pub open spec fn body_bytes(body: Option<Vec<u8>>) -> Option<Seq<u8>> {
    match body {
        Some(bytes) => Some(bytes@),
        None => None,
    }
}

impl View for Exchange {
    type V = ExchangeModel;

    open spec fn view(&self) -> ExchangeModel {
        match *self {
            Exchange::Answered { status, body } => ExchangeModel::Answered {
                status,
                body: body_bytes(body),
            },
            Exchange::Failed { timed_out, not_connected, message } => ExchangeModel::Failed {
                timed_out,
                not_connected,
                message: message@,
            },
        }
    }
}

/// What a body says as JSON; a body that could not be read, or that is no JSON, says null.
pub open spec fn payload_of(body: Option<Seq<u8>>) -> JsonModel {
    match body {
        Some(bytes) => match parsed_json(bytes) {
            Some(json) => json,
            None => JsonModel::Null,
        },
        None => JsonModel::Null,
    }
}

/// Reads a body as JSON.
pub fn read_payload(body: &Option<Vec<u8>>) -> (json: Json)
    ensures
        json.wf(),
        json@ == payload_of(body_bytes(*body)),
{
    match body {
        Some(bytes) => match parse_json(bytes.as_slice()) {
            Some(json) => json,
            None => Json::Null,
        },
        None => Json::Null,
    }
}

/// The end of a call shows what it was, and a body what it holds.
pub proof fn exchange_shows_its_fields(exchange: Exchange)
    ensures
        exchange matches Exchange::Answered { status, body } ==> (
        exchange@ matches ExchangeModel::Answered { status: told, body: shown } && told == status
            && (body is Some <==> shown is Some) && (body matches Some(bytes) ==> shown == Some(
            bytes@,
        ))),
        exchange matches Exchange::Failed { timed_out, not_connected, message } ==> exchange@ == (
        ExchangeModel::Failed { timed_out, not_connected, message: message@ }),
{
}

/// A body says what its bytes say as JSON; one that was not read, or is no JSON, says null.
pub proof fn payload_is_what_the_bytes_say(bytes: Seq<u8>)
    ensures
        parsed_json(bytes) matches Some(json) ==> payload_of(Some(bytes)) == json,
        parsed_json(bytes) is None ==> payload_of(Some(bytes)) == JsonModel::Null,
        payload_of(None) == JsonModel::Null,
{
}

} // verus!
