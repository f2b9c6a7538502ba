//! Calls from the user interface to the actuator of an instance, handed on as they are, but for the
//! headers that concern one connection or this server only.

use crate::config::optional_str;
use crate::exchange::body_bytes;
use crate::lists::{filter_begins, filter_goes_on};
use crate::model::optional_text;
use crate::state::MonitorState;
use crate::text::{lowered, same_ignoring_case};
use crate::urls::{upstream_url, upstream_url_of};
use vstd::prelude::*;

verus! {

/// A header of a request or of an answer.
#[derive(Debug)]
pub struct Header {
    pub name: String,
    pub value: Vec<u8>,
}

/// What a header is.
pub struct HeaderModel {
    pub name: Seq<char>,
    pub value: Seq<u8>,
}

impl View for Header {
    type V = HeaderModel;

    open spec fn view(&self) -> HeaderModel {
        HeaderModel { name: self.name@, value: self.value@ }
    }
}

/// A list of headers.
pub open spec fn header_models(headers: Seq<Header>) -> Seq<HeaderModel> {
    headers.map_values(|h: Header| h@)
}

/// What is sent to an actuator, besides the method and the body of the request.
#[derive(Debug)]
pub struct UpstreamRequest {
    pub url: String,
    pub headers: Vec<Header>,
    pub bearer_token: Option<String>,
}

/// An answer.
#[derive(Debug)]
pub struct ProxyReply {
    pub status: u16,
    pub headers: Vec<Header>,
    pub body: Vec<u8>,
}

/// What becomes of a request for an actuator: an answer at once, or a call.
#[derive(Debug)]
pub enum ProxyStart {
    Reply { reply: ProxyReply },
    Forward { request: UpstreamRequest },
}

/// How handing a request on went.
#[derive(Debug)]
pub enum ProxyOutcome {
    BodyUnreadable,
    Unreachable,
    Answered { status: u16, headers: Vec<Header>, body: Option<Vec<u8>> },
}

/// Two names of headers are the same.
pub open spec fn same_name(a: Seq<char>, b: Seq<char>) -> bool {
    lowered(a) == lowered(b)
}

/// The header concerns one connection only.
pub open spec fn hop_by_hop(name: Seq<char>) -> bool {
    ||| same_name(name, "connection"@)
    ||| same_name(name, "keep-alive"@)
    ||| same_name(name, "proxy-authenticate"@)
    ||| same_name(name, "proxy-authorization"@)
    ||| same_name(name, "te"@)
    ||| same_name(name, "trailer"@)
    ||| same_name(name, "trailers"@)
    ||| same_name(name, "transfer-encoding"@)
    ||| same_name(name, "upgrade"@)
}

/// The header of a request is handed on. The one that shows who the caller is to this server is
/// not: an actuator has a token of its own.
pub open spec fn goes_upstream(name: Seq<char>) -> bool {
    !hop_by_hop(name) && !same_name(name, "host"@) && !same_name(name, "authorization"@)
}

/// The header of an answer is handed back.
pub open spec fn comes_back(name: Seq<char>) -> bool {
    !hop_by_hop(name) && !same_name(name, "content-length"@)
}

/// The headers that are handed on.
pub open spec fn headers_upstream(headers: Seq<HeaderModel>) -> Seq<HeaderModel> {
    headers.filter(|h: HeaderModel| goes_upstream(h.name))
}

/// The headers that are handed back: every value of a repeated one.
pub open spec fn headers_back(headers: Seq<HeaderModel>) -> Seq<HeaderModel> {
    headers.filter(|h: HeaderModel| comes_back(h.name))
}

/// Whether a header concerns one connection only.
pub fn is_hop_by_hop(name: &str) -> (hop: bool)
    ensures
        hop == hop_by_hop(name@),
{
    same_ignoring_case(name, "connection") || same_ignoring_case(name, "keep-alive")
        || same_ignoring_case(name, "proxy-authenticate") || same_ignoring_case(
        name,
        "proxy-authorization",
    ) || same_ignoring_case(name, "te") || same_ignoring_case(name, "trailer")
        || same_ignoring_case(name, "trailers") || same_ignoring_case(name, "transfer-encoding")
        || same_ignoring_case(name, "upgrade")
}

/// The headers that are handed on, in their order.
pub fn select_request_headers(headers: Vec<Header>) -> (selected: Vec<Header>)
    ensures
        header_models(selected@) == headers_upstream(header_models(headers@)),
{
    let ghost given = headers@;
    let ghost all = header_models(given);
    let ghost passes = |h: HeaderModel| goes_upstream(h.name);
    let mut selected: Vec<Header> = Vec::new();
    proof {
        filter_begins(all, passes);
    }
    assert(header_models(selected@) =~= Seq::empty());
    for header in it: headers
        invariant
            it.seq() == given,
            all == header_models(given),
            passes == (|h: HeaderModel| goes_upstream(h.name)),
            header_models(selected@) == all.take(it.index() as int).filter(passes),
    {
        let ghost before = selected@;
        let ghost i = it.index() as int;
        assert(header == given[i]);
        assert(all[i] == header@);
        proof {
            filter_goes_on(all, passes, i);
        }
        if !is_hop_by_hop(header.name.as_str()) && !same_ignoring_case(
            header.name.as_str(),
            "host",
        ) && !same_ignoring_case(header.name.as_str(), "authorization") {
            selected.push(header);
            assert(header_models(selected@) =~= header_models(before).push(all[i]));
        }
    }
    assert(all.take(all.len() as int) =~= all);
    selected
}

/// The headers that are handed back, in their order.
pub fn select_reply_headers(headers: Vec<Header>) -> (selected: Vec<Header>)
    ensures
        header_models(selected@) == headers_back(header_models(headers@)),
{
    let ghost given = headers@;
    let ghost all = header_models(given);
    let ghost passes = |h: HeaderModel| comes_back(h.name);
    let mut selected: Vec<Header> = Vec::new();
    proof {
        filter_begins(all, passes);
    }
    assert(header_models(selected@) =~= Seq::empty());
    for header in it: headers
        invariant
            it.seq() == given,
            all == header_models(given),
            passes == (|h: HeaderModel| comes_back(h.name)),
            header_models(selected@) == all.take(it.index() as int).filter(passes),
    {
        let ghost before = selected@;
        let ghost i = it.index() as int;
        assert(header == given[i]);
        assert(all[i] == header@);
        proof {
            filter_goes_on(all, passes, i);
        }
        if !is_hop_by_hop(header.name.as_str()) && !same_ignoring_case(
            header.name.as_str(),
            "content-length",
        ) {
            selected.push(header);
            assert(header_models(selected@) =~= header_models(before).push(all[i]));
        }
    }
    assert(all.take(all.len() as int) =~= all);
    selected
}

/// An answer that is a status and nothing else.
fn bare_reply(status: u16) -> (reply: ProxyReply)
    ensures
        reply.status == status,
        reply.headers@.len() == 0,
        reply.body@.len() == 0,
{
    ProxyReply { status, headers: Vec::new(), body: Vec::new() }
}

/// What becomes of a request for a path below the actuator of an instance: 404 where the
/// instance is not configured; otherwise the call to make, with the token of the instance.
pub fn instance_actuator_proxy(
    state: &MonitorState,
    id: &str,
    path: &str,
    query: Option<&str>,
    headers: Vec<Header>,
) -> (start: ProxyStart)
    requires
        state.wf(),
    ensures
        match start {
            ProxyStart::Reply { reply } => {
                &&& !state@.configs.contains_key(id@)
                &&& reply.status == 404
                &&& reply.headers@.len() == 0
                &&& reply.body@.len() == 0
            },
            ProxyStart::Forward { request } => {
                &&& state@.configs.contains_key(id@)
                &&& request.url@ == upstream_url(
                    state@.configs[id@].actuator_base_url,
                    path@,
                    optional_str(query),
                )
                &&& optional_text(request.bearer_token) == state@.configs[id@].bearer_token
                &&& header_models(request.headers@) == headers_upstream(header_models(headers@))
            },
        },
{
    match state.actuator_target(id) {
        Some((base_url, bearer_token)) => ProxyStart::Forward {
            request: UpstreamRequest {
                url: upstream_url_of(base_url.as_str(), path, query),
                headers: select_request_headers(headers),
                bearer_token,
            },
        },
        None => ProxyStart::Reply { reply: bare_reply(404) },
    }
}

/// The answer after a request was handed on: 400 where its body could not be read, 502 where the
/// actuator could not be reached; otherwise what the actuator answered, with an empty body where
/// that could not be read.
pub fn proxy_reply(outcome: ProxyOutcome) -> (reply: ProxyReply)
    ensures
        match outcome {
            ProxyOutcome::BodyUnreadable => {
                &&& reply.status == 400
                &&& reply.headers@.len() == 0
                &&& reply.body@.len() == 0
            },
            ProxyOutcome::Unreachable => {
                &&& reply.status == 502
                &&& reply.headers@.len() == 0
                &&& reply.body@.len() == 0
            },
            ProxyOutcome::Answered { status, headers, body } => {
                &&& reply.status == status
                &&& header_models(reply.headers@) == headers_back(header_models(headers@))
                &&& reply.body@ == match body_bytes(body) {
                    Some(bytes) => bytes,
                    None => Seq::empty(),
                }
            },
        },
{
    match outcome {
        ProxyOutcome::BodyUnreadable => bare_reply(400),
        ProxyOutcome::Unreachable => bare_reply(502),
        ProxyOutcome::Answered { status, headers, body } => ProxyReply {
            status,
            headers: select_reply_headers(headers),
            body: match body {
                Some(bytes) => bytes,
                None => Vec::new(),
            },
        },
    }
}

/// What the caller shows to this server, the name of this host and what concerns one connection
/// only never reach an actuator; every other header does.
pub proof fn upstream_headers_are_clean(headers: Seq<HeaderModel>)
    ensures
        forall|i: int|
            0 <= i < headers_upstream(headers).len() ==> {
                let name = (#[trigger] headers_upstream(headers)[i]).name;
                &&& !same_name(name, "authorization"@)
                &&& !same_name(name, "host"@)
                &&& !hop_by_hop(name)
                &&& headers.contains(headers_upstream(headers)[i])
            },
        forall|i: int|
            0 <= i < headers.len() && goes_upstream((#[trigger] headers[i]).name)
                ==> headers_upstream(headers).contains(headers[i]),
{
    let passes = |h: HeaderModel| goes_upstream(h.name);
    assert forall|i: int| 0 <= i < headers_upstream(headers).len() implies {
        let name = (#[trigger] headers_upstream(headers)[i]).name;
        &&& !same_name(name, "authorization"@)
        &&& !same_name(name, "host"@)
        &&& !hop_by_hop(name)
        &&& headers.contains(headers_upstream(headers)[i])
    } by {
        headers.lemma_filter_pred(passes, i);
        headers.lemma_filter_contains_rev(passes, headers_upstream(headers)[i]);
    }
    assert forall|i: int|
        0 <= i < headers.len() && goes_upstream(
            (#[trigger] headers[i]).name,
        ) implies headers_upstream(headers).contains(headers[i]) by {
        headers.lemma_filter_contains(passes, i);
    }
}

/// What concerns one connection only, and the length that this server states itself, never come
/// back; every other header of an answer does, and nothing that was not sent.
pub proof fn headers_back_were_sent(headers: Seq<HeaderModel>)
    ensures
        forall|i: int|
            0 <= i < headers_back(headers).len() ==> {
                let name = (#[trigger] headers_back(headers)[i]).name;
                &&& !same_name(name, "content-length"@)
                &&& !hop_by_hop(name)
                &&& headers.contains(headers_back(headers)[i])
            },
        forall|i: int|
            0 <= i < headers.len() && comes_back((#[trigger] headers[i]).name) ==> headers_back(
                headers,
            ).contains(headers[i]),
{
    let passes = |h: HeaderModel| comes_back(h.name);
    assert forall|i: int| 0 <= i < headers_back(headers).len() implies {
        let name = (#[trigger] headers_back(headers)[i]).name;
        &&& !same_name(name, "content-length"@)
        &&& !hop_by_hop(name)
        &&& headers.contains(headers_back(headers)[i])
    } by {
        headers.lemma_filter_pred(passes, i);
        headers.lemma_filter_contains_rev(passes, headers_back(headers)[i]);
    }
    assert forall|i: int|
        0 <= i < headers.len() && comes_back(
            (#[trigger] headers[i]).name,
        ) implies headers_back(headers).contains(headers[i]) by {
        headers.lemma_filter_contains(passes, i);
    }
}

/// An answer whose headers may all come back keeps them as they are: none is lost, added or
/// moved, and a repeated one keeps all its values.
pub proof fn answers_pass_through(headers: Seq<HeaderModel>)
    requires
        forall|i: int| 0 <= i < headers.len() ==> comes_back((#[trigger] headers[i]).name),
    ensures
        headers_back(headers) == headers,
    decreases headers.len(),
{
    reveal(Seq::filter);
    if headers.len() > 0 {
        let fewer = headers.drop_last();
        assert forall|i: int| 0 <= i < fewer.len() implies comes_back(
            (#[trigger] fewer[i]).name,
        ) by {
            assert(headers[i] == fewer[i]);
        }
        answers_pass_through(fewer);
        assert(comes_back(headers[headers.len() - 1].name));
    }
    assert(headers_back(headers) =~= headers);
}

/// The headers that go to an actuator are those of the request but for the ones with a listed
/// name, whatever the case of its letters: every other header stays, in its order and with its
/// value.
pub proof fn request_headers_are_handed_on(headers: Seq<HeaderModel>)
    ensures
        headers_upstream(headers) == headers.filter(
            |h: HeaderModel|
                lowered(h.name) != lowered("connection"@) && lowered(h.name) != lowered(
                    "keep-alive"@,
                ) && lowered(h.name) != lowered("proxy-authenticate"@) && lowered(h.name)
                    != lowered("proxy-authorization"@) && lowered(h.name) != lowered("te"@)
                    && lowered(h.name) != lowered("trailer"@) && lowered(h.name) != lowered(
                    "trailers"@,
                ) && lowered(h.name) != lowered("transfer-encoding"@) && lowered(h.name)
                    != lowered("upgrade"@) && lowered(h.name) != lowered("host"@) && lowered(h.name)
                    != lowered("authorization"@),
        ),
{
    let passes = |h: HeaderModel| goes_upstream(h.name);
    let spelled = |h: HeaderModel|
        lowered(h.name) != lowered("connection"@) && lowered(h.name) != lowered("keep-alive"@)
            && lowered(h.name) != lowered("proxy-authenticate"@) && lowered(h.name) != lowered(
            "proxy-authorization"@,
        ) && lowered(h.name) != lowered("te"@) && lowered(h.name) != lowered("trailer"@) && lowered(
            h.name,
        ) != lowered("trailers"@) && lowered(h.name) != lowered("transfer-encoding"@) && lowered(
            h.name,
        ) != lowered("upgrade"@) && lowered(h.name) != lowered("host"@) && lowered(h.name)
            != lowered("authorization"@);
    assert(passes =~= spelled);
}

/// The headers that come back are those of the answer but for the ones with a listed name,
/// whatever the case of its letters: every other header stays, in its order and with its value.
pub proof fn reply_headers_are_handed_back(headers: Seq<HeaderModel>)
    ensures
        headers_back(headers) == headers.filter(
            |h: HeaderModel|
                lowered(h.name) != lowered("connection"@) && lowered(h.name) != lowered(
                    "keep-alive"@,
                ) && lowered(h.name) != lowered("proxy-authenticate"@) && lowered(h.name)
                    != lowered("proxy-authorization"@) && lowered(h.name) != lowered("te"@)
                    && lowered(h.name) != lowered("trailer"@) && lowered(h.name) != lowered(
                    "trailers"@,
                ) && lowered(h.name) != lowered("transfer-encoding"@) && lowered(h.name)
                    != lowered("upgrade"@) && lowered(h.name) != lowered("content-length"@),
        ),
{
    let passes = |h: HeaderModel| comes_back(h.name);
    let spelled = |h: HeaderModel|
        lowered(h.name) != lowered("connection"@) && lowered(h.name) != lowered("keep-alive"@)
            && lowered(h.name) != lowered("proxy-authenticate"@) && lowered(h.name) != lowered(
            "proxy-authorization"@,
        ) && lowered(h.name) != lowered("te"@) && lowered(h.name) != lowered("trailer"@) && lowered(
            h.name,
        ) != lowered("trailers"@) && lowered(h.name) != lowered("transfer-encoding"@) && lowered(
            h.name,
        ) != lowered("upgrade"@) && lowered(h.name) != lowered("content-length"@);
    assert(passes =~= spelled);
}

/// Exactly the nine listed headers concern one connection only, whatever the case of their
/// letters.
pub proof fn nine_headers_are_hop_by_hop(name: Seq<char>)
    ensures
        hop_by_hop(name) <==> {
            ||| lowered(name) == lowered("connection"@)
            ||| lowered(name) == lowered("keep-alive"@)
            ||| lowered(name) == lowered("proxy-authenticate"@)
            ||| lowered(name) == lowered("proxy-authorization"@)
            ||| lowered(name) == lowered("te"@)
            ||| lowered(name) == lowered("trailer"@)
            ||| lowered(name) == lowered("trailers"@)
            ||| lowered(name) == lowered("transfer-encoding"@)
            ||| lowered(name) == lowered("upgrade"@)
        },
{
}

/// A header shows its name and its value.
pub proof fn headers_show_name_and_value(headers: Seq<Header>, i: int)
    requires
        0 <= i < headers.len(),
    ensures
        header_models(headers).len() == headers.len(),
        header_models(headers)[i].name == headers[i].name@,
        header_models(headers)[i].value == headers[i].value@,
{
}

} // verus!
