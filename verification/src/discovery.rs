//! The endpoints that an instance exposes, read from the root of its actuator.

use crate::exchange::{payload_of, read_payload, Exchange, ExchangeModel};
use crate::json::{entries_wf, field_at, field_has_entry, fields_of, parsed_json, Json, JsonModel};
use crate::model::{endpoint_models, EndpointModel, EndpointView};
use crate::text::{less_is_irreflexive, less_is_transitive, same_text, text_less};
use vstd::prelude::*;

verus! {

/// The address that a link leads to.
pub open spec fn href_of(link: JsonModel) -> Option<Seq<char>> {
    match link.field("href"@) {
        Some(href) => href.text(),
        None => None,
    }
}

/// The address of an endpoint in a document of links; the link of the document to itself is no
/// endpoint.
pub open spec fn exposed_at(document: JsonModel, id: Seq<char>) -> Option<Seq<char>> {
    match document.field("_links"@) {
        Some(JsonModel::Object(links)) => if id != "self"@ && links.contains_key(id) {
            href_of(links[id])
        } else {
            None
        },
        _ => None,
    }
}

/// The list holds each exposed endpoint with its address, and no other, in the order of the
/// names.
pub open spec fn lists_exposed(document: JsonModel, endpoints: Seq<EndpointModel>) -> bool {
    &&& forall|i: int, j: int|
        0 <= i < j < endpoints.len() ==> text_less(
            (#[trigger] endpoints[i]).id,
            (#[trigger] endpoints[j]).id,
        )
    &&& forall|i: int|
        0 <= i < endpoints.len() ==> exposed_at(document, (#[trigger] endpoints[i]).id) == Some(
            endpoints[i].url,
        )
    &&& forall|id: Seq<char>| #[trigger]
        exposed_at(document, id) is Some ==> exists|i: int|
            0 <= i < endpoints.len() && (#[trigger] endpoints[i]).id == id
}

/// The endpoints that a document of links exposes.
pub open spec fn exposed_endpoints(document: JsonModel) -> Seq<EndpointModel> {
    choose|endpoints: Seq<EndpointModel>| lists_exposed(document, endpoints)
}

/// What the root of an actuator said: nothing, where there was no answer.
pub open spec fn discovered_document(exchange: ExchangeModel) -> JsonModel {
    match exchange {
        ExchangeModel::Answered { status, body } => payload_of(body),
        ExchangeModel::Failed { .. } => JsonModel::Null,
    }
}

/// Of two lists of the same endpoints, neither stops before the other.
proof fn lists_agree_up_to(
    document: JsonModel,
    a: Seq<EndpointModel>,
    b: Seq<EndpointModel>,
    n: int,
)
    requires
        lists_exposed(document, a),
        lists_exposed(document, b),
        0 <= n <= a.len(),
    ensures
        n <= b.len(),
        forall|i: int| 0 <= i < n ==> (#[trigger] a[i]) == b[i],
    decreases n,
{
    if n > 0 {
        let last = n - 1;
        lists_agree_up_to(document, a, b, last);
        let id = a[last].id;
        assert(exposed_at(document, id) is Some);
        let k = choose|k: int| 0 <= k < b.len() && (#[trigger] b[k]).id == id;
        less_is_irreflexive(id);
        if k < last {
            assert(a[k] == b[k]);
            assert(text_less(a[k].id, a[last].id));
        }
        assert(k >= last);
        if k > last {
            let other = b[last].id;
            assert(text_less(b[last].id, b[k].id));
            assert(exposed_at(document, other) is Some);
            let m = choose|m: int| 0 <= m < a.len() && (#[trigger] a[m]).id == other;
            less_is_irreflexive(other);
            if m < last {
                assert(a[m] == b[m]);
                assert(text_less(b[m].id, b[last].id));
            } else if m > last {
                assert(text_less(a[last].id, a[m].id));
                less_is_transitive(id, other, id);
            }
        }
        assert(exposed_at(document, a[last].id) == Some(a[last].url));
        assert(exposed_at(document, b[last].id) == Some(b[last].url));
    }
}

/// What a document exposes is listed in one way only.
pub proof fn exposed_list_is_unique(
    document: JsonModel,
    a: Seq<EndpointModel>,
    b: Seq<EndpointModel>,
)
    requires
        lists_exposed(document, a),
        lists_exposed(document, b),
    ensures
        a == b,
{
    lists_agree_up_to(document, a, b, a.len() as int);
    lists_agree_up_to(document, b, a, b.len() as int);
    assert(a =~= b);
}

/// The address of one link, where it is an endpoint.
fn endpoint_address(id: &str, link: &Json) -> (address: Option<String>)
    requires
        link.wf(),
    ensures
        match address {
            Some(address) => id@ != "self"@ && href_of(link@) == Some(address@),
            None => id@ == "self"@ || href_of(link@) is None,
        },
{
    if same_text(id, "self") {
        return None;
    }
    match link.get("href") {
        Some(href) => match href.as_text() {
            Some(text) => Some(text.to_owned()),
            None => None,
        },
        None => None,
    }
}

/// The endpoints that a document of links exposes.
pub fn endpoints_in(document: &Json) -> (endpoints: Vec<EndpointView>)
    requires
        document.wf(),
    ensures
        lists_exposed(document@, endpoint_models(endpoints@)),
        endpoint_models(endpoints@) == exposed_endpoints(document@),
{
    let mut endpoints: Vec<EndpointView> = Vec::new();
    match document.get("_links") {
        Some(Json::Object(links)) => {
            let ghost fields = fields_of(links@);
            assert(document@.field("_links"@) == Some(JsonModel::Object(fields)));
            let mut i: usize = 0;
            while i < links.len()
                invariant
                    i <= links.len(),
                    entries_wf(links@),
                    fields == fields_of(links@),
                    document@.field("_links"@) == Some(JsonModel::Object(fields)),
                    forall|a: int, b: int|
                        0 <= a < b < endpoints.len() ==> text_less(
                            (#[trigger] endpoints@[a]).id@,
                            (#[trigger] endpoints@[b]).id@,
                        ),
                    forall|a: int, b: int|
                        0 <= a < endpoints.len() && i <= b < links.len() ==> text_less(
                            (#[trigger] endpoints@[a]).id@,
                            (#[trigger] links@[b]).0@,
                        ),
                    forall|a: int|
                        0 <= a < endpoints.len() ==> exposed_at(
                            document@,
                            (#[trigger] endpoints@[a]).id@,
                        ) == Some(endpoints@[a].url@),
                    forall|b: int|
                        0 <= b < i && exposed_at(document@, (#[trigger] links@[b]).0@) is Some
                            ==> exists|a: int|
                            0 <= a < endpoints.len() && (#[trigger] endpoints@[a]).id@
                                == links@[b].0@,
                decreases links.len() - i,
            {
                let ghost before = endpoints@;
                proof {
                    field_at(links@, i as int);
                }
                match endpoint_address(links[i].0.as_str(), &links[i].1) {
                    Some(url) => {
                        endpoints.push(EndpointView { id: links[i].0.clone(), url });
                        proof {
                            assert(endpoints@[before.len() as int].id@ == links@[i as int].0@);
                            assert forall|b: int|
                                0 <= b < i + 1 && exposed_at(
                                    document@,
                                    (#[trigger] links@[b]).0@,
                                ) is Some implies exists|a: int|
                                0 <= a < endpoints.len() && (#[trigger] endpoints@[a]).id@
                                    == links@[b].0@ by {
                                if b < i {
                                    let a = choose|a: int|
                                        0 <= a < before.len() && (#[trigger] before[a]).id@
                                            == links@[b].0@;
                                    assert(endpoints@[a] == before[a]);
                                }
                            }
                        }
                    },
                    None => {},
                }
                i = i + 1;
            }
            proof {
                let list = endpoint_models(endpoints@);
                assert forall|id: Seq<char>| #[trigger]
                    exposed_at(document@, id) is Some implies exists|a: int|
                    0 <= a < list.len() && (#[trigger] list[a]).id == id by {
                    let b = field_has_entry(links@, id);
                    assert(exposed_at(document@, links@[b].0@) is Some);
                    let a = choose|a: int|
                        0 <= a < endpoints.len() && (#[trigger] endpoints@[a]).id@
                            == links@[b].0@;
                    assert(list[a].id == id);
                }
            }
        },
        _ => {},
    }
    proof {
        let list = endpoint_models(endpoints@);
        assert forall|i: int, j: int| 0 <= i < j < list.len() implies text_less(
            (#[trigger] list[i]).id,
            (#[trigger] list[j]).id,
        ) by {
            assert(text_less(endpoints@[i].id@, endpoints@[j].id@));
        }
        assert forall|i: int| 0 <= i < list.len() implies exposed_at(
            document@,
            (#[trigger] list[i]).id,
        ) == Some(list[i].url) by {
            assert(exposed_at(document@, endpoints@[i].id@) == Some(endpoints@[i].url@));
        }
        assert(lists_exposed(document@, list));
        exposed_list_is_unique(document@, list, exposed_endpoints(document@));
    }
    endpoints
}

/// The endpoints that a call to the root of an actuator discovers. Without an answer, or with one
/// that is no document of links, there are none; the HTTP status plays no part.
pub fn discover_endpoints(exchange: &Exchange) -> (endpoints: Vec<EndpointView>)
    ensures
        lists_exposed(discovered_document(exchange@), endpoint_models(endpoints@)),
        endpoint_models(endpoints@) == exposed_endpoints(discovered_document(exchange@)),
{
    match exchange {
        Exchange::Answered { status: _, body } => endpoints_in(&read_payload(body)),
        Exchange::Failed { .. } => endpoints_in(&Json::Null),
    }
}

/// No endpoint is discovered where a call failed.
pub proof fn failure_discovers_nothing(
    timed_out: bool,
    not_connected: bool,
    message: Seq<char>,
)
    ensures
        exposed_endpoints(
            discovered_document(ExchangeModel::Failed { timed_out, not_connected, message }),
        ) == Seq::<EndpointModel>::empty(),
{
    let none = Seq::<EndpointModel>::empty();
    assert(lists_exposed(JsonModel::Null, none));
    exposed_list_is_unique(JsonModel::Null, none, exposed_endpoints(JsonModel::Null));
}

/// The endpoints of a document are its links, each under its name with the text under its `href`:
/// all of them but the link of the document to itself and those without such a text. They ascend
/// by their names. A document without links as an object has none.
pub proof fn endpoints_are_the_links(document: JsonModel, endpoints: Seq<EndpointModel>)
    requires
        lists_exposed(document, endpoints),
    ensures
        forall|i: int, j: int|
            0 <= i < j < endpoints.len() ==> text_less(
                (#[trigger] endpoints[i]).id,
                (#[trigger] endpoints[j]).id,
            ),
        !(document matches JsonModel::Object(fields) && fields.contains_key("_links"@)
            && fields["_links"@] is Object) ==> endpoints.len() == 0,
        document matches JsonModel::Object(fields) ==> fields.contains_key("_links"@) ==> (
        fields["_links"@] matches JsonModel::Object(links) ==> {
            &&& forall|i: int|
                0 <= i < endpoints.len() ==> {
                    let id = (#[trigger] endpoints[i]).id;
                    &&& id != "self"@
                    &&& links.contains_key(id)
                    &&& links[id] matches JsonModel::Object(link) && link.contains_key("href"@)
                        && link["href"@] == JsonModel::Text(endpoints[i].url)
                }
            &&& forall|id: Seq<char>| #[trigger]
                links.contains_key(id) && id != "self"@ && (links[id] matches JsonModel::Object(
                    link,
                ) && link.contains_key("href"@) && link["href"@] is Text) ==> exists|i: int|
                    0 <= i < endpoints.len() && (#[trigger] endpoints[i]).id == id
        }),
{
    if endpoints.len() > 0 {
        assert(exposed_at(document, endpoints[0].id) == Some(endpoints[0].url));
    }
    if let JsonModel::Object(fields) = document {
        if fields.contains_key("_links"@) {
            if let JsonModel::Object(links) = fields["_links"@] {
                assert forall|i: int| 0 <= i < endpoints.len() implies {
                    let id = (#[trigger] endpoints[i]).id;
                    &&& id != "self"@
                    &&& links.contains_key(id)
                    &&& links[id] matches JsonModel::Object(link) && link.contains_key("href"@)
                        && link["href"@] == JsonModel::Text(endpoints[i].url)
                } by {
                    assert(exposed_at(document, endpoints[i].id) == Some(endpoints[i].url));
                }
                assert forall|id: Seq<char>| #[trigger]
                    links.contains_key(id) && id != "self"@ && (links[id] matches JsonModel::Object(
                        link,
                    ) && link.contains_key("href"@)
                        && link["href"@] is Text) implies exists|i: int|
                    0 <= i < endpoints.len() && (#[trigger] endpoints[i]).id == id by {
                    assert(exposed_at(document, id) is Some);
                }
            }
        }
    }
}

/// The document of links is what the answer says as JSON, whatever its HTTP status is. It is null
/// where the call failed, the body could not be read, or the body is no JSON.
pub proof fn document_is_the_answer(exchange: ExchangeModel)
    ensures
        exchange matches ExchangeModel::Answered { status, body } ==> body is Some && parsed_json(
            body->0,
        ) is Some ==> discovered_document(exchange) == parsed_json(body->0)->0,
        exchange matches ExchangeModel::Answered { status, body } ==> body is None || parsed_json(
            body->0,
        ) is None ==> discovered_document(exchange) == JsonModel::Null,
        exchange is Failed ==> discovered_document(exchange) == JsonModel::Null,
{
}

} // verus!
