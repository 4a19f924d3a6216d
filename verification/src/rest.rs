use vstd::prelude::*;

use crate::buffer::{buffers_view, ByteBuffer};
use crate::codec::{base64_texts, decode_all, encode_payload_json, payload_encodable, payload_json};

verus! {

/// The REST routes on which the partner uploads a list of buffers.
#[derive(PartialEq, Eq, Structural, Clone, Copy, Debug)]
pub enum RestRoute {
    /// The company's keys, encrypted again and permuted by the partner.
    ECompanyKeys,
    /// The partner's own permuted and encrypted keys.
    UPartnerKeys,
    /// One permuted and encrypted feature column of the partner.
    UPartnerFeature,
}

/// The route that a data name selects; other names have none.
pub open spec fn rest_route_of(name: Seq<char>) -> Option<RestRoute> {
    if name == "e_company_keys"@ {
        Some(RestRoute::ECompanyKeys)
    } else if name == "u_partner_keys"@ {
        Some(RestRoute::UPartnerKeys)
    } else if name == "u_partner_feature"@ {
        Some(RestRoute::UPartnerFeature)
    } else {
        None
    }
}

/// The path of a route below the server's address.
pub open spec fn rest_route_path(route: RestRoute) -> Seq<char> {
    match route {
        RestRoute::ECompanyKeys => "/v1/send_e_company_keys"@,
        RestRoute::UPartnerKeys => "/v1/send_u_partner_keys"@,
        RestRoute::UPartnerFeature => "/v1/send_u_partner_feature"@,
    }
}

/// The route for a data name: `e_company_keys`, `u_partner_keys` or
/// `u_partner_feature`; `None` for any other name.
pub fn rest_route(name: &String) -> (route: Option<RestRoute>)
    ensures
        route == rest_route_of(name@),
{
    if *name == String::from_str("e_company_keys") {
        Some(RestRoute::ECompanyKeys)
    } else if *name == String::from_str("u_partner_keys") {
        Some(RestRoute::UPartnerKeys)
    } else if *name == String::from_str("u_partner_feature") {
        Some(RestRoute::UPartnerFeature)
    } else {
        None
    }
}

/// The full address of an endpoint: the server's address followed by the
/// endpoint's path.
pub fn endpoint_url(host_pre: &String, path: &str) -> (url: String)
    ensures
        url@ == host_pre@ + path@,
{
    let mut url = host_pre.clone();
    url.append(path);
    url
}

/// The address of a route on a server.
pub fn route_url(route: RestRoute, host_pre: &String) -> (url: String)
    ensures
        url@ == host_pre@ + rest_route_path(route),
{
    match route {
        RestRoute::ECompanyKeys => endpoint_url(host_pre, "/v1/send_e_company_keys"),
        RestRoute::UPartnerKeys => endpoint_url(host_pre, "/v1/send_u_partner_keys"),
        RestRoute::UPartnerFeature => endpoint_url(host_pre, "/v1/send_u_partner_feature"),
    }
}

/// An HTTP POST to be made: where, and the JSON text to send.
pub struct RestRequest {
    pub url: String,
    pub body: String,
}

/// The request that uploads `data` under the data name `name`: the route's
/// address on `host_pre` and, as body, the `Payload` message holding the
/// buffers' bytes in order. No request exists for any other name ("wrong
/// api call"); `rest_route` tells a caller beforehand.
pub fn send_rest_api(data: &Vec<ByteBuffer>, name: &String, host_pre: &String) -> (req: RestRequest)
    requires
        rest_route_of(name@) is Some,
        payload_encodable(buffers_view(data@)),
    ensures
        req.url@ == host_pre@ + rest_route_path(rest_route_of(name@).unwrap()),
        req.body@ == payload_json(buffers_view(data@)),
        decode_all(base64_texts(buffers_view(data@))) == Some(buffers_view(data@)),
{
    let route = rest_route(name).unwrap();
    let url = route_url(route, host_pre);
    let payload = crate::buffer::payload_from_buffers(data);
    let body = encode_payload_json(&payload);
    RestRequest { url, body }
}


/// Law: each data name has its own upload route, and the route's path is
/// `/v1/send_` followed by the data name itself; names without a route
/// get none.
pub proof fn lemma_route_path_names_data(name: Seq<char>, other: Seq<char>)
    ensures
        rest_route_of(name) is Some ==> rest_route_path(rest_route_of(name).unwrap()) == "/v1/send_"@ + name,
        (rest_route_of(name) is Some && rest_route_of(other) is Some && name != other)
            ==> rest_route_of(name) != rest_route_of(other),
        rest_route_of(name) is Some <==> (name == "e_company_keys"@ || name == "u_partner_keys"@
            || name == "u_partner_feature"@),
{
    reveal_strlit("/v1/send_");
    reveal_strlit("e_company_keys");
    reveal_strlit("u_partner_keys");
    reveal_strlit("u_partner_feature");
    reveal_strlit("/v1/send_e_company_keys");
    reveal_strlit("/v1/send_u_partner_keys");
    reveal_strlit("/v1/send_u_partner_feature");
    if rest_route_of(name) is Some {
        assert(rest_route_path(rest_route_of(name).unwrap()) =~= "/v1/send_"@ + name);
    }
    if rest_route_of(name) is Some && rest_route_of(other) is Some && name != other {
        assert("e_company_keys"@[0] != "u_partner_keys"@[0]);
        assert("e_company_keys"@ != "u_partner_keys"@);
        assert("e_company_keys"@ != "u_partner_feature"@);
        assert("u_partner_keys"@ != "u_partner_feature"@);
    }
}

} // verus!
