//! The HTTP side of the query service: which replies the routes give.
use vstd::prelude::*;

verus! {

/// The error that serde_json reports when a value cannot be encoded.
#[verifier::external_type_specification]
#[verifier::external_body]
pub struct ExJsonError(serde_json::Error);

/// A reply to an HTTP request: status code, content type and body.
#[derive(Debug)]
pub struct HttpReply {
    pub status: u16,
    pub content_type: Option<String>,
    pub body: Vec<u8>,
}

pub open spec fn json_content_type() -> Seq<char> {
    "application/json; charset=utf-8"@
}

pub open spec fn html_content_type() -> Seq<char> {
    "text/html; charset=utf-8"@
}

/// The path that the query route listens on, as the console page names it.
pub open spec fn query_path() -> Seq<char> {
    "/query"@
}

/// The interactive console page that juniper writes for a query endpoint.
pub uninterp spec fn graphiql_page(endpoint: Seq<char>) -> Seq<char>;

/// Whether a request body decodes as a query request: a JSON object with the
/// operation text under `query`, and optionally `operationName` and
/// `variables`.
pub uninterp spec fn is_request_envelope(body: Seq<u8>) -> bool;

/// Relies on juniper's `graphiql::graphiql_source`, which formats its page
/// from the endpoint's address alone.
#[verifier::external_body]
fn graphiql_source(endpoint: &str) -> (r: String)
    ensures
        r@ == graphiql_page(endpoint@),
{
    juniper::http::graphiql::graphiql_source(endpoint)
}

/// Relies on serde_json's `from_slice` into juniper's `GraphQLRequest`:
/// whether the bytes decode depends on the bytes alone.
#[verifier::external_body]
fn decodes_as_request(body: &[u8]) -> (r: bool)
    ensures
        r == is_request_envelope(body@),
{
    serde_json::from_slice::<juniper::http::GraphQLRequest>(body).is_ok()
}

/// The reply to a query request, given the encoded execution result: 200
/// with the JSON body where it was encoded, whatever field errors it holds;
/// 500 with an empty body where encoding failed.
pub fn build_response(response: Result<Vec<u8>, serde_json::Error>) -> (r: HttpReply)
    ensures
        match response {
            Ok(body) => r.status == 200 && r.content_type is Some && r.content_type->Some_0@
                == json_content_type() && r.body@ == body@,
            Err(_) => r.status == 500 && r.content_type is None && r.body@.len() == 0,
        },
{
    match response {
        Ok(body) => HttpReply {
            status: 200,
            content_type: Some(String::from_str("application/json; charset=utf-8")),
            body,
        },
        Err(_) => HttpReply { status: 500, content_type: None, body: Vec::new() },
    }
}

/// The reply to a query request whose body is not a query request: 400 with
/// an empty body. `None` where the body is one and may be executed.
pub fn envelope_reply(body: &[u8]) -> (r: Option<HttpReply>)
    ensures
        r is None <==> is_request_envelope(body@),
        r is Some ==> r->Some_0.status == 400 && r->Some_0.content_type is None
            && r->Some_0.body@.len() == 0,
{
    if decodes_as_request(body) {
        None
    } else {
        Some(HttpReply { status: 400, content_type: None, body: Vec::new() })
    }
}

/// The console page: always 200, HTML, the page that points at the query
/// route.
pub fn web_index() -> (r: HttpReply)
    ensures
        r.status == 200,
        r.content_type is Some,
        r.content_type->Some_0@ == html_content_type(),
        r.body@ == vstd::utf8::encode_utf8(graphiql_page(query_path())),
{
    let page = graphiql_source("/query");
    HttpReply {
        status: 200,
        content_type: Some(String::from_str("text/html; charset=utf-8")),
        body: page.as_str().as_bytes_vec(),
    }
}

} // verus!
