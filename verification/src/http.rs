//! The requests that nodes send each other over HTTP: their paths, and how an
//! answer is read.
use crate::decimal::decimal_text;
use crate::entities::client::ClientId;
use crate::entities::session::{uuid_text, SessionId};
use crate::errors::CoreError;
use vstd::prelude::*;

verus! {

broadcast use vstd::string::group_string_axioms;

/// The address of a session on the coordinating server.
pub open spec fn session_url_text(endpoint: Seq<char>, session_id: u128) -> Seq<char> {
    endpoint + "/v1/sessions/"@ + uuid_text(session_id)
}

/// The address of a client of a session on the coordinating server.
pub open spec fn client_url_text(endpoint: Seq<char>, session_id: u128, client_id: usize) -> Seq<char> {
    session_url_text(endpoint, session_id) + "/clients/"@ + decimal_text(client_id as nat)
}

/// The address of a session on the coordinating server.
pub fn session_url(endpoint: &str, session_id: SessionId) -> (r: String)
    ensures
        r@ == session_url_text(endpoint@, session_id.0),
{
    let mut s = String::from_str(endpoint);
    s.append("/v1/sessions/");
    let id = session_id.to_string();
    s.append(id.as_str());
    s
}

fn client_url(endpoint: &str, session_id: SessionId, client_id: ClientId) -> (r: String)
    ensures
        r@ == client_url_text(endpoint@, session_id.0, client_id.0),
{
    let mut s = session_url(endpoint, session_id);
    s.append("/clients/");
    let id = client_id.to_string();
    s.append(id.as_str());
    s
}

/// Where a client sends its bootstrapping key share.
pub fn bootstrap_url(endpoint: &str, session_id: SessionId, client_id: ClientId) -> (r: String)
    ensures
        r@ == client_url_text(endpoint@, session_id.0, client_id.0) + "/bootstrap"@,
{
    let mut s = client_url(endpoint, session_id, client_id);
    s.append("/bootstrap");
    s
}

/// Where a client sends its encrypted input.
pub fn data_url(endpoint: &str, session_id: SessionId, client_id: ClientId) -> (r: String)
    ensures
        r@ == client_url_text(endpoint@, session_id.0, client_id.0) + "/data"@,
{
    let mut s = client_url(endpoint, session_id, client_id);
    s.append("/data");
    s
}

/// Where a peer serves its decryption share.
pub fn dec_share_url(peer_endpoint: &str) -> (r: String)
    ensures
        r@ == peer_endpoint@ + "/decrypt_share"@,
{
    let mut s = String::from_str(peer_endpoint);
    s.append("/decrypt_share");
    s
}

/// Reads an answer of the coordinating server: a status other than 200 is an
/// `UnexpectedResponse` carrying the body, otherwise the body is the answer.
pub fn handle_response(status: u16, body: String) -> (r: Result<String, CoreError>)
    ensures
        status == 200 ==> (r matches Ok(b) && b@ == body@),
        status != 200 ==> (r matches Err(CoreError::UnexpectedResponse(b)) && b@ == body@),
{
    if status != 200 {
        return Err(CoreError::UnexpectedResponse(body));
    }
    Ok(body)
}

} // verus!
