use frog::entities::client::ClientId;
use frog::entities::session::SessionId;
use frog::errors::CoreError;
use frog::http::{bootstrap_url, data_url, dec_share_url, handle_response, session_url};

const SID: u128 = 0xf8e7_74bd_2f9d_4502_92ca_ac8b_9c25_868e;

#[test]
fn request_addresses() {
    assert_eq!(
        session_url("http://s:1", SessionId(SID)),
        "http://s:1/v1/sessions/f8e774bd-2f9d-4502-92ca-ac8b9c25868e"
    );
    assert_eq!(
        bootstrap_url("http://s:1", SessionId(SID), ClientId(3)),
        "http://s:1/v1/sessions/f8e774bd-2f9d-4502-92ca-ac8b9c25868e/clients/3/bootstrap"
    );
    assert_eq!(
        data_url("http://s:1", SessionId(SID), ClientId(12)),
        "http://s:1/v1/sessions/f8e774bd-2f9d-4502-92ca-ac8b9c25868e/clients/12/data"
    );
    assert_eq!(dec_share_url("http://peer"), "http://peer/decrypt_share");
}

#[test]
fn answers_other_than_ok_are_unexpected() {
    assert_eq!(handle_response(200, "body".into()).unwrap(), "body");
    match handle_response(500, "boom".into()) {
        Err(CoreError::UnexpectedResponse(b)) => assert_eq!(b, "boom"),
        other => panic!("{other:?}"),
    }
    assert!(handle_response(201, String::new()).is_err());
}
