use frog::entities::session::{SessionEntity, SessionId, SessionStatus};
use frog::errors::CoreError;
use frog::server::session::default_session_id;

const DEFAULT: u128 = 0xf8e7_74bd_2f9d_4502_92ca_ac8b_9c25_868e;

#[test]
fn session_id_parses_hyphenated_uuid() {
    let id = SessionId::try_from("f8e774bd-2f9d-4502-92ca-ac8b9c25868e").unwrap();
    assert_eq!(id, SessionId(DEFAULT));
}

#[test]
fn session_id_parses_other_uuid_forms() {
    assert_eq!(
        SessionId::try_from("F8E774BD2F9D450292CAAC8B9C25868E").unwrap(),
        SessionId(DEFAULT)
    );
    assert_eq!(
        SessionId::try_from("{f8e774bd-2f9d-4502-92ca-ac8b9c25868e}").unwrap(),
        SessionId(DEFAULT)
    );
    assert_eq!(
        SessionId::try_from("urn:uuid:f8e774bd-2f9d-4502-92ca-ac8b9c25868e").unwrap(),
        SessionId(DEFAULT)
    );
}

#[test]
fn session_id_refuses_non_uuid() {
    for bad in ["", "not-a-uuid", "f8e774bd-2f9d-4502-92ca-ac8b9c25868", "g8e774bd-2f9d-4502-92ca-ac8b9c25868e"] {
        match SessionId::try_from(bad) {
            Err(CoreError::ParseIdError(message)) => assert!(!message.is_empty(), "{bad}"),
            other => panic!("{bad}: {other:?}"),
        }
    }
}

#[test]
fn session_id_text_is_hyphenated_lowercase() {
    assert_eq!(SessionId(DEFAULT).to_string(), "f8e774bd-2f9d-4502-92ca-ac8b9c25868e");
    assert_eq!(SessionId(0).to_string(), "00000000-0000-0000-0000-000000000000");
    assert_eq!(SessionId(1).to_string(), "00000000-0000-0000-0000-000000000001");
}

#[test]
fn session_id_text_round_trip() {
    for v in [0u128, 1, DEFAULT, u128::MAX] {
        let id = SessionId(v);
        assert_eq!(SessionId::try_from(id.to_string().as_str()).unwrap(), id);
        assert_eq!(id.parse_own_text().unwrap(), id);
    }
}

#[test]
fn default_session_id_value() {
    assert_eq!(default_session_id().unwrap(), SessionId(DEFAULT));
}

#[test]
fn status_names() {
    assert_eq!(SessionStatus::WaitingForClients.to_string(), "WaitingForClients");
    assert_eq!(SessionStatus::WaitingForBootstrap.to_string(), "WaitingForBootstrap");
    assert_eq!(SessionStatus::WaitingForArgument.to_string(), "WaitingForArgument");
    assert_eq!(SessionStatus::Done.to_string(), "Done");
}

#[test]
fn status_parse() {
    assert_eq!(SessionStatus::from_str("Done"), Ok(SessionStatus::Done));
    assert_eq!(SessionStatus::from_str("WaitingForArgument"), Ok(SessionStatus::WaitingForArgument));
    assert_eq!(SessionStatus::from_str("done"), Err("'done' is not a valid status".to_string()));
    assert_eq!(SessionStatus::from_str(""), Err("'' is not a valid status".to_string()));
}

#[test]
fn status_text_round_trip() {
    for s in [
        SessionStatus::WaitingForClients,
        SessionStatus::WaitingForBootstrap,
        SessionStatus::WaitingForArgument,
        SessionStatus::Done,
    ] {
        assert_eq!(SessionStatus::from_str(&s.to_string()), Ok(s));
    }
}

#[test]
fn new_session_waits_for_clients() {
    let s = SessionEntity::new(SessionId(7), vec![9, 9]);
    assert_eq!(s.id, SessionId(7));
    assert_eq!(s.status, SessionStatus::WaitingForClients);
    assert!(s.client_info.is_empty());
    assert!(s.pk.is_empty());
    assert!(s.encrypted_result.is_empty());
    assert_eq!(s.phantom_server, Some(vec![9, 9]));
    let c = s.clone();
    assert_eq!(c.id, s.id);
    assert_eq!(c.phantom_server, s.phantom_server);
}
