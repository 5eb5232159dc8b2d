use frog::entities::client::{ClientEntity, ClientId};
use frog::entities::session::{SessionEntity, SessionId, SessionStatus};
use frog::server::errors::AppError;
use frog::server::session::{finish_join, join, record_bs_key_share, record_data, JoinStep};

fn session() -> SessionEntity {
    SessionEntity::new(SessionId(1), vec![0xaa])
}

fn client(id: usize) -> ClientEntity {
    ClientEntity::new(ClientId(id), vec![id as u8, 1], vec![id as u8, 2])
}

fn two_joined() -> SessionEntity {
    let mut s = session();
    assert!(matches!(join(&mut s, 2, client(1)), Ok(JoinStep::Stored)));
    assert!(matches!(join(&mut s, 2, client(2)), Ok(JoinStep::AggregateKeys { .. })));
    finish_join(&mut s, vec![7, 7], vec![0xbb]);
    s
}

#[test]
fn first_client_is_stored() {
    let mut s = session();
    assert!(matches!(join(&mut s, 2, client(1)), Ok(JoinStep::Stored)));
    assert_eq!(s.client_info.len(), 1);
    assert_eq!(s.client_info[&1].pk_share, vec![1, 1]);
    assert_eq!(s.status, SessionStatus::WaitingForClients);
}

#[test]
fn last_client_hands_out_every_key_share() {
    let mut s = session();
    join(&mut s, 2, client(1)).unwrap();
    match join(&mut s, 2, client(2)).unwrap() {
        JoinStep::AggregateKeys { pk_shares, rp_key_shares } => {
            assert_eq!(pk_shares.len(), 2);
            assert_eq!(rp_key_shares.len(), 2);
            for (pk, rp) in pk_shares.iter().zip(rp_key_shares.iter()) {
                assert_eq!(pk[0], rp[0]);
                assert_eq!(pk[1], 1);
                assert_eq!(rp[1], 2);
            }
            let mut owners: Vec<u8> = pk_shares.iter().map(|p| p[0]).collect();
            owners.sort();
            assert_eq!(owners, vec![1, 2]);
        }
        JoinStep::Stored => panic!("expected aggregation"),
    }
    assert_eq!(s.status, SessionStatus::WaitingForClients);
}

#[test]
fn finishing_the_join_waits_for_bootstrap() {
    let s = two_joined();
    assert_eq!(s.status, SessionStatus::WaitingForBootstrap);
    assert_eq!(s.pk, vec![7, 7]);
    assert_eq!(s.phantom_server, Some(vec![0xbb]));
    assert_eq!(s.client_info.len(), 2);
}

#[test]
fn full_session_refuses_a_client() {
    let mut s = two_joined();
    match join(&mut s, 2, client(3)) {
        Err(AppError::SessionError(m)) => assert_eq!(m, "Number of clients exceeded the limit: 2"),
        other => panic!("{other:?}", other = other.is_ok()),
    }
    assert_eq!(s.client_info.len(), 2);
    assert!(!s.client_info.contains_key(&3));
    assert_eq!(s.status, SessionStatus::WaitingForBootstrap);
}

#[test]
fn session_without_server_refuses_a_client() {
    let mut s = session();
    s.phantom_server = None;
    match join(&mut s, 2, client(1)) {
        Err(AppError::UnexpectedError(m)) => assert_eq!(m, "Phantom server not initialized"),
        _ => panic!("expected an unexpected error"),
    }
    assert!(s.client_info.is_empty());
}

#[test]
fn rejoining_replaces_the_client() {
    let mut s = session();
    join(&mut s, 3, client(1)).unwrap();
    let again = ClientEntity::new(ClientId(1), vec![9], vec![9]);
    assert!(matches!(join(&mut s, 3, again), Ok(JoinStep::Stored)));
    assert_eq!(s.client_info.len(), 1);
    assert_eq!(s.client_info[&1].pk_share, vec![9]);
}

#[test]
fn unknown_client_cannot_bootstrap() {
    let mut s = two_joined();
    match record_bs_key_share(&mut s, 2, ClientId(9), vec![1]) {
        Err(AppError::SessionError(m)) => assert_eq!(m, "Client not found: 9"),
        _ => panic!("expected a session error"),
    }
    assert!(s.client_info.values().all(|c| c.bs_key_share.is_empty()));
}

#[test]
fn aggregation_starts_when_every_share_is_in() {
    let mut s = two_joined();
    assert_eq!(record_bs_key_share(&mut s, 2, ClientId(1), vec![5]).unwrap(), false);
    assert_eq!(s.client_info[&1].bs_key_share, vec![5]);
    // An empty share does not count.
    assert_eq!(record_bs_key_share(&mut s, 2, ClientId(2), vec![]).unwrap(), false);
    assert_eq!(record_bs_key_share(&mut s, 2, ClientId(2), vec![6]).unwrap(), true);
    // Sending the same share again changes nothing and still reports all shares in.
    assert_eq!(record_bs_key_share(&mut s, 2, ClientId(2), vec![6]).unwrap(), true);
    assert_eq!(s.client_info[&2].bs_key_share, vec![6]);
    assert_eq!(s.status, SessionStatus::WaitingForBootstrap);
}

#[test]
fn computation_starts_when_every_input_is_in() {
    let mut s = two_joined();
    match record_data(&mut s, 2, ClientId(4), vec![1]) {
        Err(AppError::SessionError(m)) => assert_eq!(m, "Client not found: 4"),
        _ => panic!("expected a session error"),
    }
    assert_eq!(record_data(&mut s, 2, ClientId(2), vec![8, 8]).unwrap(), false);
    assert_eq!(record_data(&mut s, 2, ClientId(1), vec![9]).unwrap(), true);
    assert_eq!(s.client_info[&1].encrypted_data, vec![9]);
    assert_eq!(s.client_info[&2].encrypted_data, vec![8, 8]);
}

#[test]
fn session_waits_for_clients_exactly_while_not_full() {
    let mut s = session();
    for id in 1..=3 {
        assert_eq!(s.status, SessionStatus::WaitingForClients);
        match join(&mut s, 3, client(id)).unwrap() {
            JoinStep::Stored => assert!(s.client_info.len() < 3),
            JoinStep::AggregateKeys { .. } => {
                assert_eq!(s.client_info.len(), 3);
                finish_join(&mut s, vec![1], vec![2]);
            }
        }
    }
    assert_eq!(s.status, SessionStatus::WaitingForBootstrap);
    assert!(join(&mut s, 3, client(4)).is_err());
    assert!(s.client_info.len() <= 3);
}
