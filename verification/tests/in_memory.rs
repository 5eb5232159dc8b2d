use frog::entities::session::{SessionEntity, SessionId, SessionStatus};
use frog::errors::CoreError;
use frog::in_memory::InMemoryState;

#[test]
fn read_after_create() {
    let mut store = InMemoryState::new();
    assert_eq!(store.create(SessionEntity::new(SessionId(1), vec![1])), SessionId(1));
    let got = store.get(SessionId(1)).unwrap();
    assert_eq!(got.id, SessionId(1));
    assert_eq!(got.phantom_server, Some(vec![1]));
    assert!(matches!(store.get(SessionId(2)), Err(CoreError::NotFound)));
}

#[test]
fn create_replaces_a_session_of_the_same_id() {
    let mut store = InMemoryState::new();
    store.create(SessionEntity::new(SessionId(1), vec![1]));
    store.create(SessionEntity::new(SessionId(1), vec![2]));
    assert_eq!(store.sessions.len(), 1);
    assert_eq!(store.get(SessionId(1)).unwrap().phantom_server, Some(vec![2]));
}

#[test]
fn update_forces_the_id() {
    let mut store = InMemoryState::new();
    store.create(SessionEntity::new(SessionId(1), vec![1]));
    let mut changed = SessionEntity::new(SessionId(99), vec![3]);
    changed.status = SessionStatus::Done;
    assert_eq!(store.update(SessionId(1), changed).unwrap(), SessionId(1));
    let got = store.get(SessionId(1)).unwrap();
    assert_eq!(got.id, SessionId(1));
    assert_eq!(got.status, SessionStatus::Done);
    assert!(matches!(store.get(SessionId(99)), Err(CoreError::NotFound)));
}

#[test]
fn update_of_missing_session_is_refused() {
    let mut store = InMemoryState::new();
    assert!(matches!(store.update(SessionId(4), SessionEntity::new(SessionId(4), vec![])), Err(CoreError::NotFound)));
    assert!(store.sessions.is_empty());
}

#[test]
fn delete_then_read_is_not_found() {
    let mut store = InMemoryState::new();
    store.create(SessionEntity::new(SessionId(1), vec![1]));
    store.create(SessionEntity::new(SessionId(2), vec![2]));
    assert!(store.delete(SessionId(1)).is_ok());
    assert!(matches!(store.get(SessionId(1)), Err(CoreError::NotFound)));
    assert!(matches!(store.delete(SessionId(1)), Err(CoreError::NotFound)));
    assert_eq!(store.get(SessionId(2)).unwrap().phantom_server, Some(vec![2]));
}

#[test]
fn delete_undoes_create() {
    let mut store = InMemoryState::new();
    store.create(SessionEntity::new(SessionId(1), vec![1]));
    store.create(SessionEntity::new(SessionId(2), vec![2]));
    assert!(store.delete(SessionId(2)).is_ok());
    assert_eq!(store.sessions.len(), 1);
    assert_eq!(store.get(SessionId(1)).unwrap().phantom_server, Some(vec![1]));
}

#[test]
fn create_keeps_other_sessions() {
    let mut store = InMemoryState::new();
    store.create(SessionEntity::new(SessionId(1), vec![1]));
    store.create(SessionEntity::new(SessionId(2), vec![2]));
    assert_eq!(store.get(SessionId(1)).unwrap().phantom_server, Some(vec![1]));
    assert_eq!(store.get(SessionId(2)).unwrap().phantom_server, Some(vec![2]));
}

#[test]
fn reads_follow_interleaved_operations() {
    let mut store = InMemoryState::new();
    store.create(SessionEntity::new(SessionId(1), vec![1]));
    store.create(SessionEntity::new(SessionId(2), vec![2]));
    store.update(SessionId(2), SessionEntity::new(SessionId(2), vec![3])).unwrap();
    assert!(matches!(store.update(SessionId(3), SessionEntity::new(SessionId(3), vec![4])), Err(CoreError::NotFound)));
    store.delete(SessionId(2)).unwrap();
    store.create(SessionEntity::new(SessionId(4), vec![5]));
    assert!(matches!(store.delete(SessionId(5)), Err(CoreError::NotFound)));
    let one = store.get(SessionId(1)).unwrap();
    assert_eq!(one.id, SessionId(1));
    assert_eq!(one.phantom_server, Some(vec![1]));
    assert_eq!(one.status, SessionStatus::WaitingForClients);
    assert!(matches!(store.get(SessionId(2)), Err(CoreError::NotFound)));
    assert!(matches!(store.get(SessionId(3)), Err(CoreError::NotFound)));
    assert_eq!(store.get(SessionId(4)).unwrap().phantom_server, Some(vec![5]));
}
