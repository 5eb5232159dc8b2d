use std::collections::HashMap;
use std::sync::Arc;

use frog::entities::game::GameId;
use frog::entities::game_player::{GamePlayerEntity, GamePlayerId};
use frog::entities::session::{SessionEntity, SessionId};
use frog::errors::CoreError;
use frog::server::game_player::{GamePlayerPort, GamePlayerService};
use frog::storage::{map_diesel_error, validate_update};
use frog::workers::{
    bs_key_shares_job, compute_function_job, dummy_job, BS_KEY_SHARES_AGGREGATOR_WORKER_IDENTIFIER,
    COMPUTE_FUNCTION_WORKER_IDENTIFIER, DUMMY_WORKER_IDENTIFIER,
};

#[test]
fn update_must_carry_the_stored_id() {
    let s = SessionEntity::new(SessionId(3), vec![]);
    assert!(validate_update(SessionId(3), &s).is_ok());
    match validate_update(SessionId(4), &s) {
        Err(CoreError::ValidationFail(m)) => assert_eq!(m, "Session ID mismatch"),
        other => panic!("{other:?}"),
    }
}

#[test]
fn database_errors() {
    assert!(matches!(map_diesel_error(true, "gone".into()), CoreError::NotFound));
    match map_diesel_error(false, "broken".into()) {
        CoreError::InternalError(m) => assert_eq!(m, "broken"),
        other => panic!("{other:?}"),
    }
}

#[test]
fn job_identifiers() {
    assert_eq!(DUMMY_WORKER_IDENTIFIER, "dummy");
    assert_eq!(BS_KEY_SHARES_AGGREGATOR_WORKER_IDENTIFIER, "bs_key_shares");
    assert_eq!(COMPUTE_FUNCTION_WORKER_IDENTIFIER, "compute_function");
}

#[test]
fn jobs_carry_their_data() {
    let mut tracing = HashMap::new();
    tracing.insert("traceparent".to_string(), "00-1".to_string());
    let (id, payload) = bs_key_shares_job(SessionId(8), tracing.clone());
    assert_eq!(id, "bs_key_shares");
    assert_eq!(payload.data, SessionId(8));
    assert_eq!(payload.tracing, tracing);
    let (id, payload) = compute_function_job(SessionId(9), HashMap::new());
    assert_eq!(id, "compute_function");
    assert_eq!(payload.data, SessionId(9));
    assert!(payload.tracing.is_empty());
    let (id, payload) = dummy_job("abc".to_string(), HashMap::new());
    assert_eq!(id, "dummy");
    assert_eq!(payload.data.internal_id, "abc");
}

struct Recorder;

impl GamePlayerPort for Recorder {
    fn update(&self, game_id: GameId, game_player_id: GamePlayerId, _entity: GamePlayerEntity) -> Result<String, CoreError> {
        Ok(format!("{}/{}", game_id.0, game_player_id.0))
    }
}

#[test]
fn game_player_service_keeps_its_store() {
    let port: Arc<dyn GamePlayerPort> = Arc::new(Recorder);
    let service = GamePlayerService::new(port.clone());
    assert!(Arc::ptr_eq(&service.game_player, &port));
    let answer = service
        .game_player
        .update(
            GameId("g".into()),
            GamePlayerId("p".into()),
            GamePlayerEntity::new(GamePlayerId("p".into())),
        )
        .unwrap();
    assert_eq!(answer, "g/p");
}
