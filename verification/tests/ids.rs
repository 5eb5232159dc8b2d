use frog::entities::client::{ClientEntity, ClientId, IdError};
use frog::entities::game::{GameEntity, GameId};
use frog::entities::game_player::{GamePlayerEntity, GamePlayerId};
use frog::entities::player::{PlayerEntity, PlayerId};
use frog::server::game::default_game;

#[test]
fn client_id_parses_decimal_text() {
    assert_eq!(ClientId::from_str("42"), Ok(ClientId(42)));
    assert_eq!(ClientId::from_str("0"), Ok(ClientId(0)));
    assert_eq!(ClientId::from_str("007"), Ok(ClientId(7)));
    assert_eq!(ClientId::from_str("+7"), Ok(ClientId(7)));
}

#[test]
fn client_id_refuses_empty_text() {
    assert_eq!(ClientId::from_str(""), Err(IdError::NoIdProvided));
    assert_eq!(IdError::NoIdProvided.message(), "No id provided");
}

#[test]
fn client_id_refuses_non_numbers() {
    for bad in ["abc", "-1", "+", "1 2", " 1", "1x", "١"] {
        assert_eq!(ClientId::from_str(bad), Err(IdError::InvalidNumericId), "{bad}");
    }
    assert_eq!(IdError::InvalidNumericId.message(), "Invalid numeric ID");
}

#[test]
fn client_id_refuses_overflow() {
    let too_big = format!("{}0", usize::MAX);
    assert_eq!(ClientId::from_str(&too_big), Err(IdError::InvalidNumericId));
    let max = format!("{}", usize::MAX);
    assert_eq!(ClientId::from_str(&max), Ok(ClientId(usize::MAX)));
}

#[test]
fn client_id_parse_agrees_with_std() {
    for text in ["1", "99", "+5", "-5", "", "x", "18446744073709551616", "4294967296"] {
        let ours = ClientId::from_str(text).ok().map(|c| c.0);
        let std = if text.is_empty() { None } else { text.parse::<usize>().ok() };
        assert_eq!(ours, std, "{text}");
    }
}

#[test]
fn client_id_text() {
    assert_eq!(ClientId(0).to_string(), "0");
    assert_eq!(ClientId(1234).to_string(), "1234");
    assert_eq!(ClientId(usize::MAX).to_string(), format!("{}", usize::MAX));
}

#[test]
fn client_id_text_round_trip() {
    for n in [0usize, 9, 10, 99, 100, 65535, usize::MAX] {
        assert_eq!(ClientId::from_str(&ClientId(n).to_string()), Ok(ClientId(n)));
    }
}

#[test]
fn new_client_has_no_bootstrap_share_nor_data() {
    let c = ClientEntity::new(ClientId(3), vec![1, 2], vec![3]);
    assert_eq!(c.id, ClientId(3));
    assert_eq!(c.pk_share, vec![1, 2]);
    assert_eq!(c.rp_key_share, vec![3]);
    assert!(c.bs_key_share.is_empty());
    assert!(c.encrypted_data.is_empty());
    let d = c.clone();
    assert_eq!(d.pk_share, c.pk_share);
    assert_eq!(d.id, c.id);
}

#[test]
fn textual_ids_refuse_empty_text() {
    assert_eq!(PlayerId::from_str(""), Err(IdError::NoIdProvided));
    assert_eq!(GamePlayerId::from_str(""), Err(IdError::NoIdProvided));
    assert_eq!(GameId::try_from(""), Err(IdError::NoIdProvided));
}

#[test]
fn textual_ids_keep_their_text() {
    assert_eq!(PlayerId::from_str("alice"), Ok(PlayerId("alice".to_string())));
    assert_eq!(GamePlayerId::from_str("p1"), Ok(GamePlayerId("p1".to_string())));
    assert_eq!(GameId::try_from("aas"), Ok(GameId("aas".to_string())));
    assert_eq!(PlayerId("bob".to_string()).to_string(), "bob");
    assert_eq!(GamePlayerId("x y".to_string()).to_string(), "x y");
    assert_eq!(GameId("g".to_string()).to_string(), "g");
}

#[test]
fn entities_hold_their_ids() {
    assert_eq!(PlayerEntity::new(PlayerId("a".to_string())).id, PlayerId("a".to_string()));
    assert_eq!(GamePlayerEntity::new(GamePlayerId("b".to_string())).id, GamePlayerId("b".to_string()));
    let game = GameEntity::new(GameId("c".to_string()));
    assert_eq!(game.id, GameId("c".to_string()));
    assert!(game.game_data.is_empty());
}

#[test]
fn default_game_is_aas() {
    let game = default_game();
    assert_eq!(game.id, GameId("aas".to_string()));
    assert!(game.game_data.is_empty());
}
