use snake_server::codec::{decode_client_packet, encode_client_packet, encode_event, encode_server_packet};
use snake_server::color::Rgb;
use snake_server::errors::DecodeError;
use snake_server::events::GameEvent;
use snake_server::geom::Pos;
use snake_server::leaderboard::LeaderboardEntry;
use snake_server::snake::Snake;
use snake_server::types::{ClientMessage, ServerMessage, WsClientPacket, WsServerPacket};

fn roundtrip(message: ClientMessage) -> ClientMessage {
    let bytes = encode_client_packet(&WsClientPacket { message });
    decode_client_packet(&bytes).expect("well-formed encoding must decode").message
}

#[test]
fn client_join_none_roundtrip() {
    match roundtrip(ClientMessage::JoinGame { name: None }) {
        ClientMessage::JoinGame { name } => assert_eq!(name, None),
        _ => panic!("wrong variant"),
    }
}

#[test]
fn client_join_named_roundtrip() {
    match roundtrip(ClientMessage::JoinGame { name: Some(String::from("Ann")) }) {
        ClientMessage::JoinGame { name } => assert_eq!(name.as_deref(), Some("Ann")),
        _ => panic!("wrong variant"),
    }
}

#[test]
fn client_move_roundtrip_with_negative_components() {
    match roundtrip(ClientMessage::MoveSnake { dir_x: -707, dir_y: 707 }) {
        ClientMessage::MoveSnake { dir_x, dir_y } => {
            assert_eq!(dir_x, -707);
            assert_eq!(dir_y, 707);
        }
        _ => panic!("wrong variant"),
    }
}

#[test]
fn client_unit_messages_roundtrip() {
    assert!(matches!(roundtrip(ClientMessage::LeaveGame), ClientMessage::LeaveGame));
    assert!(matches!(roundtrip(ClientMessage::Pong), ClientMessage::Pong));
    assert!(matches!(roundtrip(ClientMessage::FoodEat), ClientMessage::FoodEat));
}

#[test]
fn decode_rejects_empty_input() {
    assert_eq!(decode_client_packet(&Vec::new()).err(), Some(DecodeError::Truncated));
}

#[test]
fn decode_rejects_unknown_tag() {
    assert_eq!(decode_client_packet(&vec![99u8]).err(), Some(DecodeError::UnknownTag(99)));
}

#[test]
fn decode_rejects_trailing_garbage() {
    // LeaveGame is a single tag byte; anything after it is malformed.
    assert_eq!(decode_client_packet(&vec![1u8, 0u8]).err(), Some(DecodeError::BadPayload));
}

#[test]
fn decode_rejects_non_ascii_name() {
    // JoinGame, named, length 1, but the name byte is outside ASCII.
    assert_eq!(
        decode_client_packet(&vec![0u8, 1u8, 1u8, 200u8]).err(),
        Some(DecodeError::BadPayload)
    );
}

#[test]
fn decode_rejects_truncated_heading() {
    assert_eq!(decode_client_packet(&vec![2u8, 1, 2, 3]).err(), Some(DecodeError::Truncated));
}

#[test]
fn decode_rejects_bad_join_flag() {
    assert_eq!(decode_client_packet(&vec![0u8, 7u8]).err(), Some(DecodeError::BadPayload));
}

#[test]
fn server_player_left_layout() {
    let bytes = encode_server_packet(&WsServerPacket {
        message: ServerMessage::PlayerLeft { id: 0x0102 },
    });
    assert_eq!(bytes.len(), 17);
    assert_eq!(bytes[0], 2);
    assert_eq!(bytes[1], 0x02);
    assert_eq!(bytes[2], 0x01);
    assert!(bytes[3..].iter().all(|b| *b == 0));
}

#[test]
fn server_snake_record_encodes() {
    let s = Snake::new(5, String::from("Ann"), Rgb(1, 2, 3), false, Pos { x: 10, y: 20 });
    let bytes = encode_server_packet(&WsServerPacket {
        message: ServerMessage::PlayerInit { snake: s },
    });
    assert_eq!(bytes[0], 0);
    // id (16) then the name length prefix and its three characters.
    assert_eq!(bytes[1], 5);
    assert_eq!(bytes[17], 3);
    assert_eq!(&bytes[18..21], b"Ann");
}

#[test]
fn event_encoding_succeeds_for_world_events() {
    let snake = Snake::new(9, String::from("bob"), Rgb(9, 9, 9), false, Pos { x: 1, y: 2 });
    let moved = GameEvent::SnakeMoved { snake };
    let bytes = encode_event(&moved).expect("a well-formed snake encodes");
    assert_eq!(bytes[0], 4);
    let lb = GameEvent::LeaderboardChanged {
        entries: vec![LeaderboardEntry { id: 9, name: String::from("bob"), score: 3 }],
    };
    let bytes = encode_event(&lb).expect("a well-formed board encodes");
    assert_eq!(bytes[0], 7);
    let eaten = GameEvent::FoodEaten { position: Pos { x: 5, y: 5 } };
    let bytes = encode_event(&eaten).expect("a position encodes");
    assert_eq!(bytes[0], 10);
}

#[test]
fn event_encoding_refuses_uncarryable_name() {
    let snake = Snake::new(
        9,
        String::from("snake\u{00e9}"),
        Rgb(9, 9, 9),
        false,
        Pos { x: 1, y: 2 },
    );
    let moved = GameEvent::SnakeMoved { snake };
    assert!(encode_event(&moved).is_none());
}
