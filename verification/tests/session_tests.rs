use snake_server::clients::ClientList;
use snake_server::codec::encode_client_packet;
use snake_server::constants::DEFAULT_LENGTH;
use snake_server::session::{ConnState, Session};
use snake_server::types::{ClientMessage, ServerMessage, WsClientPacket, WsServerPacket};
use snake_server::world::GameWorld;
use snake_server::leaderboard::Leaderboard;

fn empty_world() -> GameWorld {
    GameWorld {
        snakes: Vec::new(),
        foods: Vec::new(),
        width: snake_server::constants::WORLD_WIDTH_MILLI,
        height: snake_server::constants::WORLD_HEIGHT_MILLI,
        total_snakes: 0,
        total_food: 0,
        leaderboard: Leaderboard::new(),
    }
}

fn frame(message: ClientMessage) -> Vec<u8> {
    encode_client_packet(&WsClientPacket { message })
}

#[test]
fn join_scenario_sends_init_and_broadcast() {
    // A joining client named Ann gets PlayerInit with a default-length,
    // zero-score snake; every other connection gets PlayerJoined with the
    // same snake.
    let mut world = empty_world();
    let mut clients = ClientList::new();
    let mut ann = Session::new(1);
    let mut other = Session::new(2);
    ann.on_open(&mut clients);
    other.on_open(&mut clients);
    let join = frame(ClientMessage::JoinGame { name: Some(String::from("Ann")) });
    ann.handle_frame(&mut world, &mut clients, &join);

    assert_eq!(ann.state, ConnState::Joined);
    let pid = ann.player_id.expect("joined session knows its id");
    assert_eq!(world.snakes.len(), 1);
    let snake = &world.snakes[0];
    assert_eq!(snake.id, pid);
    assert_eq!(snake.name, "Ann");
    assert_eq!(snake.length, DEFAULT_LENGTH);
    assert_eq!(snake.score, 0);

    // Ann's queue: PlayerInit (tag 0) then PlayerJoined (tag 1); the other
    // connection's queue: the same PlayerJoined frame only.
    let ann_frames = clients.drain(1);
    let other_frames = clients.drain(2);
    assert_eq!(ann_frames.len(), 2);
    assert_eq!(other_frames.len(), 1);
    assert_eq!(ann_frames[0][0], 0);
    assert_eq!(ann_frames[1][0], 1);
    assert_eq!(ann_frames[1], other_frames[0]);
}

#[test]
fn join_is_only_accepted_while_awaiting() {
    let mut world = empty_world();
    let mut clients = ClientList::new();
    let mut s = Session::new(1);
    s.on_open(&mut clients);
    let join = frame(ClientMessage::JoinGame { name: None });
    s.handle_frame(&mut world, &mut clients, &join);
    assert_eq!(world.snakes.len(), 1);
    // A second join on the same connection is ignored.
    s.handle_frame(&mut world, &mut clients, &join);
    assert_eq!(world.snakes.len(), 1);
}

#[test]
fn move_snake_steers_only_own_snake() {
    let mut world = empty_world();
    let mut clients = ClientList::new();
    let mut s = Session::new(1);
    s.on_open(&mut clients);
    s.handle_frame(&mut world, &mut clients, &frame(ClientMessage::JoinGame { name: None }));
    let mv = frame(ClientMessage::MoveSnake { dir_x: 0, dir_y: 1_000 });
    s.handle_frame(&mut world, &mut clients, &mv);
    assert_eq!((world.snakes[0].dir_x, world.snakes[0].dir_y), (0, 1_000));
    // An out-of-range heading is advisory input and is dropped.
    let bad = frame(ClientMessage::MoveSnake { dir_x: 90_000, dir_y: 0 });
    s.handle_frame(&mut world, &mut clients, &bad);
    assert_eq!((world.snakes[0].dir_x, world.snakes[0].dir_y), (0, 1_000));
}

#[test]
fn malformed_packet_is_dropped_connection_stays() {
    let mut world = empty_world();
    let mut clients = ClientList::new();
    let mut s = Session::new(1);
    s.on_open(&mut clients);
    s.handle_frame(&mut world, &mut clients, &vec![240u8, 7, 7]);
    assert_eq!(s.state, ConnState::AwaitingJoin);
    assert_eq!(world.snakes.len(), 0);
    // The connection still works: a join afterwards succeeds.
    s.handle_frame(&mut world, &mut clients, &frame(ClientMessage::JoinGame { name: None }));
    assert_eq!(s.state, ConnState::Joined);
}

#[test]
fn food_eat_report_is_advisory_only() {
    // A client-reported pickup never grants score by itself; the resolver is
    // authoritative.
    let mut world = empty_world();
    let mut clients = ClientList::new();
    let mut s = Session::new(1);
    s.on_open(&mut clients);
    s.handle_frame(&mut world, &mut clients, &frame(ClientMessage::JoinGame { name: None }));
    s.handle_frame(&mut world, &mut clients, &frame(ClientMessage::FoodEat));
    assert_eq!(world.snakes[0].score, 0);
}

#[test]
fn disconnect_broadcasts_player_left_exactly_once() {
    let mut world = empty_world();
    let mut clients = ClientList::new();
    let mut leaver = Session::new(1);
    let mut stayer = Session::new(2);
    leaver.on_open(&mut clients);
    stayer.on_open(&mut clients);
    leaver.handle_frame(&mut world, &mut clients, &frame(ClientMessage::JoinGame { name: None }));
    stayer.handle_frame(&mut world, &mut clients, &frame(ClientMessage::JoinGame { name: None }));
    let pid = leaver.player_id.unwrap();
    let _ = clients.drain(1);
    let _ = clients.drain(2);

    leaver.on_disconnect(&mut world, &mut clients);
    assert_eq!(leaver.state, ConnState::Disconnected);
    assert!(!world.snakes.iter().any(|s| s.id == pid));

    // Exactly one PlayerLeft (tag 2) carrying the leaver's id reaches the
    // remaining connection, and cleanup is idempotent.
    let frames = clients.drain(2);
    let left: Vec<&Vec<u8>> = frames.iter().filter(|f| f[0] == 2).collect();
    assert_eq!(left.len(), 1);
    leaver.on_disconnect(&mut world, &mut clients);
    assert_eq!(clients.drain(2).len(), 0);

    // The leaver appears in no later leaderboard computation.
    let rows = world.get_leaderboard();
    assert!(rows.iter().all(|row| row.id != pid));
}

#[test]
fn leave_game_message_equals_disconnect() {
    let mut world = empty_world();
    let mut clients = ClientList::new();
    let mut a = Session::new(1);
    let mut b = Session::new(2);
    a.on_open(&mut clients);
    b.on_open(&mut clients);
    a.handle_frame(&mut world, &mut clients, &frame(ClientMessage::JoinGame { name: None }));
    let _ = clients.drain(1);
    let _ = clients.drain(2);
    a.handle_frame(&mut world, &mut clients, &frame(ClientMessage::LeaveGame));
    assert_eq!(a.state, ConnState::Disconnected);
    assert_eq!(world.snakes.len(), 0);
    let frames = clients.drain(2);
    assert_eq!(frames.iter().filter(|f| f[0] == 2).count(), 1);
}

#[test]
fn disconnect_before_join_broadcasts_nothing() {
    let mut world = empty_world();
    let mut clients = ClientList::new();
    let mut a = Session::new(1);
    let mut b = Session::new(2);
    a.on_open(&mut clients);
    b.on_open(&mut clients);
    a.on_disconnect(&mut world, &mut clients);
    assert_eq!(a.state, ConnState::Disconnected);
    assert_eq!(clients.drain(2).len(), 0);
}

#[test]
fn broadcast_message_reaches_every_queue() {
    let mut clients = ClientList::new();
    clients.register(1);
    clients.register(2);
    let packet = WsServerPacket { message: ServerMessage::PlayerLeft { id: 77 } };
    clients.broadcast_message(&packet);
    let a = clients.drain(1);
    let b = clients.drain(2);
    assert_eq!(a.len(), 1);
    assert_eq!(b.len(), 1);
    assert_eq!(a[0], b[0]);
    assert_eq!(a[0][0], 2);
    // Draining leaves the queues empty until something new arrives.
    assert_eq!(clients.drain(1).len(), 0);
    assert_eq!(clients.drain(99).len(), 0);
}
