use woods::direction::Direction;
use woods::protocol::{Channel, ClientMessage, MoveInput, MoveUpdate, PlayerId, PlayerLeft, Position, ServerMessage, Welcome, SERVER_PORT};
use woods::resolver::{neighbour, resolve_move, MoveOutcome};
use woods::server::{random_position, Outgoing, Server, WORLD_SIZE};

fn update(id: u32, direction: Direction, x: u16, y: u16, distance: u16) -> ServerMessage {
    ServerMessage::MoveUpdate(MoveUpdate {
        player_id: PlayerId(id),
        direction,
        position: Position { x, y },
        distance,
    })
}

#[test]
fn turn_never_moves() {
    let r = resolve_move(Direction::North, Position { x: 5, y: 5 }, Direction::South, 16, 16);
    assert_eq!(r, MoveOutcome { direction: Direction::South, position: Position { x: 5, y: 5 }, distance: 0 });
}

#[test]
fn step_moves_one_tile_along_facing() {
    let r = resolve_move(Direction::South, Position { x: 5, y: 5 }, Direction::South, 16, 16);
    assert_eq!(r, MoveOutcome { direction: Direction::South, position: Position { x: 5, y: 4 }, distance: 1 });
    let r = resolve_move(Direction::East, Position { x: 5, y: 5 }, Direction::East, 16, 16);
    assert_eq!(r.position, Position { x: 6, y: 5 });
}

#[test]
fn step_off_the_grid_is_blocked() {
    let r = resolve_move(Direction::West, Position { x: 0, y: 3 }, Direction::West, 16, 16);
    assert_eq!(r, MoveOutcome { direction: Direction::West, position: Position { x: 0, y: 3 }, distance: 0 });
    let r = resolve_move(Direction::North, Position { x: 2, y: 15 }, Direction::North, 16, 16);
    assert_eq!(r.distance, 0);
    assert_eq!(neighbour(Position { x: 65535, y: 0 }, Direction::East, 65535, 65535), None);
    assert_eq!(neighbour(Position { x: 0, y: 1 }, Direction::South, 1, 2), Some(Position { x: 0, y: 0 }));
}

#[test]
fn channels_split_session_and_movement() {
    assert_eq!(ClientMessage::Hello.channel(), Channel::Reliable);
    let mv = ClientMessage::Move(MoveInput(Direction::East, Position { x: 1, y: 1 }));
    assert_eq!(mv.channel(), Channel::Unreliable);
    assert_eq!(ServerMessage::Welcome(Welcome(PlayerId(1), Position { x: 0, y: 0 })).channel(), Channel::Reliable);
    assert_eq!(ServerMessage::PlayerLeft(PlayerLeft(PlayerId(1))).channel(), Channel::Reliable);
    assert_eq!(update(1, Direction::East, 0, 0, 1).channel(), Channel::Unreliable);
    assert_eq!(SERVER_PORT, 14192);
}

#[test]
fn first_connection_is_welcomed_alone() {
    let mut s = Server::new(16, 16);
    let out = s.connect(10, Position { x: 3, y: 4 });
    assert_eq!(out, vec![Outgoing { connection: 10, message: ServerMessage::Welcome(Welcome(PlayerId(1), Position { x: 3, y: 4 })) }]);
    assert_eq!(s.players().len(), 1);
    assert_eq!(s.players()[0].direction, Direction::South);
}

#[test]
fn join_replays_every_existing_player() {
    let mut s = Server::new(16, 16);
    s.connect(10, Position { x: 1, y: 1 });
    s.connect(20, Position { x: 2, y: 2 });
    s.connect(30, Position { x: 3, y: 3 });
    let out = s.connect(40, Position { x: 4, y: 4 });
    assert_eq!(out.len(), 7);
    assert_eq!(out[0], Outgoing { connection: 40, message: ServerMessage::Welcome(Welcome(PlayerId(4), Position { x: 4, y: 4 })) });
    let to_new: Vec<&Outgoing> = out.iter().filter(|o| o.connection == 40).skip(1).collect();
    assert_eq!(to_new.len(), 3);
    for (k, o) in to_new.iter().enumerate() {
        let n = (k + 1) as u16;
        assert_eq!(o.message, update(n as u32, Direction::South, n, n, 0));
    }
    for c in [10u64, 20, 30] {
        let to_old: Vec<&Outgoing> = out.iter().filter(|o| o.connection == c).collect();
        assert_eq!(to_old.len(), 1);
        assert_eq!(to_old[0].message, update(4, Direction::South, 4, 4, 0));
    }
}

#[test]
fn duplicate_connection_is_ignored() {
    let mut s = Server::new(16, 16);
    s.connect(10, Position { x: 1, y: 1 });
    let out = s.connect(10, Position { x: 2, y: 2 });
    assert!(out.is_empty());
    assert_eq!(s.players().len(), 1);
    let out = s.connect(11, Position { x: 2, y: 2 });
    assert_eq!(out[0].message, ServerMessage::Welcome(Welcome(PlayerId(2), Position { x: 2, y: 2 })));
}

#[test]
fn moves_are_resolved_and_broadcast_to_all() {
    let mut s = Server::new(16, 16);
    s.connect(10, Position { x: 5, y: 5 });
    s.connect(20, Position { x: 9, y: 9 });
    let out = s.handle_move(10, Direction::East);
    assert_eq!(out, vec![
        Outgoing { connection: 10, message: update(1, Direction::East, 5, 5, 0) },
        Outgoing { connection: 20, message: update(1, Direction::East, 5, 5, 0) },
    ]);
    let out = s.handle_move(10, Direction::East);
    assert_eq!(out[0].message, update(1, Direction::East, 6, 5, 1));
    assert_eq!(out[1].message, update(1, Direction::East, 6, 5, 1));
    assert_eq!(s.players()[0].position, Position { x: 6, y: 5 });
}

#[test]
fn move_from_unknown_connection_is_dropped() {
    let mut s = Server::new(16, 16);
    s.connect(10, Position { x: 5, y: 5 });
    assert!(s.handle_move(99, Direction::North).is_empty());
    assert_eq!(s.players()[0].position, Position { x: 5, y: 5 });
}

#[test]
fn disconnect_notifies_the_others() {
    let mut s = Server::new(16, 16);
    s.connect(10, Position { x: 1, y: 1 });
    s.connect(20, Position { x: 2, y: 2 });
    s.connect(30, Position { x: 3, y: 3 });
    let out = s.disconnect(20);
    let left = ServerMessage::PlayerLeft(PlayerLeft(PlayerId(2)));
    assert_eq!(out, vec![Outgoing { connection: 10, message: left }, Outgoing { connection: 30, message: left }]);
    assert_eq!(s.players().len(), 2);
    assert!(s.disconnect(20).is_empty());
    assert!(s.handle_move(20, Direction::South).is_empty());
    let out = s.connect(20, Position { x: 0, y: 0 });
    assert_eq!(out[0].message, ServerMessage::Welcome(Welcome(PlayerId(4), Position { x: 0, y: 0 })));
}

#[test]
fn random_spawns_stay_on_the_grid() {
    for _ in 0..200 {
        let p = random_position(WORLD_SIZE, 3);
        assert!(p.x < WORLD_SIZE && p.y < 3);
        let q = random_position(1, 1);
        assert_eq!(q, Position { x: 0, y: 0 });
    }
    let mut s = Server::new(WORLD_SIZE, WORLD_SIZE);
    let out = s.handle_connect(7);
    match out[0].message {
        ServerMessage::Welcome(Welcome(id, pos)) => {
            assert_eq!(id, PlayerId(1));
            assert!(pos.x < WORLD_SIZE && pos.y < WORLD_SIZE);
        }
        _ => panic!("expected a welcome"),
    }
    assert_eq!(s.width(), 16);
    assert_eq!(s.height(), 16);
}
