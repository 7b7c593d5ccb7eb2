use woods::client::{insert_player, walk_animation, ClientWorld, PlayerView};
use woods::direction::{Direction, StepPoint};
use woods::protocol::{MoveInput, MoveUpdate, PlayerId, PlayerLeft, Position, Welcome};
use woods::walk_animation::{WalkAnimation, WalkStage, STAGE_DURATION_NANOS};

fn mv(id: u32, direction: Direction, x: u16, y: u16, distance: u16) -> MoveUpdate {
    MoveUpdate { player_id: PlayerId(id), direction, position: Position { x, y }, distance }
}

fn welcomed(id: u32, x: u16, y: u16) -> ClientWorld {
    let mut w = ClientWorld::new(16, 16);
    w.apply_welcome(Welcome(PlayerId(id), Position { x, y }));
    w
}

#[test]
fn welcome_shows_the_local_player() {
    let w = welcomed(1, 3, 4);
    assert_eq!(w.me(), Some(PlayerId(1)));
    let v = w.get(PlayerId(1)).unwrap();
    assert_eq!(v.position, Position { x: 3, y: 4 });
    assert_eq!(v.direction, Direction::South);
    assert!(!v.animation.running());
}

#[test]
fn first_sighting_creates_a_view() {
    let mut w = welcomed(1, 3, 4);
    w.apply_move_update(mv(2, Direction::West, 7, 7, 0));
    let v = w.get(PlayerId(2)).unwrap();
    assert_eq!((v.direction, v.position), (Direction::West, Position { x: 7, y: 7 }));
    assert!(!v.animation.running());
    w.apply_move_update(mv(3, Direction::North, 1, 2, 1));
    assert_eq!(w.get(PlayerId(3)).unwrap().animation.stage(), WalkStage::Step1);
    assert_eq!(w.views().len(), 3);
}

#[test]
fn updates_about_self_are_skipped() {
    let mut w = welcomed(1, 3, 4);
    w.apply_move_update(mv(1, Direction::East, 9, 9, 1));
    let v = w.get(PlayerId(1)).unwrap();
    assert_eq!((v.direction, v.position), (Direction::South, Position { x: 3, y: 4 }));
    assert!(!v.animation.running());
}

#[test]
fn repeated_update_does_not_double_move() {
    let mut w = welcomed(1, 3, 4);
    let u = mv(2, Direction::East, 6, 5, 1);
    w.apply_move_update(u);
    w.apply_move_update(u);
    let v = w.get(PlayerId(2)).unwrap();
    assert_eq!((v.direction, v.position), (Direction::East, Position { x: 6, y: 5 }));
    assert_eq!(w.views().len(), 2);
    let still = mv(2, Direction::East, 6, 5, 0);
    w.apply_move_update(still);
    w.apply_move_update(still);
    assert_eq!(w.get(PlayerId(2)).unwrap().position, Position { x: 6, y: 5 });
}

#[test]
fn leave_removes_the_view_before_any_later_update() {
    let mut w = welcomed(1, 3, 4);
    w.apply_move_update(mv(2, Direction::East, 6, 5, 1));
    w.apply_player_left(PlayerLeft(PlayerId(2)));
    assert!(w.get(PlayerId(2)).is_none());
    w.apply_move_update(mv(2, Direction::North, 0, 0, 0));
    let v = w.get(PlayerId(2)).unwrap();
    assert_eq!(v.animation.stage(), WalkStage::Stop);
    assert_eq!(v.position, Position { x: 0, y: 0 });
    w.apply_player_left(PlayerLeft(PlayerId(42)));
    assert_eq!(w.views().len(), 2);
}

#[test]
fn intent_before_welcome_is_ignored() {
    let mut w = ClientWorld::new(16, 16);
    assert_eq!(w.walk_intent(Direction::North), None);
    assert!(w.views().is_empty());
}

#[test]
fn turn_then_step() {
    let mut w = welcomed(1, 3, 4);
    assert_eq!(w.walk_intent(Direction::East), Some(MoveInput(Direction::East, Position { x: 3, y: 4 })));
    let v = w.get(PlayerId(1)).unwrap();
    assert_eq!(v.direction, Direction::East);
    assert!(!v.animation.running());
    assert_eq!(w.walk_intent(Direction::East), Some(MoveInput(Direction::East, Position { x: 4, y: 4 })));
    let v = w.get(PlayerId(1)).unwrap();
    assert_eq!(v.position, Position { x: 4, y: 4 });
    assert_eq!(v.animation.stage(), WalkStage::Step1);
}

#[test]
fn stepping_is_gated_while_walking_but_turning_is_not() {
    let mut w = welcomed(1, 3, 4);
    w.walk_intent(Direction::East);
    w.walk_intent(Direction::East);
    assert_eq!(w.walk_intent(Direction::East), None);
    assert_eq!(w.get(PlayerId(1)).unwrap().position, Position { x: 4, y: 4 });
    assert_eq!(w.walk_intent(Direction::North), Some(MoveInput(Direction::North, Position { x: 4, y: 4 })));
    w.animate(STAGE_DURATION_NANOS);
    w.animate(STAGE_DURATION_NANOS);
    w.animate(STAGE_DURATION_NANOS);
    assert!(!w.get(PlayerId(1)).unwrap().animation.running());
    assert_eq!(w.walk_intent(Direction::North), Some(MoveInput(Direction::North, Position { x: 4, y: 5 })));
}

#[test]
fn step_onto_another_player_is_ignored() {
    let mut w = welcomed(1, 3, 4);
    w.apply_move_update(mv(2, Direction::West, 3, 3, 0));
    assert_eq!(w.walk_intent(Direction::South), None);
    assert_eq!(w.get(PlayerId(1)).unwrap().position, Position { x: 3, y: 4 });
}

#[test]
fn animate_reports_each_player_once() {
    let mut w = welcomed(1, 3, 4);
    w.apply_move_update(mv(2, Direction::East, 6, 5, 1));
    let frames = w.animate(1);
    assert_eq!(frames.len(), 2);
    let me = frames.iter().find(|f| f.player_id == PlayerId(1)).unwrap();
    assert_eq!(me.sprite_index, 7);
    assert_eq!(me.point, StepPoint { x: 9, y: 12 });
    let other = frames.iter().find(|f| f.player_id == PlayerId(2)).unwrap();
    assert_eq!(other.sprite_index, 12);
    assert_eq!(other.point, StepPoint { x: 15, y: 15 });
}

#[test]
fn walk_animation_ticks_then_draws() {
    let mut v = PlayerView {
        id: PlayerId(5),
        direction: Direction::North,
        position: Position { x: 2, y: 2 },
        animation: WalkAnimation::new(),
    };
    let (sprite, point) = walk_animation(&mut v, STAGE_DURATION_NANOS);
    assert_eq!(v.animation.stage(), WalkStage::Pause);
    assert_eq!(sprite, 1);
    assert_eq!(point, StepPoint { x: 6, y: 4 });
}

#[test]
fn insert_player_keeps_existing_views() {
    let mut w = welcomed(1, 3, 4);
    insert_player(&mut w, PlayerId(2), Direction::West, Position { x: 1, y: 1 });
    insert_player(&mut w, PlayerId(2), Direction::East, Position { x: 8, y: 8 });
    let v = w.get(PlayerId(2)).unwrap();
    assert_eq!((v.direction, v.position), (Direction::West, Position { x: 1, y: 1 }));
    assert_eq!(w.views().len(), 2);
}
