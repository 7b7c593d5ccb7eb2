use woods::direction::{Direction, StepPoint, FRAMES_PER_DIRECTION};

const ALL: [Direction; 4] = [Direction::North, Direction::South, Direction::East, Direction::West];

#[test]
fn translations_are_unit_vectors_along_one_axis() {
    for d in ALL {
        let (x, y) = d.translation();
        assert_eq!(x.abs() + y.abs(), 1);
        assert!(x == 0 || y == 0);
    }
}

#[test]
fn translations_are_distinct_and_opposite_in_pairs() {
    for a in ALL {
        for b in ALL {
            if a != b {
                assert_ne!(a.translation(), b.translation());
            }
        }
    }
    let (nx, ny) = Direction::North.translation();
    let (sx, sy) = Direction::South.translation();
    assert_eq!((nx + sx, ny + sy), (0, 0));
    let (ex, ey) = Direction::East.translation();
    let (wx, wy) = Direction::West.translation();
    assert_eq!((ex + wx, ey + wy), (0, 0));
    assert_eq!(Direction::North.translation(), (0, 1));
    assert_eq!(Direction::East.translation(), (1, 0));
}

#[test]
fn sprite_offsets_are_banks_of_six() {
    assert_eq!(FRAMES_PER_DIRECTION, 6);
    assert_eq!(Direction::North.sprite_index_offset(), 0);
    assert_eq!(Direction::South.sprite_index_offset(), 6);
    assert_eq!(Direction::East.sprite_index_offset(), 12);
    assert_eq!(Direction::West.sprite_index_offset(), 18);
    assert_eq!(Direction::West.sprite_offset(4), 12);
    assert_eq!(Direction::South.sprite_offset(0), 0);
}

#[test]
fn default_direction_is_south() {
    assert_eq!(Direction::default(), Direction::South);
}

#[test]
fn translate_moves_one_step() {
    let mut p = StepPoint { x: 0, y: 100 };
    Direction::South.translate(&mut p);
    assert_eq!(p, StepPoint { x: 0, y: 99 });
    Direction::West.translate(&mut p);
    assert_eq!(p, StepPoint { x: -1, y: 99 });
    Direction::East.translate(&mut p);
    Direction::North.translate(&mut p);
    assert_eq!(p, StepPoint { x: 0, y: 100 });
}
