use platformer_core::level::{decode_level, Level, Tile};
use platformer_core::world::{
    animate_level, display_level, display_tile, ground_tile_index, tile_position, ObjectKind,
    WorldObject, FLAG_FRAME, FLAG_FRAME_ALT, GRID_LIMIT, GROUND_ISOLATED, GROUND_LEFT_EDGE,
    GROUND_MIDDLE, GROUND_RIGHT_EDGE, LEVEL_SCALE, PLAYER_FRAME, POWER_UP_FRAME, SPAWN_LIFT,
    TILE_STEP,
};

fn object(kind: ObjectKind, x: i64, y: i64, frame: usize) -> WorldObject {
    WorldObject { kind, x, y, scale: LEVEL_SCALE, frame, consumed: false }
}

#[test]
fn ground_frames_are_the_four_fixed_ones() {
    assert_eq!(GROUND_ISOLATED, 8);
    assert_eq!(GROUND_LEFT_EDGE, 14);
    assert_eq!(GROUND_RIGHT_EDGE, 0);
    assert_eq!(GROUND_MIDDLE, 7);
}

#[test]
fn ground_frame_follows_the_neighbours() {
    let g = Tile::Ground;
    let e = Tile::Empty;
    assert_eq!(ground_tile_index(&[e, g, e], 1), 8);
    assert_eq!(ground_tile_index(&[e, g, g], 1), 14);
    assert_eq!(ground_tile_index(&[g, g, e], 1), 0);
    assert_eq!(ground_tile_index(&[g, g, g], 1), 7);
}

#[test]
fn ground_frame_counts_only_ground_as_neighbour() {
    let g = Tile::Ground;
    assert_eq!(ground_tile_index(&[Tile::Flag, g, Tile::Spawn], 1), 8);
    assert_eq!(ground_tile_index(&[Tile::PowerUp, g, g], 1), 14);
}

#[test]
fn ground_frame_at_the_ends_of_a_row() {
    let g = Tile::Ground;
    assert_eq!(ground_tile_index(&[g], 0), 8);
    assert_eq!(ground_tile_index(&[g, g], 0), 14);
    assert_eq!(ground_tile_index(&[g, g], 1), 0);
}

#[test]
fn ground_frame_does_not_depend_on_the_column() {
    let g = Tile::Ground;
    let e = Tile::Empty;
    let line = [g, g, g, e, g, g, g, g, e, e, g];
    assert_eq!(ground_tile_index(&line, 1), ground_tile_index(&line, 5));
    assert_eq!(ground_tile_index(&line, 0), ground_tile_index(&line, 4));
    assert_eq!(ground_tile_index(&line, 2), ground_tile_index(&line, 7));
}

#[test]
fn ground_frame_beyond_the_row() {
    let g = Tile::Ground;
    assert_eq!(ground_tile_index(&[g, g], 2), 0);
    assert_eq!(ground_tile_index(&[g, g], 3), 8);
    assert_eq!(ground_tile_index(&[g, g], usize::MAX), 8);
    assert_eq!(ground_tile_index(&[], 0), 8);
}

#[test]
fn tile_positions_are_centred_on_column_nine_and_row_five() {
    assert_eq!(TILE_STEP, 64_000);
    assert_eq!(tile_position(9, 5), (0, 0));
    assert_eq!(tile_position(0, 0), (-576_000, 320_000));
    assert_eq!(tile_position(10, 4), (64_000, 64_000));
    assert_eq!(tile_position(12, 7), (192_000, -128_000));
    assert_eq!(
        tile_position(GRID_LIMIT, GRID_LIMIT),
        (63_999_999_424_000, -63_999_999_680_000)
    );
}

#[test]
fn display_tile_places_each_kind() {
    let line = [Tile::Ground, Tile::Ground, Tile::Spawn, Tile::Flag, Tile::PowerUp, Tile::Empty];
    assert_eq!(
        display_tile(Tile::Ground, 1, 10, -20, &line),
        Some(object(ObjectKind::Ground, 10, -20, GROUND_RIGHT_EDGE))
    );
    assert_eq!(
        display_tile(Tile::Spawn, 2, 10, -20, &line),
        Some(object(ObjectKind::Player, 10, -20 + 32_000, 0))
    );
    assert_eq!(
        display_tile(Tile::Flag, 3, 10, -20, &line),
        Some(object(ObjectKind::Flag, 10, -20, 6))
    );
    assert_eq!(
        display_tile(Tile::PowerUp, 4, 10, -20, &line),
        Some(object(ObjectKind::PowerUp, 10, -20, 37))
    );
    assert_eq!(display_tile(Tile::Empty, 5, 10, -20, &line), None);
}

#[test]
fn frames_of_placed_objects() {
    assert_eq!(FLAG_FRAME, 6);
    assert_eq!(FLAG_FRAME_ALT, 12);
    assert_eq!(POWER_UP_FRAME, 37);
    assert_eq!(PLAYER_FRAME, 0);
    assert_eq!(SPAWN_LIFT, 32_000);
    assert_eq!(LEVEL_SCALE, 50);
}

#[test]
fn display_level_flag_over_ground() {
    let level = decode_level("⬜🏁⬜\n🟩🟩🟩\n").unwrap();
    assert!(level.fits());
    let objects = display_level(&level);
    assert_eq!(
        objects,
        vec![
            object(ObjectKind::Flag, -512_000, 320_000, 6),
            object(ObjectKind::Ground, -576_000, 256_000, 14),
            object(ObjectKind::Ground, -512_000, 256_000, 7),
            object(ObjectKind::Ground, -448_000, 256_000, 0),
        ]
    );
}

#[test]
fn display_level_of_a_single_ground_tile() {
    let level = decode_level("🟩\n").unwrap();
    assert_eq!(display_level(&level), vec![object(ObjectKind::Ground, -576_000, 320_000, 8)]);
}

#[test]
fn display_level_lifts_the_player() {
    let level = Level { tiles: vec![vec![], vec![Tile::Empty, Tile::Spawn]] };
    assert_eq!(
        display_level(&level),
        vec![object(ObjectKind::Player, -512_000, 256_000 + 32_000, 0)]
    );
}

#[test]
fn display_level_goes_row_by_row() {
    let level = decode_level("🍄⬜🟩\n\n🙂🏁\n").unwrap();
    let kinds: Vec<ObjectKind> = display_level(&level).iter().map(|o| o.kind).collect();
    assert_eq!(
        kinds,
        vec![ObjectKind::PowerUp, ObjectKind::Ground, ObjectKind::Player, ObjectKind::Flag]
    );
}

#[test]
fn display_level_twice_gives_the_same_objects() {
    let level = decode_level("⬜🏁⬜\n🙂🍄⬜\n🟩🟩🟩\n").unwrap();
    assert_eq!(display_level(&level), display_level(&level));
}

#[test]
fn display_level_of_nothing_is_empty() {
    assert!(display_level(&Level { tiles: vec![] }).is_empty());
    assert!(display_level(&Level { tiles: vec![vec![Tile::Empty], vec![]] }).is_empty());
}

#[test]
fn animate_level_toggles_every_flag() {
    let mut flags = vec![
        object(ObjectKind::Flag, 1, 2, 6),
        object(ObjectKind::Flag, 3, 4, 12),
        object(ObjectKind::Flag, 5, 6, 9),
    ];
    animate_level(&mut flags);
    assert_eq!(
        flags,
        vec![
            object(ObjectKind::Flag, 1, 2, 12),
            object(ObjectKind::Flag, 3, 4, 6),
            object(ObjectKind::Flag, 5, 6, 6),
        ]
    );
    animate_level(&mut flags);
    assert_eq!(flags[0].frame, 6);
    assert_eq!(flags[1].frame, 12);
    assert_eq!(flags[2].frame, 12);
}

#[test]
fn only_the_player_is_lifted() {
    let line = [Tile::Ground, Tile::Flag, Tile::PowerUp, Tile::Empty];
    assert_eq!(
        display_tile(Tile::Ground, 0, i64::MIN, i64::MAX, &line),
        Some(object(ObjectKind::Ground, i64::MIN, i64::MAX, GROUND_ISOLATED))
    );
    assert_eq!(
        display_tile(Tile::Flag, 1, i64::MAX, i64::MAX, &line),
        Some(object(ObjectKind::Flag, i64::MAX, i64::MAX, 6))
    );
    assert_eq!(
        display_tile(Tile::PowerUp, 2, 0, i64::MAX, &line),
        Some(object(ObjectKind::PowerUp, 0, i64::MAX, 37))
    );
    assert_eq!(display_tile(Tile::Empty, 3, 0, i64::MAX, &line), None);
    assert_eq!(
        display_tile(Tile::Spawn, 0, 0, i64::MAX - 32_000, &line),
        Some(object(ObjectKind::Player, 0, i64::MAX, 0))
    );
}
