use platformer_core::collision::{ground_aabb, is_wall, on_ground, player_aabb, Aabb, Contact};
use platformer_core::player::{Player, Velocity};
use platformer_core::world::{ObjectKind, WorldObject};

fn player_at(x: i64, y: i64) -> Player {
    Player {
        x,
        y,
        scale: 50,
        velocity: Velocity { current: 0, target: 0, jumping: 0 },
        last_grounded: 0,
        blocked_left: false,
        blocked_right: false,
        powered_up: false,
        facing_left: false,
        frame: 0,
        walk_phase: 0,
    }
}

fn block_at(x: i64, y: i64) -> WorldObject {
    WorldObject { kind: ObjectKind::Ground, x, y, scale: 50, frame: 8, consumed: false }
}

fn contact(grounded: bool, blocked_left: bool, blocked_right: bool) -> Contact {
    Contact { grounded, blocked_left, blocked_right }
}

#[test]
fn the_box_of_the_player() {
    assert_eq!(
        player_aabb(&player_at(1_000, 32_000)),
        Aabb { min_x: -24_600, min_y: -32_000, max_x: 26_600, max_y: 32_000 }
    );
    let mut player = player_at(0, 0);
    player.scale = 100;
    assert_eq!(
        player_aabb(&player),
        Aabb { min_x: -51_200, min_y: -96_000, max_x: 51_200, max_y: 32_000 }
    );
}

#[test]
fn the_box_of_a_block() {
    assert_eq!(
        ground_aabb(&block_at(64_000, -64_000)),
        Aabb { min_x: 32_000, min_y: -96_000, max_x: 96_000, max_y: -32_000 }
    );
}

#[test]
fn boxes_at_the_ends_of_the_coordinates() {
    let far = WorldObject { scale: u32::MAX, ..block_at(i64::MAX, i64::MIN) };
    let aabb = ground_aabb(&far);
    assert_eq!(aabb.max_x, i64::MAX as i128 + 640 * (u32::MAX as i128));
    assert_eq!(aabb.min_y, i64::MIN as i128 - 640 * (u32::MAX as i128));
    let mut player = player_at(i64::MIN, i64::MIN);
    player.scale = u32::MAX;
    let aabb = player_aabb(&player);
    assert_eq!(aabb.min_x, i64::MIN as i128 - 512 * (u32::MAX as i128));
    assert_eq!(aabb.min_y, i64::MIN as i128 - 32_000 - 640 * (u32::MAX as i128));
}

#[test]
fn boxes_that_share_a_border_intersect() {
    let a = Aabb { min_x: 0, min_y: 0, max_x: 10, max_y: 10 };
    assert!(a.intersects(&Aabb { min_x: 10, min_y: 10, max_x: 20, max_y: 20 }));
    assert!(a.intersects(&Aabb { min_x: -5, min_y: -5, max_x: 0, max_y: 0 }));
    assert!(a.intersects(&Aabb { min_x: 2, min_y: 2, max_x: 3, max_y: 3 }));
    assert!(!a.intersects(&Aabb { min_x: 11, min_y: 0, max_x: 20, max_y: 10 }));
    assert!(!a.intersects(&Aabb { min_x: 0, min_y: 11, max_x: 10, max_y: 20 }));
    assert!(!a.intersects(&Aabb { min_x: -9, min_y: 0, max_x: -1, max_y: 10 }));
    assert!(!a.intersects(&Aabb { min_x: 0, min_y: -9, max_x: 10, max_y: -1 }));
}

#[test]
fn a_block_under_the_feet_grounds_the_player() {
    let mut player = player_at(0, 32_000);
    let found = on_ground(&mut player, &[block_at(0, -64_000)], 1_234);
    assert_eq!(found, contact(true, false, false));
    assert_eq!(player.last_grounded, 1_234);
    assert!(!player.blocked_left);
    assert!(!player.blocked_right);
}

#[test]
fn a_block_just_below_the_box_is_not_touched() {
    let mut player = player_at(0, 32_001);
    let found = on_ground(&mut player, &[block_at(0, -64_000)], 1_234);
    assert_eq!(found, contact(false, false, false));
    assert_eq!(player.last_grounded, 0);
}

#[test]
fn a_block_beside_the_player_on_the_left_is_a_wall() {
    let mut player = player_at(0, 32_000);
    let found = on_ground(&mut player, &[block_at(-57_600, 0)], 1_234);
    assert_eq!(found, contact(false, true, false));
    assert_eq!(player.last_grounded, 0);
    assert!(player.blocked_left);
    assert!(!player.blocked_right);
}

#[test]
fn a_block_beside_the_player_on_the_right_is_a_wall() {
    let mut player = player_at(0, 32_000);
    let found = on_ground(&mut player, &[block_at(57_600, 0)], 1_234);
    assert_eq!(found, contact(false, false, true));
    assert!(player.blocked_right);
    assert!(!player.blocked_left);
}

#[test]
fn a_block_out_of_reach_sideways_is_not_touched() {
    let mut player = player_at(0, 32_000);
    assert_eq!(on_ground(&mut player, &[block_at(-57_601, 0)], 5), contact(false, false, false));
    assert_eq!(on_ground(&mut player, &[block_at(57_601, 0)], 5), contact(false, false, false));
}

#[test]
fn a_wall_at_the_column_of_the_player_counts_as_right() {
    let mut player = player_at(0, 32_000);
    assert_eq!(on_ground(&mut player, &[block_at(0, 0)], 5), contact(false, false, true));
}

#[test]
fn the_tolerance_parts_ground_from_wall() {
    let player = player_at(0, 32_000);
    assert!(!is_wall(&player, &block_at(0, -34_000)));
    assert!(is_wall(&player, &block_at(0, -33_999)));
    let mut player = player_at(0, 32_000);
    assert_eq!(on_ground(&mut player, &[block_at(0, -34_000)], 5), contact(true, false, false));
    assert_eq!(on_ground(&mut player, &[block_at(-1, -33_999)], 5), contact(false, true, false));
}

#[test]
fn the_foot_line_follows_the_scale_of_the_player() {
    let mut player = player_at(0, 0);
    player.scale = 100;
    assert!(!is_wall(&player, &block_at(0, -98_000)));
    assert!(is_wall(&player, &block_at(0, -97_999)));
}

#[test]
fn ground_and_walls_are_found_together() {
    let mut player = player_at(0, 32_000);
    let blocks = [
        block_at(-64_000, -64_000),
        block_at(0, -64_000),
        block_at(500_000, 0),
        block_at(50_000, 0),
        block_at(-50_000, 0),
    ];
    assert_eq!(on_ground(&mut player, &blocks, 99), contact(true, true, true));
    assert_eq!(player.last_grounded, 99);
    assert!(player.blocked_left);
    assert!(player.blocked_right);
}

#[test]
fn no_blocks_no_contact() {
    let mut player = player_at(0, 32_000);
    player.blocked_left = true;
    player.blocked_right = true;
    player.last_grounded = 40;
    assert_eq!(on_ground(&mut player, &[], 99), contact(false, false, false));
    assert_eq!(player.last_grounded, 40);
    assert!(!player.blocked_left);
    assert!(!player.blocked_right);
}

#[test]
fn contact_is_found_anew_each_time() {
    let mut player = player_at(0, 32_000);
    on_ground(&mut player, &[block_at(-50_000, 0)], 10);
    assert!(player.blocked_left);
    on_ground(&mut player, &[block_at(50_000, 0)], 20);
    assert!(!player.blocked_left);
    assert!(player.blocked_right);
    on_ground(&mut player, &[block_at(0, -64_000)], 30);
    assert!(!player.blocked_right);
    assert_eq!(player.last_grounded, 30);
}

#[test]
fn on_ground_keeps_the_rest_of_the_player() {
    let mut before = player_at(3, 32_000);
    before.velocity = Velocity { current: 100, target: 5_000, jumping: 500 };
    before.powered_up = true;
    before.frame = 44;
    before.walk_phase = 7;
    let mut player = before;
    on_ground(&mut player, &[block_at(0, -64_000), block_at(40_000, 0)], 77);
    assert_eq!(player, Player { last_grounded: 77, blocked_right: true, ..before });
}
