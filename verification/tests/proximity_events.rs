use platformer_core::player::{Player, Velocity};
use platformer_core::proximity::{near, near_flag, near_power_up, trigger_near};
use platformer_core::world::{ObjectKind, WorldObject};

fn player_at(x: i64, y: i64) -> Player {
    Player {
        x,
        y,
        scale: 50,
        velocity: Velocity { current: 0, target: 0, jumping: 0 },
        last_grounded: 0,
        blocked_left: false,
        blocked_right: false,
        powered_up: false,
        facing_left: false,
        frame: 0,
        walk_phase: 0,
    }
}

fn power_up_at(x: i64, y: i64) -> WorldObject {
    WorldObject { kind: ObjectKind::PowerUp, x, y, scale: 50, frame: 37, consumed: false }
}

fn flag_at(x: i64, y: i64) -> WorldObject {
    WorldObject { kind: ObjectKind::Flag, x, y, scale: 50, frame: 6, consumed: false }
}

#[test]
fn near_is_a_distance_below_fifty() {
    let player = player_at(0, 0);
    assert!(near(&player, &flag_at(0, 0)));
    assert!(near(&player, &flag_at(49_999, 0)));
    assert!(!near(&player, &flag_at(50_000, 0)));
    assert!(near(&player, &flag_at(0, -49_999)));
    assert!(!near(&player, &flag_at(0, -50_000)));
    assert!(!near(&player, &flag_at(30_000, 40_000)));
    assert!(near(&player, &flag_at(30_000, 39_999)));
    assert!(near(&player, &flag_at(-35_355, 35_355)));
    assert!(!near(&player, &flag_at(-35_356, 35_356)));
}

#[test]
fn near_does_not_depend_on_where_the_pair_lies() {
    let player = player_at(1_000_000, -2_000_000);
    assert!(near(&player, &flag_at(1_030_000, -1_960_001)));
    assert!(!near(&player, &flag_at(1_030_000, -1_960_000)));
}

#[test]
fn near_at_the_ends_of_the_coordinates() {
    assert!(!near(&player_at(i64::MIN, i64::MIN), &flag_at(i64::MAX, i64::MAX)));
    assert!(!near(&player_at(i64::MAX, 0), &flag_at(i64::MIN, 0)));
    assert!(!near(&player_at(0, i64::MIN), &flag_at(0, i64::MAX)));
    assert!(near(&player_at(i64::MAX, i64::MIN), &flag_at(i64::MAX - 1, i64::MIN + 1)));
}

#[test]
fn trigger_near_lists_and_consumes_the_near_objects() {
    let player = player_at(0, 0);
    let mut objects = vec![
        flag_at(100_000, 0),
        flag_at(10_000, 0),
        flag_at(0, -70_000),
        flag_at(-20_000, 20_000),
    ];
    let raised = trigger_near(&player, &mut objects);
    assert_eq!(raised, vec![1, 3]);
    assert_eq!(
        objects,
        vec![
            flag_at(100_000, 0),
            WorldObject { consumed: true, ..flag_at(10_000, 0) },
            flag_at(0, -70_000),
            WorldObject { consumed: true, ..flag_at(-20_000, 20_000) },
        ]
    );
}

#[test]
fn a_consumed_object_raises_nothing() {
    let player = player_at(0, 0);
    let mut objects = vec![WorldObject { consumed: true, ..flag_at(1, 1) }, flag_at(2, 2)];
    assert_eq!(trigger_near(&player, &mut objects), vec![1]);
    assert!(objects[0].consumed);
    assert!(objects[1].consumed);
}

#[test]
fn a_flag_is_reached_once() {
    let player = player_at(-512_000, 300_000);
    let mut flags = vec![flag_at(-512_000, 320_000)];
    assert_eq!(near_flag(&player, &mut flags), vec![0]);
    assert!(near_flag(&player, &mut flags).is_empty());
}

#[test]
fn a_far_flag_is_not_reached() {
    let player = player_at(0, 0);
    let mut flags = vec![flag_at(64_000, 0)];
    assert!(near_flag(&player, &mut flags).is_empty());
    assert_eq!(flags, vec![flag_at(64_000, 0)]);
}

#[test]
fn a_power_up_is_collected_once() {
    let mut player = player_at(0, 0);
    let mut power_ups = vec![power_up_at(10_000, 10_000)];
    assert_eq!(near_power_up(&mut player, &mut power_ups), vec![0]);
    assert!(player.powered_up);
    assert!(power_ups[0].consumed);
    for _ in 0..5 {
        assert!(near_power_up(&mut player, &mut power_ups).is_empty());
        assert!(player.powered_up);
    }
}

#[test]
fn a_power_up_is_not_collected_again_after_leaving_and_returning() {
    let mut player = player_at(0, 0);
    let mut power_ups = vec![power_up_at(10_000, 10_000)];
    assert_eq!(near_power_up(&mut player, &mut power_ups), vec![0]);
    player.x = 500_000;
    assert!(near_power_up(&mut player, &mut power_ups).is_empty());
    player.x = 0;
    assert!(near_power_up(&mut player, &mut power_ups).is_empty());
}

#[test]
fn a_far_power_up_changes_nothing() {
    let mut player = player_at(0, 0);
    let mut power_ups = vec![power_up_at(50_000, 0)];
    assert!(near_power_up(&mut player, &mut power_ups).is_empty());
    assert_eq!(player, player_at(0, 0));
    assert_eq!(power_ups, vec![power_up_at(50_000, 0)]);
}

#[test]
fn collecting_changes_only_the_power_of_the_player() {
    let mut before = player_at(5, 6);
    before.velocity = Velocity { current: 1, target: 2, jumping: 500 };
    before.facing_left = true;
    before.walk_phase = 4;
    let mut player = before;
    let mut power_ups = vec![power_up_at(0, 0), power_up_at(1, 1)];
    assert_eq!(near_power_up(&mut player, &mut power_ups), vec![0, 1]);
    assert_eq!(player, Player { powered_up: true, ..before });
}
