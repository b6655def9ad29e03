//! The player: steering, jumping, the integration of its motion, and the
//! choice of its frame.

use crate::world::{WorldObject, WORLD_LIMIT};
use vstd::prelude::*;

verus! {

/// Horizontal speed that steering aims for, per tick.
pub const WALK_SPEED: i64 = 5_000;

/// Upward impulse that a jump starts with, per tick.
pub const JUMP_LAUNCH: i64 = 15_000;

/// What the jump impulse loses each tick.
pub const JUMP_DECAY: i64 = 500;

/// How far the player falls in a tick without ground under it.
pub const GRAVITY_STEP: i64 = 10_000;

/// The part of the distance to the target speed that a tick covers: a tenth.
pub const EASE_DIVISOR: i64 = 10;

/// Speeds of a smaller magnitude are set to zero.
pub const SNAP_BELOW: i64 = 100;

/// Steering is heeded for this long after the ground was last touched.
pub const STEER_WINDOW_MS: u64 = 2_000;

/// A jump is accepted for this long after the ground was last touched.
pub const JUMP_WINDOW_MS: u64 = 500;

/// Gravity acts once the ground has not been touched for longer than this.
pub const GRAVITY_DELAY_MS: u64 = 100;

/// A player below this height has fallen out of the level.
pub const DEATH_Y: i64 = -400_000;

/// The walking cadence: the walk frame changes every tenth step.
pub const WALK_CADENCE: u8 = 10;

/// Horizontal speed and jump impulse, in thousandths of a world unit per tick.
#[derive(Clone, Copy, Debug, PartialEq, Eq, Structural)]
pub struct Velocity {
    /// The speed the player moves with.
    pub current: i64,
    /// The speed that `current` approaches.
    pub target: i64,
    /// The upward impulse of a jump; zero when there is none.
    pub jumping: i64,
}

/// What the controls ask for in one tick.
#[derive(Clone, Copy, Debug, PartialEq, Eq, Structural)]
pub struct Input {
    pub left: bool,
    pub right: bool,
    pub jump: bool,
}

/// The one player of a level.
#[derive(Clone, Copy, Debug, PartialEq, Eq, Structural)]
pub struct Player {
    /// Centre, in thousandths of a world unit; y grows upwards.
    pub x: i64,
    pub y: i64,
    /// Scale factor in hundredths.
    pub scale: u32,
    pub velocity: Velocity,
    /// When the player last stood on ground, in milliseconds.
    pub last_grounded: u64,
    /// A wall touches the player on the left.
    pub blocked_left: bool,
    /// A wall touches the player on the right.
    pub blocked_right: bool,
    pub powered_up: bool,
    /// The sprite is mirrored: the player looks to the left.
    pub facing_left: bool,
    /// Index of the frame to draw.
    pub frame: usize,
    /// Steps walked since the walk frame last changed, below `WALK_CADENCE`.
    pub walk_phase: u8,
}

/// The frames of the player: two for walking and one for jumping.
#[derive(Clone, Copy, Debug, PartialEq, Eq, Structural)]
pub struct AnimationIndices {
    pub move_1: usize,
    pub move_2: usize,
    pub jump: usize,
}

/// Time from `last` to `now`, negative where `now` is the earlier one.
pub open spec fn spec_elapsed(now: u64, last: u64) -> int {
    now - last
}

/// Whether less than `window` milliseconds lie between `last` and `now`.
pub fn within(now: u64, last: u64, window: u64) -> (b: bool)
    ensures
        b == (spec_elapsed(now, last) < window),
{
    now < last || now - last < window
}

impl Velocity {
    /// The speeds stay within the walking speed, and the jump impulse is a
    /// whole number of decay steps between zero and the launch impulse.
    pub open spec fn wf(self) -> bool {
        &&& -WALK_SPEED <= self.current <= WALK_SPEED
        &&& -WALK_SPEED <= self.target <= WALK_SPEED
        &&& 0 <= self.jumping <= JUMP_LAUNCH
        &&& self.jumping % JUMP_DECAY == 0
    }
}

impl Player {
    /// The velocity is well formed and the walk phase lies within the cadence.
    pub open spec fn wf(self) -> bool {
        &&& self.velocity.wf()
        &&& self.walk_phase < WALK_CADENCE
    }

    /// The position can be moved by a tick without overflow.
    pub open spec fn in_range(self) -> bool {
        &&& -WORLD_LIMIT <= self.x <= WORLD_LIMIT
        &&& -WORLD_LIMIT <= self.y <= WORLD_LIMIT
    }

    /// The player as it enters a level at the place of `object`: at rest,
    /// last grounded at time zero, touching no wall, without power-up,
    /// looking to the right.
    pub open spec fn spec_spawn(object: WorldObject) -> Player {
        Player {
            x: object.x,
            y: object.y,
            scale: object.scale,
            velocity: Velocity { current: 0, target: 0, jumping: 0 },
            last_grounded: 0,
            blocked_left: false,
            blocked_right: false,
            powered_up: false,
            facing_left: false,
            frame: object.frame,
            walk_phase: 0,
        }
    }

    /// The player as it enters a level at the place of `object`.
    pub fn spawn(object: &WorldObject) -> (player: Player)
        ensures
            player == Player::spec_spawn(*object),
            player.wf(),
            object.in_range() ==> player.in_range(),
    {
        Player {
            x: object.x,
            y: object.y,
            scale: object.scale,
            velocity: Velocity { current: 0, target: 0, jumping: 0 },
            last_grounded: 0,
            blocked_left: false,
            blocked_right: false,
            powered_up: false,
            facing_left: false,
            frame: object.frame,
            walk_phase: 0,
        }
    }

    /// Whether the player satisfies `wf`.
    pub fn is_wf(&self) -> (ok: bool)
        ensures
            ok == self.wf(),
    {
        let v = self.velocity;
        -WALK_SPEED <= v.current && v.current <= WALK_SPEED && -WALK_SPEED <= v.target && v.target
            <= WALK_SPEED && 0 <= v.jumping && v.jumping <= JUMP_LAUNCH && v.jumping % JUMP_DECAY
            == 0 && self.walk_phase < WALK_CADENCE
    }

    /// Whether the player satisfies `in_range`.
    pub fn is_in_range(&self) -> (ok: bool)
        ensures
            ok == self.in_range(),
    {
        -WORLD_LIMIT <= self.x && self.x <= WORLD_LIMIT && -WORLD_LIMIT <= self.y && self.y
            <= WORLD_LIMIT
    }
}

/// The speed that the controls aim for: left wins over right, and no
/// direction means rest.
pub open spec fn spec_steer(input: Input) -> int {
    if input.left {
        -WALK_SPEED
    } else if input.right {
        WALK_SPEED as int
    } else {
        0
    }
}

/// Whether steering is heeded at `now`: the ground was touched less than
/// `STEER_WINDOW_MS` ago, or a jump is under way.
pub open spec fn spec_can_steer(player: Player, now: u64) -> bool {
    spec_elapsed(now, player.last_grounded) < STEER_WINDOW_MS || player.velocity.jumping > 0
}

/// Whether a jump is accepted at `now`: the ground was touched less than
/// `JUMP_WINDOW_MS` ago.
pub open spec fn spec_can_jump(player: Player, now: u64) -> bool {
    spec_elapsed(now, player.last_grounded) < JUMP_WINDOW_MS
}

/// The player after the controls were read at `now`.
pub open spec fn spec_control(player: Player, input: Input, now: u64) -> Player {
    Player {
        velocity: Velocity {
            current: player.velocity.current,
            target: if spec_can_steer(player, now) {
                spec_steer(input) as i64
            } else {
                player.velocity.target
            },
            jumping: if spec_can_jump(player, now) && input.jump {
                JUMP_LAUNCH
            } else {
                player.velocity.jumping
            },
        },
        ..player
    }
}

/// Reads the controls at `now`.
///
/// While the ground was touched less than `STEER_WINDOW_MS` ago, or a jump is
/// under way, the target speed follows the controls; otherwise it is kept.
/// The jump impulse is set to `JUMP_LAUNCH` exactly when jump is pressed and
/// the ground was touched less than `JUMP_WINDOW_MS` ago. Nothing else
/// changes.
pub fn control_player(player: &mut Player, input: Input, now: u64)
    ensures
        *final(player) == spec_control(*old(player), input, now),
        old(player).wf() ==> final(player).wf(),
{
    if within(now, player.last_grounded, STEER_WINDOW_MS) || player.velocity.jumping > 0 {
        if input.left {
            player.velocity.target = -WALK_SPEED;
        } else if input.right {
            player.velocity.target = WALK_SPEED;
        } else {
            player.velocity.target = 0;
        }
    }
    if within(now, player.last_grounded, JUMP_WINDOW_MS) && input.jump {
        player.velocity.jumping = JUMP_LAUNCH;
    }
}

/// A tenth of `diff`, rounded towards zero to a whole thousandth.
pub open spec fn spec_ease(diff: int) -> int {
    if diff >= 0 {
        diff / (EASE_DIVISOR as int)
    } else {
        -((-diff) / (EASE_DIVISOR as int))
    }
}

/// Ten times the speed that lies a tenth of the way from `current` to
/// `target`. That speed itself need not be a whole number of thousandths;
/// its tenfold is.
pub open spec fn spec_eased_tenfold(current: int, target: int) -> int {
    (EASE_DIVISOR - 1) * current + target
}

/// Whether the speed a tenth of the way from `current` to `target` has a
/// magnitude below `SNAP_BELOW`. The test is made on the exact speed, before
/// any rounding.
pub open spec fn spec_snaps(current: int, target: int) -> bool {
    -SNAP_BELOW * EASE_DIVISOR < spec_eased_tenfold(current, target) < SNAP_BELOW * EASE_DIVISOR
}

/// The speed after a wall on the side the player moves to has stopped it.
pub open spec fn spec_walled(player: Player) -> int {
    let current = player.velocity.current as int;
    if (player.blocked_left && current < 0) || (player.blocked_right && current > 0) {
        0
    } else {
        current
    }
}

/// The speed that follows `current` when it approaches `target`: it stays
/// where it has reached the target; otherwise it covers a tenth of the
/// distance. Where the speed so reached has a magnitude below `SNAP_BELOW`,
/// it becomes zero; where it has not, the tenth covered is rounded towards
/// zero to a whole thousandth.
pub open spec fn spec_approach(current: int, target: int) -> int {
    if current == target {
        current
    } else if spec_snaps(current, target) {
        0
    } else {
        current + spec_ease(target - current)
    }
}

/// The player after one tick of motion.
///
/// A jump impulse above zero lifts the player by itself and then loses
/// `JUMP_DECAY`. A wall on the side the player moves to stops it; what speed
/// is left moves the player sideways. Then the speed approaches its target.
pub open spec fn spec_moving(player: Player) -> Player {
    let jumping = player.velocity.jumping;
    let walled = spec_walled(player);
    Player {
        x: (player.x + walled) as i64,
        y: if jumping > 0 {
            (player.y + jumping) as i64
        } else {
            player.y
        },
        velocity: Velocity {
            current: spec_approach(walled, player.velocity.target as int) as i64,
            target: player.velocity.target,
            jumping: if jumping > 0 {
                (jumping - JUMP_DECAY) as i64
            } else {
                jumping
            },
        },
        ..player
    }
}

/// A positive jump impulse that is a whole number of decay steps is at least
/// one step, and stays a whole number of steps when it loses one.
proof fn lemma_jump_decay(jumping: int)
    requires
        0 < jumping,
        jumping % (JUMP_DECAY as int) == 0,
    ensures
        jumping >= JUMP_DECAY,
        (jumping - JUMP_DECAY) % (JUMP_DECAY as int) == 0,
{
}

/// The speed that follows `current` on its way to `target`; it stays within
/// the walking speed.
pub fn approach(current: i64, target: i64) -> (next: i64)
    requires
        -WALK_SPEED <= current <= WALK_SPEED,
        -WALK_SPEED <= target <= WALK_SPEED,
    ensures
        next == spec_approach(current as int, target as int),
        -WALK_SPEED <= next <= WALK_SPEED,
{
    if current == target {
        return current;
    }
    assert((EASE_DIVISOR - 1) * current == 9 * current);
    let tenfold: i64 = (EASE_DIVISOR - 1) * current + target;
    if -SNAP_BELOW * EASE_DIVISOR < tenfold && tenfold < SNAP_BELOW * EASE_DIVISOR {
        return 0;
    }
    let diff: i64 = target - current;
    let step: i64 = if diff >= 0 {
        diff / EASE_DIVISOR
    } else {
        -((-diff) / EASE_DIVISOR)
    };
    current + step
}

/// Moves the player by one tick: the jump impulse, the wall stop, the
/// sideways motion and the approach of the speed to its target. The player
/// must have room within the coordinates for the way it moves; a player in
/// range has. Whether a player moves at all in a tick is decided by the tick
/// of its world, not here.
pub fn moving(player: &mut Player)
    requires
        old(player).wf(),
        old(player).velocity.jumping > 0 ==> old(player).y + old(player).velocity.jumping
            <= i64::MAX,
        i64::MIN <= old(player).x + spec_walled(*old(player)) <= i64::MAX,
    ensures
        *final(player) == spec_moving(*old(player)),
        final(player).wf(),
{
    if player.velocity.jumping > 0 {
        proof {
            lemma_jump_decay(player.velocity.jumping as int);
        }
        player.y = player.y + player.velocity.jumping;
        player.velocity.jumping = player.velocity.jumping - JUMP_DECAY;
    }
    if player.velocity.current != 0 {
        if player.blocked_left && player.velocity.current < 0 {
            player.velocity.current = 0;
        }
        if player.blocked_right && player.velocity.current > 0 {
            player.velocity.current = 0;
        }
        player.x = player.x + player.velocity.current;
    }
    player.velocity.current = approach(player.velocity.current, player.velocity.target);
}

/// The player after gravity has acted at `now`: it falls by `GRAVITY_STEP`
/// where the ground has not been touched for more than `GRAVITY_DELAY_MS`.
pub open spec fn spec_gravity(player: Player, now: u64) -> Player {
    if spec_elapsed(now, player.last_grounded) > GRAVITY_DELAY_MS {
        Player { y: (player.y - GRAVITY_STEP) as i64, ..player }
    } else {
        player
    }
}

/// Lets gravity act at `now`. Where it acts, the player must have room to
/// fall within the coordinates.
pub fn gravity(player: &mut Player, now: u64)
    requires
        spec_elapsed(now, old(player).last_grounded) > GRAVITY_DELAY_MS ==> old(player).y
            - GRAVITY_STEP >= i64::MIN,
    ensures
        *final(player) == spec_gravity(*old(player), now),
{
    if now > player.last_grounded && now - player.last_grounded > GRAVITY_DELAY_MS {
        player.y = player.y - GRAVITY_STEP;
    }
}

/// Whether the player has fallen out of the level.
pub open spec fn spec_fallen(player: Player) -> bool {
    player.y < DEATH_Y
}

/// Whether the player has fallen out of the level: it is below `DEATH_Y`.
pub fn death_by_fall(player: &Player) -> (fallen: bool)
    ensures
        fallen == spec_fallen(*player),
{
    player.y < DEATH_Y
}

/// The frames of the player without and with the power-up.
pub open spec fn spec_animation_indices(powered_up: bool) -> AnimationIndices {
    if powered_up {
        AnimationIndices { move_1: 3, move_2: 44, jump: 31 }
    } else {
        AnimationIndices { move_1: 0, move_2: 7, jump: 35 }
    }
}

/// The frames of the player without and with the power-up.
pub fn animation_indices(powered_up: bool) -> (indices: AnimationIndices)
    ensures
        indices == spec_animation_indices(powered_up),
{
    if powered_up {
        AnimationIndices { move_1: 3, move_2: 44, jump: 31 }
    } else {
        AnimationIndices { move_1: 0, move_2: 7, jump: 35 }
    }
}

/// The walk phase after one more step: it counts up to the cadence and
/// starts again at zero.
pub open spec fn spec_next_phase(phase: u8) -> u8 {
    if phase >= WALK_CADENCE - 1 {
        0
    } else {
        (phase + 1) as u8
    }
}

/// The player after its frame was chosen for a tick in which it moved.
///
/// During a jump the frame is the jump frame and the walk phase rests.
/// Otherwise the walk phase advances, and each time it starts again the
/// frame changes: to the second walk frame from the first, to the first from
/// any other. The player looks left when it moves left, right when it moves
/// right, and keeps looking where it looked when it does not move.
pub open spec fn spec_animation(player: Player) -> Player {
    let indices = spec_animation_indices(player.powered_up);
    let jumps = player.velocity.jumping > 0;
    let phase = if jumps {
        player.walk_phase
    } else {
        spec_next_phase(player.walk_phase)
    };
    Player {
        frame: if jumps {
            indices.jump
        } else if phase == 0 {
            if player.frame == indices.move_1 {
                indices.move_2
            } else {
                indices.move_1
            }
        } else {
            player.frame
        },
        walk_phase: phase,
        facing_left: if player.velocity.current < 0 {
            true
        } else if player.velocity.current > 0 {
            false
        } else {
            player.facing_left
        },
        ..player
    }
}

/// Chooses the frame and the facing of a player that has moved in this tick.
pub fn player_animation(player: &mut Player)
    ensures
        *final(player) == spec_animation(*old(player)),
        old(player).wf() ==> final(player).wf(),
{
    let indices = animation_indices(player.powered_up);
    if player.velocity.jumping > 0 {
        player.frame = indices.jump;
    } else {
        if player.walk_phase >= WALK_CADENCE - 1 {
            player.walk_phase = 0;
            player.frame = if player.frame == indices.move_1 {
                indices.move_2
            } else {
                indices.move_1
            };
        } else {
            player.walk_phase = player.walk_phase + 1;
        }
    }
    if player.velocity.current < 0 {
        player.facing_left = true;
    } else if player.velocity.current > 0 {
        player.facing_left = false;
    }
}

/// With jump pressed, the jump starts exactly when the ground was touched
/// less than `JUMP_WINDOW_MS` before `now`; at any later time the press
/// changes nothing of the jump impulse.
pub proof fn lemma_jump_window(player: Player, input: Input, now: u64)
    requires
        input.jump,
    ensures
        spec_elapsed(now, player.last_grounded) < JUMP_WINDOW_MS ==> spec_control(
            player,
            input,
            now,
        ).velocity.jumping == JUMP_LAUNCH,
        spec_elapsed(now, player.last_grounded) >= JUMP_WINDOW_MS ==> spec_control(
            player,
            input,
            now,
        ).velocity.jumping == player.velocity.jumping,
{
}

/// A speed that has not reached its target is, after one approach, zero or
/// of a magnitude of at least `SNAP_BELOW`: the rounding never brings a speed
/// that was kept below the threshold.
pub proof fn lemma_approach_leaves_no_creep(current: int, target: int)
    requires
        current != target,
    ensures
        ({
            let next = spec_approach(current, target);
            next == 0 || next <= -SNAP_BELOW || next >= SNAP_BELOW
        }),
{
}

/// With the target at rest, one tick of motion leaves no speed of a
/// magnitude below `SNAP_BELOW` but zero, and leaves no speed of a greater
/// magnitude than before. A speed of which nine tenths have a magnitude below
/// `SNAP_BELOW` is exactly zero after the tick.
pub proof fn lemma_snap_to_rest(player: Player)
    requires
        player.wf(),
        player.velocity.target == 0,
    ensures
        ({
            let next = spec_moving(player).velocity.current;
            next == 0 || next <= -SNAP_BELOW || next >= SNAP_BELOW
        }),
        ({
            let next = spec_moving(player).velocity.current;
            if player.velocity.current >= 0 {
                0 <= next <= player.velocity.current
            } else {
                player.velocity.current <= next <= 0
            }
        }),
        -SNAP_BELOW * EASE_DIVISOR < (EASE_DIVISOR - 1) * player.velocity.current < SNAP_BELOW
            * EASE_DIVISOR ==> spec_moving(player).velocity.current == 0,
{
}

} // verus!
