//! Contact of the player with the ground blocks.

use crate::player::Player;
use crate::world::WorldObject;
use vstd::prelude::*;

verus! {

/// Half the width of the player's box per hundredth of scale: eight tenths
/// of half the sprite's 128 world units.
pub const PLAYER_HALF_WIDTH: i128 = 512;

/// Half the height of the player's box per hundredth of scale: eight tenths
/// of half of five eighths of the sprite's 256 world units.
pub const PLAYER_HALF_HEIGHT: i128 = 640;

/// How far the centre of the player's box lies below the player's position.
pub const PLAYER_BOX_DROP: i128 = 32_000;

/// Half the side of a ground block per hundredth of scale: half of 128 world
/// units.
pub const GROUND_HALF_SIDE: i128 = 640;

/// How far the player's foot line lies below its position per hundredth of
/// scale: a quarter of the sprite's 256 world units.
pub const FOOT_DROP: i128 = 640;

/// A block that reaches higher than this much below the foot line is a wall.
pub const GROUND_TOLERANCE: i128 = 2_000;

/// An axis-aligned box, its borders included. The bounds are wide enough to
/// hold the box of any position at any scale.
#[derive(Clone, Copy, Debug, PartialEq, Eq, Structural)]
pub struct Aabb {
    pub min_x: i128,
    pub min_y: i128,
    pub max_x: i128,
    pub max_y: i128,
}

/// What the player touches in one tick.
#[derive(Clone, Copy, Debug, PartialEq, Eq, Structural)]
pub struct Contact {
    /// The player stands on a block.
    pub grounded: bool,
    /// A wall touches the player on the left.
    pub blocked_left: bool,
    /// A wall touches the player on the right.
    pub blocked_right: bool,
}

impl Aabb {
    /// The box around `(x, y)` that reaches `half_width` to each side and
    /// `half_height` up and down.
    pub open spec fn spec_around(x: int, y: int, half_width: int, half_height: int) -> Aabb {
        Aabb {
            min_x: (x - half_width) as i128,
            min_y: (y - half_height) as i128,
            max_x: (x + half_width) as i128,
            max_y: (y + half_height) as i128,
        }
    }

    /// Two boxes intersect when they share a point: in both directions
    /// neither begins after the other ends.
    pub open spec fn spec_intersects(self, other: Aabb) -> bool {
        &&& self.min_x <= other.max_x
        &&& other.min_x <= self.max_x
        &&& self.min_y <= other.max_y
        &&& other.min_y <= self.max_y
    }

    /// Whether the two boxes share a point.
    pub fn intersects(&self, other: &Aabb) -> (hit: bool)
        ensures
            hit == self.spec_intersects(*other),
    {
        self.min_x <= other.max_x && other.min_x <= self.max_x && self.min_y <= other.max_y
            && other.min_y <= self.max_y
    }
}

/// The box of the player: narrower and lower than its sprite, and centred
/// below the player's position.
pub open spec fn spec_player_aabb(player: Player) -> Aabb {
    Aabb::spec_around(
        player.x as int,
        player.y - PLAYER_BOX_DROP,
        PLAYER_HALF_WIDTH * player.scale,
        PLAYER_HALF_HEIGHT * player.scale,
    )
}

/// The box of a ground block: the whole tile.
pub open spec fn spec_ground_aabb(block: WorldObject) -> Aabb {
    Aabb::spec_around(
        block.x as int,
        block.y as int,
        GROUND_HALF_SIDE * block.scale,
        GROUND_HALF_SIDE * block.scale,
    )
}

/// The height of the block's top surface.
pub open spec fn spec_block_top(block: WorldObject) -> int {
    block.y + GROUND_HALF_SIDE * block.scale
}

/// The height of the player's foot line.
pub open spec fn spec_foot_line(player: Player) -> int {
    player.y - FOOT_DROP * player.scale
}

/// The block touches the player.
pub open spec fn spec_touches(player: Player, block: WorldObject) -> bool {
    spec_ground_aabb(block).spec_intersects(spec_player_aabb(player))
}

/// The block counts as a wall, not as ground: its top surface lies above the
/// foot line less the tolerance.
pub open spec fn spec_is_wall(player: Player, block: WorldObject) -> bool {
    spec_block_top(block) > spec_foot_line(player) - GROUND_TOLERANCE
}

/// The player stands on the block.
pub open spec fn spec_stands_on(player: Player, block: WorldObject) -> bool {
    spec_touches(player, block) && !spec_is_wall(player, block)
}

/// The block is a wall on the player's left: its centre lies left of the
/// player's.
pub open spec fn spec_walls_left(player: Player, block: WorldObject) -> bool {
    spec_touches(player, block) && spec_is_wall(player, block) && block.x < player.x
}

/// The block is a wall on the player's right: its centre does not lie left
/// of the player's.
pub open spec fn spec_walls_right(player: Player, block: WorldObject) -> bool {
    spec_touches(player, block) && spec_is_wall(player, block) && block.x >= player.x
}

/// What the player touches among `blocks`: it is grounded when it stands on
/// one of them, and blocked on a side when one of them is a wall there.
pub open spec fn spec_contact(player: Player, blocks: Seq<WorldObject>) -> Contact {
    Contact {
        grounded: exists|i: int| 0 <= i < blocks.len() && spec_stands_on(player, #[trigger] blocks[i]),
        blocked_left: exists|i: int|
            0 <= i < blocks.len() && spec_walls_left(player, #[trigger] blocks[i]),
        blocked_right: exists|i: int|
            0 <= i < blocks.len() && spec_walls_right(player, #[trigger] blocks[i]),
    }
}

/// The box of the player.
pub fn player_aabb(player: &Player) -> (aabb: Aabb)
    ensures
        aabb == spec_player_aabb(*player),
{
    let x: i128 = player.x as i128;
    let y: i128 = player.y as i128 - PLAYER_BOX_DROP;
    let half_width: i128 = PLAYER_HALF_WIDTH * (player.scale as i128);
    let half_height: i128 = PLAYER_HALF_HEIGHT * (player.scale as i128);
    Aabb {
        min_x: x - half_width,
        min_y: y - half_height,
        max_x: x + half_width,
        max_y: y + half_height,
    }
}

/// The box of a ground block.
pub fn ground_aabb(block: &WorldObject) -> (aabb: Aabb)
    ensures
        aabb == spec_ground_aabb(*block),
{
    let x: i128 = block.x as i128;
    let y: i128 = block.y as i128;
    let half: i128 = GROUND_HALF_SIDE * (block.scale as i128);
    Aabb { min_x: x - half, min_y: y - half, max_x: x + half, max_y: y + half }
}

/// Whether the block counts as a wall for the player.
pub fn is_wall(player: &Player, block: &WorldObject) -> (wall: bool)
    ensures
        wall == spec_is_wall(*player, *block),
{
    let top: i128 = block.y as i128 + GROUND_HALF_SIDE * (block.scale as i128);
    let foot: i128 = player.y as i128 - FOOT_DROP * (player.scale as i128);
    top > foot - GROUND_TOLERANCE
}

/// The player once its contact at `now` is known: standing on ground sets
/// the time it was last grounded, and the wall flags are those of the contact.
pub open spec fn spec_on_ground(player: Player, contact: Contact, now: u64) -> Player {
    Player {
        last_grounded: if contact.grounded {
            now
        } else {
            player.last_grounded
        },
        blocked_left: contact.blocked_left,
        blocked_right: contact.blocked_right,
        ..player
    }
}

/// Finds what the player touches among `blocks` at `now`, and records it in
/// the player.
///
/// The contact is found anew from the positions alone: what was recorded
/// before plays no part. A block that touches the player is a wall when its
/// top surface lies above the foot line less the tolerance, on the left when
/// its centre lies left of the player's, else on the right; every other
/// block that touches the player is ground under it.
pub fn on_ground(player: &mut Player, blocks: &[WorldObject], now: u64) -> (contact: Contact)
    ensures
        contact == spec_contact(*old(player), blocks@),
        *final(player) == spec_on_ground(*old(player), contact, now),
        old(player).wf() ==> final(player).wf(),
{
    let mut contact = Contact { grounded: false, blocked_left: false, blocked_right: false };
    let aabb = player_aabb(player);
    let mut i: usize = 0;
    while i < blocks.len()
        invariant
            i <= blocks@.len(),
            *player == *old(player),
            aabb == spec_player_aabb(*player),
            contact == spec_contact(*player, blocks@.take(i as int)),
        decreases blocks@.len() - i,
    {
        let block = &blocks[i];
        let ghost seen = blocks@.take(i as int);
        let ghost more = blocks@.take(i + 1);
        proof {
            assert(more[i as int] == *block);
            assert(forall|k: int| 0 <= k < i ==> seen[k] == more[k]);
        }
        if ground_aabb(block).intersects(&aabb) {
            if is_wall(player, block) {
                if block.x < player.x {
                    contact.blocked_left = true;
                } else {
                    contact.blocked_right = true;
                }
            } else {
                contact.grounded = true;
            }
        }
        proof {
            let next = spec_contact(*player, more);
            assert(contact.grounded == next.grounded);
            assert(contact.blocked_left == next.blocked_left);
            assert(contact.blocked_right == next.blocked_right);
        }
        i = i + 1;
    }
    assert(blocks@.take(blocks@.len() as int) =~= blocks@);
    if contact.grounded {
        player.last_grounded = now;
    }
    player.blocked_left = contact.blocked_left;
    player.blocked_right = contact.blocked_right;
    contact
}

/// A single block that touches the player, and whose top surface lies at
/// least the tolerance below the foot line, grounds the player and blocks it
/// on neither side.
pub proof fn lemma_single_block_grounds(player: Player, block: WorldObject)
    requires
        spec_touches(player, block),
        spec_block_top(block) <= spec_foot_line(player) - GROUND_TOLERANCE,
    ensures
        spec_contact(player, seq![block]) == (Contact {
            grounded: true,
            blocked_left: false,
            blocked_right: false,
        }),
{
    let blocks = seq![block];
    assert(spec_stands_on(player, blocks[0]));
}

/// A single block that touches the player, whose top surface lies above the
/// foot line less the tolerance, and whose centre lies left of the player's,
/// blocks the player on the left; the player is not grounded and not blocked
/// on the right.
pub proof fn lemma_single_block_walls_left(player: Player, block: WorldObject)
    requires
        spec_touches(player, block),
        spec_block_top(block) > spec_foot_line(player) - GROUND_TOLERANCE,
        block.x < player.x,
    ensures
        spec_contact(player, seq![block]) == (Contact {
            grounded: false,
            blocked_left: true,
            blocked_right: false,
        }),
{
    let blocks = seq![block];
    assert(spec_walls_left(player, blocks[0]));
}

/// A block that does not touch the player adds nothing to its contact, and
/// no block grounds the player and blocks it at once.
pub proof fn lemma_block_contact_exclusive(player: Player, block: WorldObject)
    ensures
        !spec_touches(player, block) ==> spec_contact(player, seq![block]) == (Contact {
            grounded: false,
            blocked_left: false,
            blocked_right: false,
        }),
        !(spec_stands_on(player, block) && spec_walls_left(player, block)),
        !(spec_stands_on(player, block) && spec_walls_right(player, block)),
        !(spec_walls_left(player, block) && spec_walls_right(player, block)),
{
}

} // verus!
