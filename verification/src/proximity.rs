//! Events that the player raises by coming near a flag or a power-up.

use crate::player::Player;
use crate::world::WorldObject;
use vstd::prelude::*;

verus! {

/// An object nearer to the player than this raises its event.
pub const TRIGGER_DISTANCE: i128 = 50_000;

/// The square of `TRIGGER_DISTANCE`.
pub const TRIGGER_DISTANCE_SQUARED: i128 = 2_500_000_000;

/// The player is near the object: the distance between their centres is
/// below `TRIGGER_DISTANCE`.
pub open spec fn spec_near(player: Player, object: WorldObject) -> bool {
    let dx = player.x - object.x;
    let dy = player.y - object.y;
    dx * dx + dy * dy < TRIGGER_DISTANCE_SQUARED
}

/// The object raises its event: the player is near it and it has raised
/// none before.
pub open spec fn spec_triggers(player: Player, object: WorldObject) -> bool {
    !object.consumed && spec_near(player, object)
}

/// The object after the player was held against it: consumed once the
/// player is near, otherwise as before.
pub open spec fn spec_consume(player: Player, object: WorldObject) -> WorldObject {
    WorldObject { consumed: object.consumed || spec_near(player, object), ..object }
}

/// The objects after the player was held against each of them.
pub open spec fn spec_consume_all(player: Player, objects: Seq<WorldObject>) -> Seq<WorldObject> {
    Seq::new(objects.len(), |i: int| spec_consume(player, objects[i]))
}

/// The indices of the objects that raise their event, in rising order.
pub open spec fn spec_triggered(player: Player, objects: Seq<WorldObject>) -> Seq<usize>
    decreases objects.len(),
{
    if objects.len() == 0 {
        Seq::empty()
    } else {
        let before = spec_triggered(player, objects.drop_last());
        if spec_triggers(player, objects.last()) {
            before.push((objects.len() - 1) as usize)
        } else {
            before
        }
    }
}

/// A number whose magnitude is at least `bound` has a square of at least the
/// square of `bound`.
proof fn lemma_square_bound(d: int, bound: int)
    requires
        0 <= bound,
        d >= bound || d <= -bound,
    ensures
        d * d >= bound * bound,
{
    assert(d * d >= bound * bound) by (nonlinear_arith)
        requires
            0 <= bound,
            d >= bound || d <= -bound,
    ;
}

/// Whether the player is near the object.
pub fn near(player: &Player, object: &WorldObject) -> (b: bool)
    ensures
        b == spec_near(*player, *object),
{
    let dx: i128 = player.x as i128 - object.x as i128;
    let dy: i128 = player.y as i128 - object.y as i128;
    if dx >= TRIGGER_DISTANCE || dx <= -TRIGGER_DISTANCE {
        proof {
            lemma_square_bound(dx as int, TRIGGER_DISTANCE as int);
            assert(dy * dy >= 0) by (nonlinear_arith);
        }
        return false;
    }
    if dy >= TRIGGER_DISTANCE || dy <= -TRIGGER_DISTANCE {
        proof {
            lemma_square_bound(dy as int, TRIGGER_DISTANCE as int);
            assert(dx * dx >= 0) by (nonlinear_arith);
        }
        return false;
    }
    assert(dx * dx < TRIGGER_DISTANCE_SQUARED) by (nonlinear_arith)
        requires
            -TRIGGER_DISTANCE < dx < TRIGGER_DISTANCE,
    ;
    assert(dy * dy < TRIGGER_DISTANCE_SQUARED) by (nonlinear_arith)
        requires
            -TRIGGER_DISTANCE < dy < TRIGGER_DISTANCE,
    ;
    assert(dx * dx >= 0) by (nonlinear_arith);
    assert(dy * dy >= 0) by (nonlinear_arith);
    dx * dx + dy * dy < TRIGGER_DISTANCE_SQUARED
}

/// Holds the player against every object: each one that the player is near,
/// and that has raised no event yet, raises it now and is consumed. Returns
/// the indices of those that raised it, in rising order.
pub fn trigger_near(player: &Player, objects: &mut Vec<WorldObject>) -> (raised: Vec<usize>)
    ensures
        final(objects)@ == spec_consume_all(*player, old(objects)@),
        raised@ == spec_triggered(*player, old(objects)@),
{
    let mut raised: Vec<usize> = Vec::new();
    let mut i: usize = 0;
    while i < objects.len()
        invariant
            i <= objects@.len(),
            objects@.len() == old(objects)@.len(),
            forall|k: int|
                0 <= k < i ==> #[trigger] objects@[k] == spec_consume(*player, old(objects)@[k]),
            forall|k: int| i <= k < objects@.len() ==> #[trigger] objects@[k] == old(objects)@[k],
            raised@ == spec_triggered(*player, old(objects)@.take(i as int)),
        decreases objects@.len() - i,
    {
        let object: WorldObject = objects[i];
        proof {
            assert(old(objects)@.take(i + 1).drop_last() =~= old(objects)@.take(i as int));
            assert(old(objects)@.take(i + 1).last() == object);
        }
        if near(player, &object) {
            if !object.consumed {
                raised.push(i);
            }
            objects.set(i, WorldObject { consumed: true, ..object });
        }
        i = i + 1;
    }
    proof {
        assert(old(objects)@.take(old(objects)@.len() as int) =~= old(objects)@);
        assert(objects@ =~= spec_consume_all(*player, old(objects)@));
    }
    raised
}

/// Raises the event of every flag that the player has come near: see
/// `trigger_near`.
pub fn near_flag(player: &Player, flags: &mut Vec<WorldObject>) -> (reached: Vec<usize>)
    ensures
        final(flags)@ == spec_consume_all(*player, old(flags)@),
        reached@ == spec_triggered(*player, old(flags)@),
{
    trigger_near(player, flags)
}

/// Raises the event of every power-up that the player has come near, as
/// `trigger_near` does. A power-up that raises its event powers the player
/// up for good; nothing else of the player changes.
pub fn near_power_up(player: &mut Player, power_ups: &mut Vec<WorldObject>) -> (collected: Vec<
    usize,
>)
    ensures
        final(power_ups)@ == spec_consume_all(*old(player), old(power_ups)@),
        collected@ == spec_triggered(*old(player), old(power_ups)@),
        *final(player) == (Player {
            powered_up: old(player).powered_up || collected@.len() > 0,
            ..*old(player)
        }),
{
    let collected = trigger_near(player, power_ups);
    if collected.len() > 0 {
        player.powered_up = true;
    }
    collected
}

/// The indices that `spec_triggered` lists for the objects of a vector are
/// exactly those of the objects that raise their event, each listed once, in
/// rising order.
pub proof fn lemma_triggered_exact(player: Player, objects: Seq<WorldObject>)
    requires
        objects.len() <= usize::MAX,
    ensures
        forall|k: int|
            0 <= k < spec_triggered(player, objects).len() ==> {
                let i = #[trigger] spec_triggered(player, objects)[k];
                i < objects.len() && spec_triggers(player, objects[i as int])
            },
        forall|a: int, b: int|
            0 <= a < b < spec_triggered(player, objects).len() ==> spec_triggered(
                player,
                objects,
            )[a] < spec_triggered(player, objects)[b],
        forall|i: int|
            0 <= i < objects.len() && spec_triggers(player, #[trigger] objects[i])
                ==> spec_triggered(player, objects).contains(i as usize),
    decreases objects.len(),
{
    if objects.len() > 0 {
        let front = objects.drop_last();
        let before = spec_triggered(player, front);
        let all = spec_triggered(player, objects);
        lemma_triggered_exact(player, front);
        assert forall|k: int| 0 <= k < all.len() implies {
            let i = #[trigger] all[k];
            i < objects.len() && spec_triggers(player, objects[i as int])
        } by {
            if k < before.len() {
                assert(all[k] == before[k]);
                assert(front[before[k] as int] == objects[before[k] as int]);
            }
        }
        assert forall|a: int, b: int| 0 <= a < b < all.len() implies all[a] < all[b] by {
            assert(all[a] == before[a]);
            if b < before.len() {
                assert(all[b] == before[b]);
            }
        }
        assert forall|i: int|
            0 <= i < objects.len() && spec_triggers(player, #[trigger] objects[i]) implies all.contains(
            i as usize,
        ) by {
            if i < front.len() {
                assert(front[i] == objects[i]);
                assert(before.contains(i as usize));
                let k = choose|k: int| 0 <= k < before.len() && before[k] == i as usize;
                assert(all[k] == i as usize);
            } else {
                assert(all[all.len() - 1] == i as usize);
            }
        }
    }
}

/// Objects of which none raises its event give an empty list.
proof fn lemma_triggered_none(player: Player, objects: Seq<WorldObject>)
    requires
        forall|i: int| 0 <= i < objects.len() ==> !spec_triggers(player, #[trigger] objects[i]),
    ensures
        spec_triggered(player, objects) == Seq::<usize>::empty(),
    decreases objects.len(),
{
    if objects.len() > 0 {
        let front = objects.drop_last();
        assert forall|i: int| 0 <= i < front.len() implies !spec_triggers(
            player,
            #[trigger] front[i],
        ) by {
            assert(front[i] == objects[i]);
        }
        lemma_triggered_none(player, front);
        assert(!spec_triggers(player, objects[objects.len() - 1]));
    }
}

/// An object raises its event at most once: after the player was held
/// against it while near, it raises none again, wherever the player is
/// later. So the player held a second time against the same objects, without
/// having moved, raises no event at all.
pub proof fn lemma_no_second_event(player: Player, later: Player, objects: Seq<WorldObject>)
    ensures
        forall|i: int|
            0 <= i < objects.len() && spec_near(player, #[trigger] objects[i]) ==> !spec_triggers(
                later,
                spec_consume_all(player, objects)[i],
            ),
        spec_triggered(player, spec_consume_all(player, objects)) == Seq::<usize>::empty(),
        spec_consume_all(player, spec_consume_all(player, objects)) == spec_consume_all(
            player,
            objects,
        ),
{
    let consumed = spec_consume_all(player, objects);
    lemma_triggered_none(player, consumed);
    assert(spec_consume_all(player, consumed) =~= consumed);
}

} // verus!
