//! The world of one level and its tick.

use crate::collision::{on_ground, spec_contact, spec_on_ground};
use crate::level::Level;
use crate::player::{
    control_player, death_by_fall, gravity, moving, player_animation, spec_animation, spec_control,
    spec_fallen, spec_gravity, spec_moving, Input, Player, GRAVITY_STEP, JUMP_LAUNCH, WALK_SPEED,
};
use crate::proximity::{
    lemma_triggered_exact, near_flag, near_power_up, spec_consume_all, spec_triggered,
};
use crate::world::{
    display_level, lemma_level_objects_in_range, spec_fits, spec_level_objects, ObjectKind,
    WorldObject,
};
use vstd::prelude::*;

verus! {

/// Why a level gives no world.
#[derive(Clone, Copy, Debug, PartialEq, Eq, Structural)]
pub enum WorldError {
    /// The level has no spawn tile, so the world would have no player.
    MissingSpawn,
    /// The level has more than one spawn tile.
    MultipleSpawns,
    /// The level has more rows, or more tiles in a row, than can be placed.
    LevelTooLarge,
}

/// What a tick tells the owner of the game.
#[derive(Clone, Copy, Debug, PartialEq, Eq, Structural)]
pub enum Event {
    /// The player has fallen out of the level; the level is over.
    PlayerFell,
    /// The player has reached the flag of this index; the level is over.
    FlagReached(usize),
    /// The player has collected the power-up of this index.
    PowerUpCollected(usize),
}

/// The world of one level: its one player and its objects by kind.
#[derive(Debug)]
pub struct World {
    pub player: Player,
    pub grounds: Vec<WorldObject>,
    pub flags: Vec<WorldObject>,
    pub power_ups: Vec<WorldObject>,
    /// The level is being played. Once it is over, a tick changes nothing.
    pub active: bool,
}

/// A world as a mathematical value.
pub ghost struct WorldModel {
    pub player: Player,
    pub grounds: Seq<WorldObject>,
    pub flags: Seq<WorldObject>,
    pub power_ups: Seq<WorldObject>,
    pub active: bool,
}

impl View for World {
    type V = WorldModel;

    open spec fn view(&self) -> WorldModel {
        WorldModel {
            player: self.player,
            grounds: self.grounds@,
            flags: self.flags@,
            power_ups: self.power_ups@,
            active: self.active,
        }
    }
}

/// The test for objects of one kind.
pub open spec fn spec_has_kind(kind: ObjectKind) -> spec_fn(WorldObject) -> bool {
    |object: WorldObject| object.kind == kind
}

/// The objects of one kind, in their order.
pub open spec fn spec_of_kind(objects: Seq<WorldObject>, kind: ObjectKind) -> Seq<WorldObject> {
    objects.filter(spec_has_kind(kind))
}

/// The world that the objects make, where exactly one of them is a player:
/// the player enters at its place, the other objects are kept by kind in
/// their order, and the level is being played.
pub open spec fn spec_world(objects: Seq<WorldObject>) -> Result<WorldModel, WorldError> {
    let players = spec_of_kind(objects, ObjectKind::Player);
    if players.len() == 0 {
        Err(WorldError::MissingSpawn)
    } else if players.len() > 1 {
        Err(WorldError::MultipleSpawns)
    } else {
        Ok(
            WorldModel {
                player: Player::spec_spawn(players[0]),
                grounds: spec_of_kind(objects, ObjectKind::Ground),
                flags: spec_of_kind(objects, ObjectKind::Flag),
                power_ups: spec_of_kind(objects, ObjectKind::PowerUp),
                active: true,
            },
        )
    }
}

/// The result as a mathematical value.
pub open spec fn spec_world_result(res: Result<World, WorldError>) -> Result<
    WorldModel,
    WorldError,
> {
    match res {
        Ok(world) => Ok(world@),
        Err(error) => Err(error),
    }
}

impl World {
    /// Makes the world of the given objects.
    ///
    /// Succeeds exactly when one of the objects is a player. With none the
    /// error is `MissingSpawn`, with several `MultipleSpawns`.
    pub fn from_objects(objects: &[WorldObject]) -> (res: Result<World, WorldError>)
        ensures
            spec_world_result(res) == spec_world(objects@),
            res is Ok ==> res->Ok_0.player.wf(),
            res is Ok && (forall|i: int| 0 <= i < objects@.len() ==> (#[trigger] objects@[i]).in_range())
                ==> res->Ok_0.player.in_range(),
    {
        let mut players: Vec<WorldObject> = Vec::new();
        let mut grounds: Vec<WorldObject> = Vec::new();
        let mut flags: Vec<WorldObject> = Vec::new();
        let mut power_ups: Vec<WorldObject> = Vec::new();
        let mut i: usize = 0;
        while i < objects.len()
            invariant
                i <= objects@.len(),
                players@ == spec_of_kind(objects@.take(i as int), ObjectKind::Player),
                grounds@ == spec_of_kind(objects@.take(i as int), ObjectKind::Ground),
                flags@ == spec_of_kind(objects@.take(i as int), ObjectKind::Flag),
                power_ups@ == spec_of_kind(objects@.take(i as int), ObjectKind::PowerUp),
                forall|k: int| 0 <= k < players@.len() ==> objects@.contains(#[trigger] players@[k]),
            decreases objects@.len() - i,
        {
            let object: WorldObject = objects[i];
            proof {
                reveal(Seq::filter);
                assert(objects@.take(i + 1).drop_last() =~= objects@.take(i as int));
                assert(objects@.take(i + 1).last() == object);
            }
            match object.kind {
                ObjectKind::Player => players.push(object),
                ObjectKind::Ground => grounds.push(object),
                ObjectKind::Flag => flags.push(object),
                ObjectKind::PowerUp => power_ups.push(object),
            }
            i = i + 1;
        }
        proof {
            reveal(Seq::filter);
            assert(objects@.take(objects@.len() as int) =~= objects@);
        }
        if players.len() == 0 {
            Err(WorldError::MissingSpawn)
        } else if players.len() > 1 {
            Err(WorldError::MultipleSpawns)
        } else {
            Ok(World { player: Player::spawn(&players[0]), grounds, flags, power_ups, active: true })
        }
    }

    /// Makes the world of a level: places its tiles and makes the world of
    /// the objects.
    ///
    /// Succeeds exactly when the level can be placed and has one spawn tile.
    /// A level too large to be placed gives `LevelTooLarge`.
    pub fn from_level(level: &Level) -> (res: Result<World, WorldError>)
        ensures
            spec_world_result(res) == if spec_fits(level@) {
                spec_world(spec_level_objects(level@, level@.len() as int))
            } else {
                Err(WorldError::LevelTooLarge)
            },
            res is Ok ==> res->Ok_0.player.wf() && res->Ok_0.player.in_range(),
    {
        if !level.fits() {
            return Err(WorldError::LevelTooLarge);
        }
        let objects = display_level(level);
        proof {
            lemma_level_objects_in_range(level@, level@.len() as int);
        }
        World::from_objects(objects.as_slice())
    }
}

/// The player after the steps of one tick that move it: the controls are
/// read, the contact with the ground is found, the player moves, and gravity
/// acts.
pub open spec fn spec_advance(player: Player, grounds: Seq<WorldObject>, input: Input, now: u64)
    -> Player {
    let steered = spec_control(player, input, now);
    let landed = spec_on_ground(steered, spec_contact(steered, grounds), now);
    spec_gravity(spec_moving(landed), now)
}

/// The events of the flags reached and of the power-ups collected, the
/// flags first, each kind by rising index.
pub open spec fn spec_events(reached: Seq<usize>, collected: Seq<usize>) -> Seq<Event> {
    reached.map_values(|i: usize| Event::FlagReached(i)) + collected.map_values(
        |i: usize| Event::PowerUpCollected(i),
    )
}

/// The world after one tick at `now`, and the events that the tick raises.
///
/// A world whose level is over does not change and raises nothing. A player
/// that has fallen out of the level ends it: nothing moves, and the one event
/// is `PlayerFell`. Otherwise the player advances; then the flags and the
/// power-ups that it has come near raise their events and are consumed, a
/// power-up collected powers the player up, and a flag reached ends the
/// level; at last, where the position has changed, the frame is chosen.
pub open spec fn spec_tick(world: WorldModel, input: Input, now: u64) -> (WorldModel, Seq<Event>) {
    if !world.active {
        (world, Seq::empty())
    } else if spec_fallen(world.player) {
        (WorldModel { active: false, ..world }, seq![Event::PlayerFell])
    } else {
        let moved = spec_advance(world.player, world.grounds, input, now);
        let reached = spec_triggered(moved, world.flags);
        let collected = spec_triggered(moved, world.power_ups);
        let powered = Player { powered_up: moved.powered_up || collected.len() > 0, ..moved };
        (
            WorldModel {
                player: if powered.x != world.player.x || powered.y != world.player.y {
                    spec_animation(powered)
                } else {
                    powered
                },
                grounds: world.grounds,
                flags: spec_consume_all(moved, world.flags),
                power_ups: spec_consume_all(moved, world.power_ups),
                active: reached.len() == 0,
            },
            spec_events(reached, collected),
        )
    }
}

impl World {
    /// Advances the world by one tick at `now` and returns the events that
    /// the tick raises: see `spec_tick`.
    pub fn tick(&mut self, input: Input, now: u64) -> (events: Vec<Event>)
        requires
            old(self).player.wf(),
            old(self).player.in_range(),
        ensures
            (final(self)@, events@) == spec_tick(old(self)@, input, now),
            final(self).player.wf(),
    {
        let mut events: Vec<Event> = Vec::new();
        if !self.active {
            return events;
        }
        if death_by_fall(&self.player) {
            self.active = false;
            events.push(Event::PlayerFell);
            assert(events@ =~= seq![Event::PlayerFell]);
            return events;
        }
        let x: i64 = self.player.x;
        let y: i64 = self.player.y;
        control_player(&mut self.player, input, now);
        on_ground(&mut self.player, self.grounds.as_slice(), now);
        moving(&mut self.player);
        gravity(&mut self.player, now);
        let reached = near_flag(&self.player, &mut self.flags);
        let collected = near_power_up(&mut self.player, &mut self.power_ups);
        if self.player.x != x || self.player.y != y {
            player_animation(&mut self.player);
        }
        if reached.len() > 0 {
            self.active = false;
        }
        let mut i: usize = 0;
        while i < reached.len()
            invariant
                i <= reached@.len(),
                events@ == reached@.take(i as int).map_values(|i: usize| Event::FlagReached(i)),
            decreases reached@.len() - i,
        {
            events.push(Event::FlagReached(reached[i]));
            assert(events@ =~= reached@.take(i + 1).map_values(|i: usize| Event::FlagReached(i)));
            i = i + 1;
        }
        assert(reached@.take(reached@.len() as int) =~= reached@);
        let mut k: usize = 0;
        while k < collected.len()
            invariant
                k <= collected@.len(),
                events@ == spec_events(reached@, collected@.take(k as int)),
            decreases collected@.len() - k,
        {
            events.push(Event::PowerUpCollected(collected[k]));
            assert(events@ =~= spec_events(reached@, collected@.take(k + 1)));
            k = k + 1;
        }
        assert(collected@.take(collected@.len() as int) =~= collected@);
        events
    }
}

/// A tick changes nothing of a world whose level is over, and raises no
/// event.
pub proof fn lemma_inactive_world_rests(world: WorldModel, input: Input, now: u64)
    requires
        !world.active,
    ensures
        spec_tick(world, input, now) == (world, Seq::<Event>::empty()),
{
}

/// A player that has fallen out of a level being played ends the level in
/// the next tick: the tick raises `PlayerFell` and nothing else, the level is
/// over, and nothing has moved. No later tick moves anything.
pub proof fn lemma_fall_ends_level(
    world: WorldModel,
    input: Input,
    now: u64,
    later_input: Input,
    later: u64,
)
    requires
        world.active,
        spec_fallen(world.player),
    ensures
        spec_tick(world, input, now).1 == seq![Event::PlayerFell],
        spec_tick(world, input, now).0 == (WorldModel { active: false, ..world }),
        spec_tick(spec_tick(world, input, now).0, later_input, later) == (
            spec_tick(world, input, now).0,
            Seq::<Event>::empty(),
        ),
{
}

/// The events of a tick name a flag exactly when it was reached, and a
/// power-up exactly when it was collected.
proof fn lemma_events_contain(reached: Seq<usize>, collected: Seq<usize>, i: usize)
    ensures
        spec_events(reached, collected).contains(Event::FlagReached(i)) <==> reached.contains(i),
        spec_events(reached, collected).contains(Event::PowerUpCollected(i)) <==> collected.contains(
            i,
        ),
        !spec_events(reached, collected).contains(Event::PlayerFell),
{
    let flags = reached.map_values(|i: usize| Event::FlagReached(i));
    let power_ups = collected.map_values(|i: usize| Event::PowerUpCollected(i));
    let events = spec_events(reached, collected);
    assert forall|k: int| 0 <= k < events.len() implies (#[trigger] events[k]) == (if k
        < reached.len() {
        Event::FlagReached(reached[k])
    } else {
        Event::PowerUpCollected(collected[k - reached.len()])
    }) by {
        if k < reached.len() {
            assert(events[k] == flags[k]);
        } else {
            assert(events[k] == power_ups[k - reached.len()]);
        }
    }
    if reached.contains(i) {
        let k = choose|k: int| 0 <= k < reached.len() && reached[k] == i;
        assert(events[k] == Event::FlagReached(i));
    }
    if collected.contains(i) {
        let k = choose|k: int| 0 <= k < collected.len() && collected[k] == i;
        assert(events[reached.len() + k] == Event::PowerUpCollected(i));
    }
    if events.contains(Event::FlagReached(i)) {
        let k = choose|k: int| 0 <= k < events.len() && events[k] == Event::FlagReached(i);
        assert(reached[k] == i);
    }
    if events.contains(Event::PowerUpCollected(i)) {
        let k = choose|k: int| 0 <= k < events.len() && events[k] == Event::PowerUpCollected(i);
        assert(collected[k - reached.len()] == i);
    }
    if events.contains(Event::PlayerFell) {
        let k = choose|k: int| 0 <= k < events.len() && events[k] == Event::PlayerFell;
        assert(events[k] != Event::PlayerFell);
    }
}

/// A power-up that a tick names as collected was not consumed before the
/// tick and is consumed after it; the same holds of a flag reached.
pub proof fn lemma_raised_is_consumed(world: WorldModel, input: Input, now: u64, i: usize)
    requires
        world.flags.len() <= usize::MAX,
        world.power_ups.len() <= usize::MAX,
    ensures
        spec_tick(world, input, now).1.contains(Event::PowerUpCollected(i)) ==> {
            &&& i < world.power_ups.len()
            &&& !world.power_ups[i as int].consumed
            &&& spec_tick(world, input, now).0.power_ups[i as int].consumed
        },
        spec_tick(world, input, now).1.contains(Event::FlagReached(i)) ==> {
            &&& i < world.flags.len()
            &&& !world.flags[i as int].consumed
            &&& spec_tick(world, input, now).0.flags[i as int].consumed
        },
{
    let events = spec_tick(world, input, now).1;
    if !world.active {
        assert(!events.contains(Event::PowerUpCollected(i)));
        assert(!events.contains(Event::FlagReached(i)));
    } else if spec_fallen(world.player) {
        assert(events[0] == Event::PlayerFell);
        assert(!events.contains(Event::PowerUpCollected(i)));
        assert(!events.contains(Event::FlagReached(i)));
    } else {
        let moved = spec_advance(world.player, world.grounds, input, now);
        let reached = spec_triggered(moved, world.flags);
        let collected = spec_triggered(moved, world.power_ups);
        lemma_events_contain(reached, collected, i);
        lemma_triggered_exact(moved, world.flags);
        lemma_triggered_exact(moved, world.power_ups);
        if collected.contains(i) {
            let k = choose|k: int| 0 <= k < collected.len() && collected[k] == i;
            assert(collected[k] == i);
        }
        if reached.contains(i) {
            let k = choose|k: int| 0 <= k < reached.len() && reached[k] == i;
            assert(reached[k] == i);
        }
    }
}

/// A consumed power-up stays consumed through a tick, and the tick does not
/// name it as collected; the same holds of a consumed flag. So no sequence of
/// ticks raises the event of one object twice.
pub proof fn lemma_consumed_raises_nothing(world: WorldModel, input: Input, now: u64, i: usize)
    requires
        world.flags.len() <= usize::MAX,
        world.power_ups.len() <= usize::MAX,
    ensures
        i < world.power_ups.len() && world.power_ups[i as int].consumed ==> {
            &&& spec_tick(world, input, now).0.power_ups[i as int].consumed
            &&& !spec_tick(world, input, now).1.contains(Event::PowerUpCollected(i))
        },
        i < world.flags.len() && world.flags[i as int].consumed ==> {
            &&& spec_tick(world, input, now).0.flags[i as int].consumed
            &&& !spec_tick(world, input, now).1.contains(Event::FlagReached(i))
        },
{
    lemma_raised_is_consumed(world, input, now, i);
}

/// Each step of a tick writes only what is its own: reading the controls
/// changes nothing but the target speed and the jump impulse; finding the
/// contact changes nothing but the time last grounded and the wall flags;
/// motion and gravity change nothing but position and velocity; choosing the
/// frame changes nothing but frame, walk phase and facing.
pub proof fn lemma_sole_writers(
    player: Player,
    grounds: Seq<WorldObject>,
    input: Input,
    now: u64,
)
    ensures
        spec_control(player, input, now) == (Player {
            velocity: spec_control(player, input, now).velocity,
            ..player
        }),
        spec_control(player, input, now).velocity.current == player.velocity.current,
        spec_on_ground(player, spec_contact(player, grounds), now) == (Player {
            last_grounded: spec_on_ground(player, spec_contact(player, grounds), now).last_grounded,
            blocked_left: spec_contact(player, grounds).blocked_left,
            blocked_right: spec_contact(player, grounds).blocked_right,
            ..player
        }),
        spec_moving(player) == (Player {
            x: spec_moving(player).x,
            y: spec_moving(player).y,
            velocity: spec_moving(player).velocity,
            ..player
        }),
        spec_gravity(player, now) == (Player { y: spec_gravity(player, now).y, ..player }),
        spec_animation(player) == (Player {
            frame: spec_animation(player).frame,
            walk_phase: spec_animation(player).walk_phase,
            facing_left: spec_animation(player).facing_left,
            ..player
        }),
{
}

/// A tick moves a well-formed player in range by no more than the walking
/// speed sideways, by no more than the launch impulse upwards and by no more
/// than one step of gravity downwards.
pub proof fn lemma_tick_displacement(world: WorldModel, input: Input, now: u64)
    requires
        world.player.wf(),
        world.player.in_range(),
    ensures
        ({
            let next = spec_tick(world, input, now).0.player;
            &&& -WALK_SPEED <= next.x - world.player.x <= WALK_SPEED
            &&& -GRAVITY_STEP <= next.y - world.player.y <= JUMP_LAUNCH
        }),
{
}

/// The world after the ticks of `steps`, each a pair of the controls and the
/// time of one tick, taken in their order, and the events of all of them in
/// the order in which they were raised.
pub open spec fn spec_run(world: WorldModel, steps: Seq<(Input, u64)>) -> (WorldModel, Seq<Event>)
    decreases steps.len(),
{
    if steps.len() == 0 {
        (world, Seq::empty())
    } else {
        let (before, raised) = spec_run(world, steps.drop_last());
        let (after, events) = spec_tick(before, steps.last().0, steps.last().1);
        (after, raised + events)
    }
}

/// Only a tick of a level that is being played, with a player that has not
/// fallen out of it, changes the player: where either fails, neither the
/// position nor the velocity nor anything else of the player is written.
pub proof fn lemma_only_live_player_moves(world: WorldModel, input: Input, now: u64)
    ensures
        !world.active || spec_fallen(world.player) ==> spec_tick(world, input, now).0.player
            == world.player,
{
}

/// Once a level is over, no number of ticks changes its world or raises an
/// event.
pub proof fn lemma_level_over_rests(world: WorldModel, steps: Seq<(Input, u64)>)
    requires
        !world.active,
    ensures
        spec_run(world, steps) == (world, Seq::<Event>::empty()),
    decreases steps.len(),
{
    if steps.len() > 0 {
        lemma_level_over_rests(world, steps.drop_last());
        assert(Seq::<Event>::empty() + Seq::<Event>::empty() =~= Seq::<Event>::empty());
    }
}

/// A player that has fallen out of a level being played ends it for good:
/// however many ticks follow, the first raises `PlayerFell`, no other raises
/// anything, and the world is the one in which the player fell, with
/// its level over. Neither position nor velocity is written after the fall.
pub proof fn lemma_fall_is_final(world: WorldModel, steps: Seq<(Input, u64)>)
    requires
        world.active,
        spec_fallen(world.player),
        steps.len() > 0,
    ensures
        spec_run(world, steps) == (WorldModel { active: false, ..world }, seq![Event::PlayerFell]),
    decreases steps.len(),
{
    let fell = seq![Event::PlayerFell];
    if steps.len() == 1 {
        assert(spec_run(world, steps.drop_last()) == (world, Seq::<Event>::empty()));
        assert(Seq::<Event>::empty() + fell =~= fell);
    } else {
        lemma_fall_is_final(world, steps.drop_last());
        assert(fell + Seq::<Event>::empty() =~= fell);
    }
}

/// A power-up that is consumed is named as collected by no tick of any run
/// that follows, and a flag that is consumed is named as reached by none:
/// each object raises its event at most once in the life of a level.
pub proof fn lemma_consumed_never_raises(world: WorldModel, steps: Seq<(Input, u64)>, i: usize)
    requires
        world.flags.len() <= usize::MAX,
        world.power_ups.len() <= usize::MAX,
    ensures
        spec_run(world, steps).0.flags.len() == world.flags.len(),
        spec_run(world, steps).0.power_ups.len() == world.power_ups.len(),
        i < world.power_ups.len() && world.power_ups[i as int].consumed ==> {
            &&& spec_run(world, steps).0.power_ups[i as int].consumed
            &&& !spec_run(world, steps).1.contains(Event::PowerUpCollected(i))
        },
        i < world.flags.len() && world.flags[i as int].consumed ==> {
            &&& spec_run(world, steps).0.flags[i as int].consumed
            &&& !spec_run(world, steps).1.contains(Event::FlagReached(i))
        },
    decreases steps.len(),
{
    if steps.len() > 0 {
        lemma_consumed_never_raises(world, steps.drop_last(), i);
        let (before, raised) = spec_run(world, steps.drop_last());
        let (after, events) = spec_tick(before, steps.last().0, steps.last().1);
        lemma_consumed_raises_nothing(before, steps.last().0, steps.last().1, i);
        let all = raised + events;
        assert forall|e: Event| all.contains(e) implies raised.contains(e) || events.contains(e) by {
            let k = choose|k: int| 0 <= k < all.len() && all[k] == e;
            if k < raised.len() {
                assert(raised[k] == e);
            } else {
                assert(events[k - raised.len()] == e);
            }
        }
    }
}

} // verus!
