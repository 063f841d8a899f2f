//! The poisoned-creature game: the rules that the game's systems apply to each
//! creature, what a frame of the game shows, and the bookkeeping of the fuzzing
//! environment around the game's world. The world itself, its entities and its
//! schedule, is held by the caller, who carries out the commands decided here.
use vstd::prelude::*;

use crate::outcome::{OracleStatus, StepResult};

verus! {

/// The values that health and poison can be given.
pub const VALUE_POOL: [i32; 7] = [10, -10, 42, 99, 141, 0, 9999];

/// One action on the game.
#[derive(Clone, Copy, Debug, PartialEq, Eq, Structural)]
pub enum BevyAction {
    /// Spawn a creature with no components.
    SpawnEmpty,
    /// Despawn the creature at this index of the alive list.
    Despawn(usize),
    /// Give the creature at this index of the alive list this health.
    AddHealth(usize, i32),
    /// Give the creature at this index of the alive list this poison.
    AddPoison(usize, i32),
    /// Run the game's systems once.
    RunSchedule,
}

/// The action the translator picks for the given network head outputs.
pub open spec fn translated(h: Seq<usize>) -> BevyAction {
    let value = VALUE_POOL@[(h[2] % 7) as int];
    if h[0] == 0 {
        BevyAction::SpawnEmpty
    } else if h[0] == 1 {
        BevyAction::Despawn(h[1])
    } else if h[0] == 2 {
        BevyAction::AddHealth(h[1], value)
    } else if h[0] == 3 {
        BevyAction::AddPoison(h[1], value)
    } else {
        BevyAction::RunSchedule
    }
}

/// Turns the outputs of the policy network into a game action.
#[derive(Clone, Copy, Debug)]
pub struct BevyTranslator;

impl BevyTranslator {
    pub fn translate(&self, head_outputs: &[usize]) -> (a: BevyAction)
        requires
            head_outputs@.len() >= 3,
        ensures
            a == translated(head_outputs@),
    {
        let action_type = head_outputs[0];
        let entity_idx = head_outputs[1];
        let value_idx = head_outputs[2] % 7;
        let value = VALUE_POOL[value_idx];
        if action_type == 0 {
            BevyAction::SpawnEmpty
        } else if action_type == 1 {
            BevyAction::Despawn(entity_idx)
        } else if action_type == 2 {
            BevyAction::AddHealth(entity_idx, value)
        } else if action_type == 3 {
            BevyAction::AddPoison(entity_idx, value)
        } else {
            BevyAction::RunSchedule
        }
    }
}

/// The poison left after it has evaporated for one cycle: 10 less while it is
/// positive.
pub open spec fn decayed(poison: i32) -> int {
    if poison > 0 {
        poison - 10
    } else {
        poison as int
    }
}

/// Why a poison cycle stopped the game's systems.
#[derive(Clone, Copy, Debug, PartialEq, Eq, Structural)]
pub enum TickFault {
    /// The health fell out of the range of `i32`.
    Overflow,
    /// The creature reached health 30 under poison 69: the hidden bug.
    Meltdown,
}

/// A creature's components after one poison cycle, and whether the cycle
/// stopped the systems.
#[derive(Clone, Copy, Debug, PartialEq, Eq, Structural)]
pub struct PoisonTick {
    pub health: i32,
    pub poison: i32,
    pub fault: Option<TickFault>,
}

/// One poison cycle on a creature that has both health and poison: the poison
/// evaporates, then the health loses what is left of it. Health 30 under poison
/// 69 is the meltdown. Where the health would leave the range of `i32` the
/// cycle stops with the poison already evaporated and the health untouched, as
/// the subtraction does under overflow checks.
pub fn apply_poison(health: i32, poison: i32) -> (t: PoisonTick)
    ensures
        t.poison == decayed(poison),
        i32::MIN <= health - decayed(poison) <= i32::MAX ==> {
            &&& t.health == health - decayed(poison)
            &&& t.fault == (if t.health == 30 && t.poison == 69 {
                Some(TickFault::Meltdown)
            } else {
                None
            })
        },
        !(i32::MIN <= health - decayed(poison) <= i32::MAX) ==> {
            &&& t.health == health
            &&& t.fault == Some(TickFault::Overflow)
        },
{
    let mut p = poison;
    if p > 0 {
        p = p - 10;
    }
    match health.checked_sub(p) {
        Some(h) => {
            let fault = if h == 30 && p == 69 {
                Some(TickFault::Meltdown)
            } else {
                None
            };
            PoisonTick { health: h, poison: p, fault }
        },
        None => PoisonTick { health, poison: p, fault: Some(TickFault::Overflow) },
    }
}

/// Whether the death check removes a creature with this health.
pub fn is_dead(health: i32) -> (dead: bool)
    ensures
        dead == (health <= 0),
{
    health <= 0
}

/// Poison that has evaporated down to zero or below stays where it is.
pub proof fn lemma_spent_poison_is_stable(poison: i32)
    requires
        poison <= 0,
    ensures
        decayed(poison) == poison,
{
}

/// Positive poison loses exactly 10 each cycle.
pub proof fn lemma_poison_evaporates(poison: i32)
    requires
        poison > 0,
    ensures
        decayed(poison) == poison - 10,
        decayed(poison) < poison,
{
}


/// What the world holds of one alive creature: its health and its poison,
/// each absent when the creature lacks that component.
#[derive(Clone, Copy, Debug, PartialEq, Eq, Structural)]
pub struct Vitals {
    pub health: Option<i32>,
    pub poison: Option<i32>,
}

/// A component's value, with an absent component read as 0.
pub open spec fn or_zero(o: Option<i32>) -> int {
    match o {
        Some(v) => v as int,
        None => 0,
    }
}

/// The total health of the creatures.
pub open spec fn total_health(s: Seq<Vitals>) -> int
    decreases s.len(),
{
    if s.len() == 0 {
        0
    } else {
        total_health(s.drop_last()) + or_zero(s.last().health)
    }
}

/// The total poison of the creatures.
pub open spec fn total_poison(s: Seq<Vitals>) -> int
    decreases s.len(),
{
    if s.len() == 0 {
        0
    } else {
        total_poison(s.drop_last()) + or_zero(s.last().poison)
    }
}

/// Whether some creature has health `v`.
pub open spec fn health_seen(s: Seq<Vitals>, v: int) -> bool {
    exists|j: int| 0 <= j < s.len() && or_zero(#[trigger] s[j].health) == v
}

/// Whether some creature has poison `v`.
pub open spec fn poison_seen(s: Seq<Vitals>, v: int) -> bool {
    exists|j: int| 0 <= j < s.len() && or_zero(#[trigger] s[j].poison) == v
}

/// What one frame of the game shows: how many creatures live, their total
/// health and poison, and which values of the pool occur as some creature's
/// health and as some creature's poison.
#[derive(Clone, Copy, Debug, PartialEq, Eq)]
pub struct FrameSummary {
    pub alive: usize,
    pub total_health: i128,
    pub total_poison: i128,
    pub health_flags: [bool; 7],
    pub poison_flags: [bool; 7],
}

/// Whether a frame is the one that summarises these creatures.
pub open spec fn summarizes(f: FrameSummary, s: Seq<Vitals>) -> bool {
    &&& f.alive == s.len()
    &&& f.total_health == total_health(s)
    &&& f.total_poison == total_poison(s)
    &&& forall|i: int| 0 <= i < 7 ==> #[trigger] f.health_flags@[i] == health_seen(s, VALUE_POOL@[i] as int)
    &&& forall|i: int| 0 <= i < 7 ==> #[trigger] f.poison_flags@[i] == poison_seen(s, VALUE_POOL@[i] as int)
}

/// The frame of a world without creatures.
pub open spec fn empty_frame(f: FrameSummary) -> bool {
    &&& f.alive == 0
    &&& f.total_health == 0
    &&& f.total_poison == 0
    &&& forall|i: int| 0 <= i < 7 ==> !(#[trigger] f.health_flags@[i])
    &&& forall|i: int| 0 <= i < 7 ==> !(#[trigger] f.poison_flags@[i])
}

proof fn lemma_seen_extend(s: Seq<Vitals>, j: int, v: int)
    requires
        0 <= j < s.len(),
    ensures
        health_seen(s.take(j + 1), v) == (health_seen(s.take(j), v) || or_zero(s[j].health) == v),
        poison_seen(s.take(j + 1), v) == (poison_seen(s.take(j), v) || or_zero(s[j].poison) == v),
{
    let a = s.take(j);
    let b = s.take(j + 1);
    assert(b[j] == s[j]);
    if health_seen(b, v) {
        let w = choose|w: int| 0 <= w < b.len() && or_zero(#[trigger] b[w].health) == v;
        if w < j {
            assert(a[w] == b[w]);
        }
    }
    if health_seen(a, v) {
        let w = choose|w: int| 0 <= w < a.len() && or_zero(#[trigger] a[w].health) == v;
        assert(a[w] == b[w]);
    }
    if poison_seen(b, v) {
        let w = choose|w: int| 0 <= w < b.len() && or_zero(#[trigger] b[w].poison) == v;
        if w < j {
            assert(a[w] == b[w]);
        }
    }
    if poison_seen(a, v) {
        let w = choose|w: int| 0 <= w < a.len() && or_zero(#[trigger] a[w].poison) == v;
        assert(a[w] == b[w]);
    }
}

/// Summarises the creatures of one frame.
pub fn summarize(creatures: &[Vitals]) -> (f: FrameSummary)
    ensures
        summarizes(f, creatures@),
{
    let mut total_hp: i128 = 0;
    let mut total_p: i128 = 0;
    let mut health_flags: [bool; 7] = [false, false, false, false, false, false, false];
    let mut poison_flags: [bool; 7] = [false, false, false, false, false, false, false];
    let mut j: usize = 0;
    while j < creatures.len()
        invariant
            j <= creatures@.len(),
            total_hp == total_health(creatures@.take(j as int)),
            total_p == total_poison(creatures@.take(j as int)),
            -(j as int) * 2147483648 <= total_hp <= (j as int) * 2147483648,
            -(j as int) * 2147483648 <= total_p <= (j as int) * 2147483648,
            forall|i: int| 0 <= i < 7 ==> #[trigger] health_flags@[i] == health_seen(creatures@.take(j as int), VALUE_POOL@[i] as int),
            forall|i: int| 0 <= i < 7 ==> #[trigger] poison_flags@[i] == poison_seen(creatures@.take(j as int), VALUE_POOL@[i] as int),
        decreases creatures@.len() - j,
    {
        let hp: i32 = match creatures[j].health {
            Some(v) => v,
            None => 0,
        };
        let p: i32 = match creatures[j].poison {
            Some(v) => v,
            None => 0,
        };
        proof {
            assert(creatures@.take(j + 1).drop_last() =~= creatures@.take(j as int));
            assert(creatures@.take(j + 1).last() == creatures@[j as int]);
        }
        total_hp = total_hp + hp as i128;
        total_p = total_p + p as i128;
        let ghost before_h = health_flags@;
        let ghost before_p = poison_flags@;
        let mut i: usize = 0;
        while i < 7
            invariant
                i <= 7,
                health_flags@.len() == 7,
                poison_flags@.len() == 7,
                forall|k: int| 0 <= k < 7 ==> #[trigger] health_flags@[k] == (before_h[k] || (k < i && hp == VALUE_POOL@[k])),
                forall|k: int| 0 <= k < 7 ==> #[trigger] poison_flags@[k] == (before_p[k] || (k < i && p == VALUE_POOL@[k])),
            decreases 7 - i,
        {
            if hp == VALUE_POOL[i] {
                health_flags[i] = true;
            }
            if p == VALUE_POOL[i] {
                poison_flags[i] = true;
            }
            i = i + 1;
        }
        proof {
            assert forall|k: int| 0 <= k < 7 implies #[trigger] health_flags@[k] == health_seen(creatures@.take(j + 1), VALUE_POOL@[k] as int) by {
                lemma_seen_extend(creatures@, j as int, VALUE_POOL@[k] as int);
            }
            assert forall|k: int| 0 <= k < 7 implies #[trigger] poison_flags@[k] == poison_seen(creatures@.take(j + 1), VALUE_POOL@[k] as int) by {
                lemma_seen_extend(creatures@, j as int, VALUE_POOL@[k] as int);
            }
        }
        j = j + 1;
    }
    assert(creatures@.take(j as int) =~= creatures@);
    FrameSummary { alive: creatures.len(), total_health: total_hp, total_poison: total_p, health_flags, poison_flags }
}


/// The number of frames the environment remembers.
pub const FRAME_STACK: usize = 4;

/// The mask of the action-type head: with no creature alive, the actions on
/// a creature (despawn, health, poison) are masked.
pub open spec fn action_type_mask(alive: nat) -> Seq<bool> {
    Seq::new(5, |i: int| alive > 0 || !(1 <= i < 4))
}

/// The mask of the creature-index head: one open slot per alive creature, at
/// most five; with none alive the first slot stays open so that the head
/// still has a choice.
pub open spec fn entity_index_mask(alive: nat) -> Seq<bool> {
    Seq::new(5, |i: int| i < alive || i == 0)
}

/// The masks of the three heads for this many alive creatures; the value head
/// is not masked.
pub fn action_mask(alive: usize) -> (masks: Vec<Vec<bool>>)
    ensures
        masks@.len() == 3,
        masks@[0]@ == action_type_mask(alive as nat),
        masks@[1]@ == entity_index_mask(alive as nat),
        masks@[2]@ == Seq::<bool>::empty(),
{
    let mut action_type: Vec<bool> = Vec::new();
    let mut i: usize = 0;
    while i < 5
        invariant
            i <= 5,
            action_type@ == action_type_mask(alive as nat).take(i as int),
        decreases 5 - i,
    {
        action_type.push(alive > 0 || !(1 <= i && i < 4));
        i = i + 1;
        assert(action_type@ =~= action_type_mask(alive as nat).take(i as int));
    }
    let num_alive = if alive < 5 { alive } else { 5 };
    let mut entity_idx: Vec<bool> = Vec::new();
    let mut k: usize = 0;
    while k < 5
        invariant
            k <= 5,
            num_alive == (if alive < 5 { alive } else { 5 }),
            entity_idx@ == entity_index_mask(alive as nat).take(k as int),
        decreases 5 - k,
    {
        entity_idx.push(k < num_alive || k == 0);
        k = k + 1;
        assert(entity_idx@ =~= entity_index_mask(alive as nat).take(k as int));
    }
    assert(action_type@ =~= action_type_mask(alive as nat));
    assert(entity_idx@ =~= entity_index_mask(alive as nat));
    let masks = vec![action_type, entity_idx, Vec::new()];
    masks
}

/// What the caller does to the world for one action: entities are named by
/// their bits.
#[derive(Clone, Copy, Debug, PartialEq, Eq, Structural)]
pub enum WorldCommand {
    SpawnEmpty,
    Despawn(u64),
    InsertHealth(u64, i32),
    InsertPoison(u64, i32),
    RunSchedule,
}

/// The command an action comes to, given the alive list; `None` where the
/// action names a creature past the end of the list.
pub open spec fn planned(alive: Seq<u64>, a: BevyAction) -> Option<WorldCommand> {
    match a {
        BevyAction::SpawnEmpty => Some(WorldCommand::SpawnEmpty),
        BevyAction::Despawn(i) => if i < alive.len() {
            Some(WorldCommand::Despawn(alive[i as int]))
        } else {
            None
        },
        BevyAction::AddHealth(i, v) => if i < alive.len() {
            Some(WorldCommand::InsertHealth(alive[i as int], v))
        } else {
            None
        },
        BevyAction::AddPoison(i, v) => if i < alive.len() {
            Some(WorldCommand::InsertPoison(alive[i as int], v))
        } else {
            None
        },
        BevyAction::RunSchedule => Some(WorldCommand::RunSchedule),
    }
}

/// The fuzzing environment around the game's world: the alive list, the
/// episode count, whether the last step crashed the game, and the last
/// `FRAME_STACK` frames.
#[derive(Debug)]
pub struct BevyEnv {
    pub alive_entities: Vec<u64>,
    pub current_episode: usize,
    pub last_step_crashed: bool,
    pub frame_buffer: Vec<FrameSummary>,
}

impl BevyEnv {
    /// The frame buffer holds exactly `FRAME_STACK` frames.
    pub open spec fn wf(&self) -> bool {
        self.frame_buffer@.len() == FRAME_STACK
    }

    /// A buffer of `FRAME_STACK` copies of the frame of an empty world.
    fn empty_frames() -> (frames: Vec<FrameSummary>)
        ensures
            frames@.len() == FRAME_STACK,
            forall|i: int| 0 <= i < FRAME_STACK ==> #[trigger] empty_frame(frames@[i]),
    {
        let mut frames: Vec<FrameSummary> = Vec::new();
        let mut i: usize = 0;
        while i < FRAME_STACK
            invariant
                i <= FRAME_STACK,
                frames@.len() == i,
                forall|k: int| 0 <= k < i ==> #[trigger] empty_frame(frames@[k]),
            decreases FRAME_STACK - i,
        {
            let none: [Vitals; 0] = [];
            let f = summarize(&none);
            proof {
                assert forall|k: int| 0 <= k < 7 implies !(#[trigger] f.health_flags@[k]) by {
                    assert(!health_seen(none@, VALUE_POOL@[k] as int));
                }
                assert forall|k: int| 0 <= k < 7 implies !(#[trigger] f.poison_flags@[k]) by {
                    assert(!poison_seen(none@, VALUE_POOL@[k] as int));
                }
            }
            frames.push(f);
            i = i + 1;
        }
        frames
    }

    /// An environment for a fresh world: no creature, episode 0, no crash,
    /// and a buffer of empty frames.
    pub fn new() -> (env: Self)
        ensures
            env.wf(),
            env.alive_entities@ == Seq::<u64>::empty(),
            env.current_episode == 0,
            !env.last_step_crashed,
            forall|i: int| 0 <= i < FRAME_STACK ==> #[trigger] empty_frame(env.frame_buffer@[i]),
    {
        BevyEnv {
            alive_entities: Vec::new(),
            current_episode: 0,
            last_step_crashed: false,
            frame_buffer: Self::empty_frames(),
        }
    }

    /// The observation: the remembered frames, oldest first.
    pub fn get_state(&self) -> (state: Vec<FrameSummary>)
        ensures
            state@ == self.frame_buffer@,
    {
        let mut state: Vec<FrameSummary> = Vec::new();
        let mut i: usize = 0;
        while i < self.frame_buffer.len()
            invariant
                i <= self.frame_buffer@.len(),
                state@ == self.frame_buffer@.take(i as int),
            decreases self.frame_buffer@.len() - i,
        {
            state.push(self.frame_buffer[i]);
            i = i + 1;
            assert(state@ =~= self.frame_buffer@.take(i as int));
        }
        assert(self.frame_buffer@.take(i as int) =~= self.frame_buffer@);
        state
    }

    /// The masks of the three heads for the current alive list.
    pub fn get_action_mask(&self) -> (masks: Vec<Vec<bool>>)
        ensures
            masks@.len() == 3,
            masks@[0]@ == action_type_mask(self.alive_entities@.len()),
            masks@[1]@ == entity_index_mask(self.alive_entities@.len()),
            masks@[2]@ == Seq::<bool>::empty(),
    {
        action_mask(self.alive_entities.len())
    }

    /// The command an action comes to; `None` when the action is invalid.
    pub fn plan(&self, action: &BevyAction) -> (cmd: Option<WorldCommand>)
        ensures
            cmd == planned(self.alive_entities@, *action),
    {
        match action {
            BevyAction::SpawnEmpty => Some(WorldCommand::SpawnEmpty),
            BevyAction::Despawn(idx) => {
                if *idx < self.alive_entities.len() {
                    Some(WorldCommand::Despawn(self.alive_entities[*idx]))
                } else {
                    None
                }
            },
            BevyAction::AddHealth(idx, val) => {
                if *idx < self.alive_entities.len() {
                    Some(WorldCommand::InsertHealth(self.alive_entities[*idx], *val))
                } else {
                    None
                }
            },
            BevyAction::AddPoison(idx, val) => {
                if *idx < self.alive_entities.len() {
                    Some(WorldCommand::InsertPoison(self.alive_entities[*idx], *val))
                } else {
                    None
                }
            },
            BevyAction::RunSchedule => Some(WorldCommand::RunSchedule),
        }
    }

    /// Adds a freshly spawned creature at the end of the alive list.
    pub fn record_spawn(&mut self, entity: u64)
        ensures
            final(self).alive_entities@ == old(self).alive_entities@.push(entity),
            final(self).current_episode == old(self).current_episode,
            final(self).last_step_crashed == old(self).last_step_crashed,
            final(self).frame_buffer == old(self).frame_buffer,
    {
        self.alive_entities.push(entity);
    }

    /// Replaces the alive list with the entities the world reports, in the
    /// order it reports them.
    pub fn sync_alive_entities(&mut self, entities: Vec<u64>)
        ensures
            final(self).alive_entities@ == entities@,
            final(self).current_episode == old(self).current_episode,
            final(self).last_step_crashed == old(self).last_step_crashed,
            final(self).frame_buffer == old(self).frame_buffer,
    {
        self.alive_entities = entities;
    }

    /// Closes a step: records whether the game crashed, forgets the oldest
    /// frame, remembers the frame of these creatures, and hands back the
    /// remembered frames.
    pub fn finish_step(&mut self, crashed: bool, creatures: &[Vitals], is_invalid: bool) -> (res:
        StepResult<Vec<FrameSummary>>)
        ensures
            old(self).wf() ==> final(self).wf(),
            final(self).last_step_crashed == crashed,
            final(self).alive_entities == old(self).alive_entities,
            final(self).current_episode == old(self).current_episode,
            final(self).frame_buffer@.drop_last() == old(self).frame_buffer@.skip(
                if old(self).frame_buffer@.len() > 0 {
                    1
                } else {
                    0
                },
            ),
            final(self).frame_buffer@.len() > 0,
            summarizes(final(self).frame_buffer@.last(), creatures@),
            res.next_state@ == final(self).frame_buffer@,
            res.is_invalid == is_invalid,
    {
        self.last_step_crashed = crashed;
        let frame = summarize(creatures);
        if self.frame_buffer.len() > 0 {
            self.frame_buffer.remove(0);
        }
        self.frame_buffer.push(frame);
        assert(self.frame_buffer@.drop_last() =~= old(self).frame_buffer@.skip(
            if old(self).frame_buffer@.len() > 0 {
                1
            } else {
                0
            },
        ));
        StepResult { next_state: self.get_state(), is_invalid }
    }

    /// Starts a new episode on an emptied world: no creature, no crash, a
    /// buffer of empty frames, and the episode count one higher.
    pub fn reset(&mut self)
        requires
            old(self).current_episode < usize::MAX,
        ensures
            final(self).wf(),
            final(self).alive_entities@ == Seq::<u64>::empty(),
            !final(self).last_step_crashed,
            final(self).current_episode == old(self).current_episode + 1,
            forall|i: int| 0 <= i < FRAME_STACK ==> #[trigger] empty_frame(final(self).frame_buffer@[i]),
    {
        self.alive_entities.clear();
        self.last_step_crashed = false;
        self.current_episode = self.current_episode + 1;
        self.frame_buffer = Self::empty_frames();
    }
}

/// Judges the game after each step.
#[derive(Clone, Copy, Debug)]
pub struct BevyOracle;

impl BevyOracle {
    /// A crashed game is the bug found; otherwise an invalid step is
    /// reported, and anything else holds.
    pub fn judge(&self, env: &mut BevyEnv, is_invalid: bool) -> (status: OracleStatus)
        ensures
            *final(env) == *old(env),
            status == (if old(env).last_step_crashed {
                OracleStatus::Violated
            } else if is_invalid {
                OracleStatus::Invalid
            } else {
                OracleStatus::Hold
            }),
    {
        if env.last_step_crashed {
            return OracleStatus::Violated;
        }
        if is_invalid {
            return OracleStatus::Invalid;
        }
        OracleStatus::Hold
    }
}

/// The game translator reads the value head cyclically: the action depends
/// on the first head, the creature index and the value head mod 7 only.
pub proof fn lemma_game_translation_is_cyclic(h: Seq<usize>, g: Seq<usize>)
    requires
        h.len() >= 3,
        g.len() >= 3,
        h[0] == g[0],
        h[1] == g[1],
        h[2] % 7 == g[2] % 7,
    ensures
        translated(h) == translated(g),
{
}

/// On a value choice below seven the translator gives the pool value the
/// head names, to the creature the index head names.
pub proof fn lemma_game_translation_names_choices(i: usize, j: usize)
    requires
        j < 7,
    ensures
        translated(seq![0usize, i, j]) == BevyAction::SpawnEmpty,
        translated(seq![1usize, i, j]) == BevyAction::Despawn(i),
        translated(seq![2usize, i, j]) == BevyAction::AddHealth(i, VALUE_POOL@[j as int]),
        translated(seq![3usize, i, j]) == BevyAction::AddPoison(i, VALUE_POOL@[j as int]),
        translated(seq![4usize, i, j]) == BevyAction::RunSchedule,
        VALUE_POOL@ == seq![10i32, -10i32, 42i32, 99i32, 141i32, 0i32, 9999i32],
{
    assert(VALUE_POOL@ =~= seq![10i32, -10i32, 42i32, 99i32, 141i32, 0i32, 9999i32]);
}

/// The creature a command acts on, if any.
pub open spec fn command_target(c: WorldCommand) -> Option<u64> {
    match c {
        WorldCommand::Despawn(e) => Some(e),
        WorldCommand::InsertHealth(e, _) => Some(e),
        WorldCommand::InsertPoison(e, _) => Some(e),
        _ => None,
    }
}

/// An action on a creature acts on the creature at its index of the alive
/// list, with the value it carries, and is invalid exactly when the index is
/// past the end of the list; spawning and running the systems are always
/// carried out.
pub proof fn lemma_plan_targets_the_indexed_creature(alive: Seq<u64>, i: usize, v: i32)
    ensures
        planned(alive, BevyAction::Despawn(i)) is None <==> i >= alive.len(),
        planned(alive, BevyAction::AddHealth(i, v)) is None <==> i >= alive.len(),
        planned(alive, BevyAction::AddPoison(i, v)) is None <==> i >= alive.len(),
        i < alive.len() ==> {
            &&& planned(alive, BevyAction::Despawn(i))->0 is Despawn
            &&& command_target(planned(alive, BevyAction::Despawn(i))->0) == Some(alive[i as int])
            &&& planned(alive, BevyAction::AddHealth(i, v))->0 == WorldCommand::InsertHealth(
                alive[i as int],
                v,
            )
            &&& planned(alive, BevyAction::AddPoison(i, v))->0 == WorldCommand::InsertPoison(
                alive[i as int],
                v,
            )
        },
        planned(alive, BevyAction::SpawnEmpty) == Some(WorldCommand::SpawnEmpty),
        planned(alive, BevyAction::RunSchedule) == Some(WorldCommand::RunSchedule),
{
}

/// Two alive lists that agree at an index resolve an action on that index to
/// the same command, whatever the rest of the lists hold.
pub proof fn lemma_plan_reads_only_the_index(alive: Seq<u64>, other: Seq<u64>, a: BevyAction)
    requires
        match a {
            BevyAction::Despawn(i) => i < alive.len() && i < other.len() && alive[i as int]
                == other[i as int],
            BevyAction::AddHealth(i, _) => i < alive.len() && i < other.len() && alive[i as int]
                == other[i as int],
            BevyAction::AddPoison(i, _) => i < alive.len() && i < other.len() && alive[i as int]
                == other[i as int],
            _ => true,
        },
    ensures
        planned(alive, a) == planned(other, a),
{
}

/// The smaller of a count and five.
pub open spec fn capped(n: nat) -> nat {
    if n < 5 {
        n
    } else {
        5
    }
}

/// With `n` creatures alive the creature-index head opens exactly the first
/// `min(n, 5)` slots, one per creature (the first slot alone when none
/// lives), and the action-type head closes the creature actions (despawn,
/// health, poison) exactly when none lives.
pub proof fn lemma_masks_open_one_slot_per_creature(n: nat)
    ensures
        entity_index_mask(n).len() == 5,
        action_type_mask(n).len() == 5,
        forall|i: int|
            0 <= i < 5 ==> (#[trigger] entity_index_mask(n)[i] <==> (i < capped(n) || (n == 0
                && i == 0))),
        forall|i: int|
            0 <= i < 5 ==> (#[trigger] action_type_mask(n)[i] <==> (n > 0 || i == 0 || i == 4)),
{
}

/// A creature without health or poison adds nothing to the totals, and one
/// creature's totals are its own health and poison.
pub proof fn lemma_missing_components_count_nothing(s: Seq<Vitals>, c: Vitals, h: i32, p: i32)
    ensures
        total_health(s.push(Vitals { health: None, poison: c.poison })) == total_health(s),
        total_poison(s.push(Vitals { health: c.health, poison: None })) == total_poison(s),
        total_health(seq![Vitals { health: Some(h), poison: Some(p) }]) == h,
        total_poison(seq![Vitals { health: Some(h), poison: Some(p) }]) == p,
        total_health(Seq::<Vitals>::empty()) == 0,
{
    assert(s.push(Vitals { health: None, poison: c.poison }).drop_last() =~= s);
    assert(s.push(Vitals { health: c.health, poison: None }).drop_last() =~= s);
    let one = seq![Vitals { health: Some(h), poison: Some(p) }];
    assert(one.drop_last() =~= Seq::<Vitals>::empty());
    assert(total_health(Seq::<Vitals>::empty()) == 0);
    assert(total_poison(Seq::<Vitals>::empty()) == 0);
    assert(one.last() == Vitals { health: Some(h), poison: Some(p) });
}

/// A value is flagged for a world with one more creature exactly when it was
/// flagged before or is that creature's value; no value is flagged without
/// creatures.
pub proof fn lemma_flags_grow_by_creature(s: Seq<Vitals>, c: Vitals, v: int)
    ensures
        health_seen(s.push(c), v) <==> (health_seen(s, v) || or_zero(c.health) == v),
        poison_seen(s.push(c), v) <==> (poison_seen(s, v) || or_zero(c.poison) == v),
        !health_seen(Seq::<Vitals>::empty(), v),
        !poison_seen(Seq::<Vitals>::empty(), v),
{
    let t = s.push(c);
    assert(t.take(s.len() as int) =~= s);
    assert(t.take(s.len() as int + 1) =~= t);
    lemma_seen_extend(t, s.len() as int, v);
}

/// The frame that `new` and `reset` fill the buffer with is the frame of a
/// world without creatures.
pub proof fn lemma_empty_frame_is_the_frame_of_no_creature(f: FrameSummary)
    ensures
        empty_frame(f) <==> summarizes(f, Seq::<Vitals>::empty()),
{
    assert(total_health(Seq::<Vitals>::empty()) == 0);
    assert(total_poison(Seq::<Vitals>::empty()) == 0);
    if summarizes(f, Seq::<Vitals>::empty()) {
        assert forall|i: int| 0 <= i < 7 implies !(#[trigger] f.health_flags@[i]) by {
            assert(!health_seen(Seq::<Vitals>::empty(), VALUE_POOL@[i] as int));
        }
        assert forall|i: int| 0 <= i < 7 implies !(#[trigger] f.poison_flags@[i]) by {
            assert(!poison_seen(Seq::<Vitals>::empty(), VALUE_POOL@[i] as int));
        }
    }
    if empty_frame(f) {
        assert forall|i: int| 0 <= i < 7 implies #[trigger] f.health_flags@[i] == health_seen(
            Seq::<Vitals>::empty(),
            VALUE_POOL@[i] as int,
        ) by {}
        assert forall|i: int| 0 <= i < 7 implies #[trigger] f.poison_flags@[i] == poison_seen(
            Seq::<Vitals>::empty(),
            VALUE_POOL@[i] as int,
        ) by {}
    }
}

} // verus!
