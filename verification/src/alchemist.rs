//! The alchemy puzzle: three flasks, four reactions, and a transmutation that
//! melts the core when the flasks hold exactly 9999, 2 and 1.
use vstd::prelude::*;

use crate::outcome::{OracleStatus, StepResult};

verus! {

/// The reagents an intake can pour into the first flask.
pub const VALUE_POOL: [i32; 3] = [42, 99, 9999];

/// One reaction requested of the lab.
#[derive(Clone, Copy, Debug, PartialEq, Eq, Structural)]
pub enum AlchemyAction {
    /// Pour a reagent into flask 0, which must be empty.
    Intake(i32),
    /// Move the content of one flask into another, empty, flask.
    Transfer(usize, usize),
    /// Turn 42 into 1 or 99 into 2 in a flask whose right neighbour is empty.
    Catalyze(usize),
    /// Melt the core; only works on the flasks 9999, 2, 1.
    Transmute,
}

/// Whether every flask index the action names is one of the three flasks.
pub open spec fn action_in_range(a: AlchemyAction) -> bool {
    match a {
        AlchemyAction::Transfer(s, d) => s < 3 && d < 3,
        AlchemyAction::Catalyze(t) => t < 3,
        _ => true,
    }
}

/// The flask contents after a reaction, or `None` when the reaction fails.
/// A transmutation that works leaves the contents as they are.
pub open spec fn react(f: Seq<i32>, a: AlchemyAction) -> Option<Seq<i32>> {
    match a {
        AlchemyAction::Intake(v) => if f[0] == 0 {
            Some(f.update(0, v))
        } else {
            None
        },
        AlchemyAction::Transfer(s, d) => if s != d && f[s as int] != 0 && f[d as int] == 0 {
            Some(f.update(d as int, f[s as int]).update(s as int, 0))
        } else {
            None
        },
        AlchemyAction::Catalyze(t) => {
            let n = (t + 1) % 3;
            if f[n as int] == 0 && (f[t as int] == 42 || f[t as int] == 99) {
                Some(f.update(t as int, if f[t as int] == 42 { 1 } else { 2 }))
            } else {
                None
            }
        },
        AlchemyAction::Transmute => if f[0] == 9999 && f[1] == 2 && f[2] == 1 {
            Some(f)
        } else {
            None
        },
    }
}

/// The empty rack the lab starts from and falls back to.
pub open spec fn empty_rack() -> Seq<i32> {
    seq![0i32, 0i32, 0i32]
}

/// The flask contents after a step: a failed reaction empties every flask.
pub open spec fn next_flasks(f: Seq<i32>, a: AlchemyAction) -> Seq<i32> {
    match react(f, a) {
        Some(g) => g,
        None => empty_rack(),
    }
}

/// The crash flag after a step: a working transmutation raises it, any
/// failure clears it, and any other working reaction leaves it alone.
pub open spec fn next_crashed(f: Seq<i32>, crashed: bool, a: AlchemyAction) -> bool {
    match react(f, a) {
        Some(_) => crashed || a is Transmute,
        None => false,
    }
}

/// The action the translator picks for the given network head outputs.
pub open spec fn translated(h: Seq<usize>) -> AlchemyAction {
    let kind = h[0] % 4;
    if kind == 0 {
        AlchemyAction::Intake(VALUE_POOL@[(h[1] % 3) as int])
    } else if kind == 1 {
        AlchemyAction::Transfer(h[1] % 3, h[2] % 3)
    } else if kind == 2 {
        AlchemyAction::Catalyze(h[1] % 3)
    } else {
        AlchemyAction::Transmute
    }
}

/// The head outputs the translator reads are there: the first always, the
/// second unless the action is a transmutation, the third for a transfer.
pub open spec fn translatable(h: Seq<usize>) -> bool {
    &&& h.len() >= 1
    &&& h[0] % 4 != 3 ==> h.len() >= 2
    &&& h[0] % 4 == 1 ==> h.len() >= 3
}

/// Turns the outputs of the policy network into a reaction.
#[derive(Clone, Copy, Debug)]
pub struct AlchemyTranslator;

impl AlchemyTranslator {
    pub fn translate(&self, head_outputs: &[usize]) -> (a: AlchemyAction)
        requires
            translatable(head_outputs@),
        ensures
            a == translated(head_outputs@),
            action_in_range(a),
    {
        let act_type = head_outputs[0] % 4;
        if act_type == 0 {
            let val_idx = head_outputs[1] % 3;
            AlchemyAction::Intake(VALUE_POOL[val_idx])
        } else if act_type == 1 {
            let src = head_outputs[1] % 3;
            let dst = head_outputs[2] % 3;
            AlchemyAction::Transfer(src, dst)
        } else if act_type == 2 {
            let target = head_outputs[1] % 3;
            AlchemyAction::Catalyze(target)
        } else {
            AlchemyAction::Transmute
        }
    }
}


/// Whether no flask holds `i32::MIN`, whose magnitude the observation cannot
/// take.
pub open spec fn no_min_flask(f: Seq<i32>) -> bool {
    forall|i: int| 0 <= i < f.len() ==> f[i] != i32::MIN
}

/// Whether a step with this action can be carried out: every flask it names
/// exists, and the lab it leaves can be observed.
pub open spec fn step_allowed(f: Seq<i32>, a: AlchemyAction) -> bool {
    &&& action_in_range(a)
    &&& no_min_flask(next_flasks(f, a))
}

/// Carries out one reaction on the rack and says whether it worked; the rack
/// is left as it was when it did not.
pub fn apply_reaction(flasks: &mut [i32; 3], action: &AlchemyAction) -> (ok: bool)
    requires
        action_in_range(*action),
    ensures
        ok == react(old(flasks)@, *action) is Some,
        ok ==> final(flasks)@ == react(old(flasks)@, *action)->0,
        !ok ==> final(flasks)@ == old(flasks)@,
{
    match action {
        AlchemyAction::Intake(val) => {
            if flasks[0] == 0 {
                flasks[0] = *val;
                true
            } else {
                false
            }
        },
        AlchemyAction::Transfer(src, dst) => {
            let (s, d) = (*src, *dst);
            if s != d && flasks[s] != 0 && flasks[d] == 0 {
                flasks[d] = flasks[s];
                flasks[s] = 0;
                true
            } else {
                false
            }
        },
        AlchemyAction::Catalyze(target) => {
            let t = *target;
            let neighbor = (t + 1) % 3;
            if flasks[neighbor] == 0 && (flasks[t] == 42 || flasks[t] == 99) {
                flasks[t] = if flasks[t] == 42 { 1 } else { 2 };
                true
            } else {
                false
            }
        },
        AlchemyAction::Transmute => {
            flasks[0] == 9999 && flasks[1] == 2 && flasks[2] == 1
        },
    }
}

/// The scrambled fingerprint of a flask: its magnitude times 2654435761,
/// wrapped to 32 bits, folded with its own upper half.
pub open spec fn flask_hash(v: i32) -> u32 {
    let m = (if v < 0 { -v } else { v as int }) as u32;
    let h = m.wrapping_mul(2654435761u32);
    h ^ (h >> 16u32)
}

/// Bit `b` of a flask's fingerprint.
pub open spec fn flask_bit(v: i32, b: int) -> bool {
    (flask_hash(v) >> (b as u32)) & 1u32 == 1u32
}

/// The observation of a rack: six fingerprint bits per flask, flask by flask.
pub open spec fn state_bits(f: Seq<i32>) -> Seq<bool> {
    Seq::new(18, |k: int| flask_bit(f[k / 6], k % 6))
}

/// Computes the fingerprint of one flask.
pub fn fingerprint(v: i32) -> (h: u32)
    requires
        v != i32::MIN,
    ensures
        h == flask_hash(v),
{
    let m: u32 = if v < 0 {
        (-v) as u32
    } else {
        v as u32
    };
    let h = m.wrapping_mul(2654435761u32);
    h ^ (h >> 16u32)
}

/// Appends the six low fingerprint bits of a flask to an observation.
fn push_flask_bits(state: &mut Vec<bool>, v: i32)
    requires
        v != i32::MIN,
    ensures
        final(state)@ == old(state)@ + Seq::new(6, |b: int| flask_bit(v, b)),
{
    let h = fingerprint(v);
    let ghost start = state@;
    let mut i: u32 = 0;
    while i < 6
        invariant
            i <= 6,
            h == flask_hash(v),
            state@ == start + Seq::new(i as nat, |b: int| flask_bit(v, b)),
        decreases 6 - i,
    {
        state.push((h >> i) & 1 == 1);
        i = i + 1;
        assert(state@ =~= start + Seq::new(i as nat, |b: int| flask_bit(v, b)));
    }
}


/// Builds the observation of a rack: six fingerprint bits per flask.
pub fn observe(flasks: &[i32; 3]) -> (state: Vec<bool>)
    requires
        no_min_flask(flasks@),
    ensures
        state@ == state_bits(flasks@),
{
    let mut state: Vec<bool> = Vec::new();
    let mut i: usize = 0;
    while i < 3
        invariant
            i <= 3,
            no_min_flask(flasks@),
            state@ == state_bits(flasks@).take(6 * i),
        decreases 3 - i,
    {
        let ghost before = state@;
        push_flask_bits(&mut state, flasks[i]);
        i = i + 1;
        assert(state@ =~= state_bits(flasks@).take(6 * i)) by {
            assert forall|k: int| 6 * (i - 1) <= k < 6 * i implies
                #[trigger] state_bits(flasks@)[k] == state@[k] by {
                assert(k / 6 == i - 1);
            }
        }
    }
    assert(state_bits(flasks@).take(18) =~= state_bits(flasks@));
    state
}

/// The masks of the three action heads; the lab allows every choice.
pub open spec fn open_masks() -> Seq<Seq<bool>> {
    seq![Seq::new(4, |i: int| true), Seq::new(6, |i: int| true), Seq::new(6, |i: int| true)]
}

/// The lab: three flasks, and whether the core has melted.
#[derive(Clone, Debug)]
pub struct AlchemyEnv {
    pub flasks: [i32; 3],
    pub last_step_crashed: bool,
}

impl AlchemyEnv {
    /// The lab can be observed: no flask holds `i32::MIN`.
    pub open spec fn wf(&self) -> bool {
        no_min_flask(self.flasks@)
    }

    /// An empty lab whose core is intact.
    pub fn new() -> (env: Self)
        ensures
            env.flasks@ == empty_rack(),
            !env.last_step_crashed,
            env.wf(),
    {
        let env = AlchemyEnv { flasks: [0, 0, 0], last_step_crashed: false };
        assert(env.flasks@ =~= empty_rack());
        env
    }

    /// The observation: six fingerprint bits for each flask in turn.
    pub fn get_state(&self) -> (state: Vec<bool>)
        requires
            self.wf(),
        ensures
            state@ == state_bits(self.flasks@),
    {
        observe(&self.flasks)
    }

    /// The masks of the three action heads: nothing is masked.
    pub fn get_action_mask(&self) -> (masks: Vec<Vec<bool>>)
        ensures
            masks@.len() == 3,
            forall|i: int| 0 <= i < 3 ==> #[trigger] masks@[i]@ == open_masks()[i],
    {
        let masks = vec![vec![true; 4], vec![true; 6], vec![true; 6]];
        assert(masks@[0]@ =~= open_masks()[0]);
        assert(masks@[1]@ =~= open_masks()[1]);
        assert(masks@[2]@ =~= open_masks()[2]);
        masks
    }

    /// Whether `step` can carry out this action: the flasks it names exist and
    /// the lab it leaves can be observed.
    pub fn can_step(&self, action: &AlchemyAction) -> (ok: bool)
        ensures
            ok == step_allowed(self.flasks@, *action),
    {
        let in_range = match action {
            AlchemyAction::Transfer(s, d) => *s < 3 && *d < 3,
            AlchemyAction::Catalyze(t) => *t < 3,
            _ => true,
        };
        if !in_range {
            return false;
        }
        let mut rack = self.flasks;
        let worked = apply_reaction(&mut rack, action);
        if !worked {
            assert(next_flasks(self.flasks@, *action) =~= empty_rack());
            return true;
        }
        rack[0] != i32::MIN && rack[1] != i32::MIN && rack[2] != i32::MIN
    }

    /// Carries out one reaction. A reaction that fails resets the lab; the
    /// step itself is never invalid.
    pub fn step(&mut self, action: &AlchemyAction) -> (res: StepResult<Vec<bool>>)
        requires
            step_allowed(old(self).flasks@, *action),
        ensures
            final(self).flasks@ == next_flasks(old(self).flasks@, *action),
            final(self).last_step_crashed == next_crashed(
                old(self).flasks@,
                old(self).last_step_crashed,
                *action,
            ),
            final(self).wf(),
            res.next_state@ == state_bits(final(self).flasks@),
            !res.is_invalid,
    {
        let ok = apply_reaction(&mut self.flasks, action);
        if ok {
            if let AlchemyAction::Transmute = action {
                self.last_step_crashed = true;
            }
        } else {
            self.reset();
        }
        StepResult { next_state: self.get_state(), is_invalid: false }
    }

    /// Empties every flask and restores the core.
    pub fn reset(&mut self)
        ensures
            final(self).flasks@ == empty_rack(),
            !final(self).last_step_crashed,
            final(self).wf(),
    {
        self.flasks = [0, 0, 0];
        self.last_step_crashed = false;
        assert(self.flasks@ =~= empty_rack());
    }
}

/// Judges the lab after each step.
#[derive(Clone, Copy, Debug)]
pub struct AlchemyOracle;

impl AlchemyOracle {
    /// A melted core is the bug found; otherwise an invalid step is reported,
    /// and anything else holds.
    pub fn judge(&self, env: &mut AlchemyEnv, is_invalid: bool) -> (status: OracleStatus)
        ensures
            *final(env) == *old(env),
            status == (if old(env).last_step_crashed {
                OracleStatus::Violated
            } else if is_invalid {
                OracleStatus::Invalid
            } else {
                OracleStatus::Hold
            }),
    {
        if env.last_step_crashed {
            return OracleStatus::Violated;
        }
        if is_invalid {
            return OracleStatus::Invalid;
        }
        OracleStatus::Hold
    }
}


/// The core only melts through a transmutation of the rack 9999, 2, 1: a
/// step that raises the crash flag was such a transmutation.
pub proof fn lemma_crash_needs_transmute(f: Seq<i32>, a: AlchemyAction)
    requires
        f.len() == 3,
        next_crashed(f, false, a),
    ensures
        a is Transmute,
        f == seq![9999i32, 2i32, 1i32],
{
    assert(f =~= seq![9999i32, 2i32, 1i32]);
}

/// A reaction that fails puts the lab back where it started: empty flasks
/// and an intact core, whatever the lab held before.
pub proof fn lemma_failure_resets(f: Seq<i32>, crashed: bool, a: AlchemyAction)
    requires
        react(f, a) is None,
    ensures
        next_flasks(f, a) == empty_rack(),
        !next_crashed(f, crashed, a),
{
}

/// A working transfer is undone by the transfer back.
pub proof fn lemma_transfer_round_trip(f: Seq<i32>, s: usize, d: usize)
    requires
        f.len() == 3,
        s < 3,
        d < 3,
        react(f, AlchemyAction::Transfer(s, d)) is Some,
    ensures
        react(react(f, AlchemyAction::Transfer(s, d))->0, AlchemyAction::Transfer(d, s))
            == Some(f),
{
    let g = react(f, AlchemyAction::Transfer(s, d))->0;
    assert(g.update(s as int, g[d as int]).update(d as int, 0) =~= f);
}

/// A working transmutation leaves the flasks as they are.
pub proof fn lemma_transmute_keeps_flasks(f: Seq<i32>, crashed: bool)
    requires
        react(f, AlchemyAction::Transmute) is Some,
    ensures
        next_flasks(f, AlchemyAction::Transmute) == f,
        next_crashed(f, crashed, AlchemyAction::Transmute),
{
}

/// Every action the translator picks can be stepped on any observable rack,
/// and the lab stays observable.
pub proof fn lemma_translated_actions_allowed(h: Seq<usize>, f: Seq<i32>)
    requires
        translatable(h),
        f.len() == 3,
        no_min_flask(f),
    ensures
        step_allowed(f, translated(h)),
{
    assert(VALUE_POOL@[0] == 42 && VALUE_POOL@[1] == 99 && VALUE_POOL@[2] == 9999);
    let a = translated(h);
    let g = next_flasks(f, a);
    assert(empty_rack()[0] == 0 && empty_rack()[1] == 0 && empty_rack()[2] == 0);
    assert forall|i: int| 0 <= i < g.len() implies g[i] != i32::MIN by {
        assert(0 <= i < 3);
    }
}

/// A flask and its negation show the same fingerprint.
pub proof fn lemma_fingerprint_ignores_sign(v: i32)
    requires
        v != i32::MIN,
    ensures
        flask_hash(v) == flask_hash((-v) as i32),
{
}

/// A transfer works exactly when it moves a full flask into a different,
/// empty one. It then empties the source, puts the source's content in the
/// destination, touches no other flask and keeps the total of the rack; a
/// transfer out of an empty flask fails, and the step resets the rack.
pub proof fn lemma_transfer_moves_a_full_flask(f: Seq<i32>, s: usize, d: usize)
    requires
        f.len() == 3,
        s < 3,
        d < 3,
    ensures
        react(f, AlchemyAction::Transfer(s, d)) is Some <==> (s != d && f[s as int] != 0
            && f[d as int] == 0),
        react(f, AlchemyAction::Transfer(s, d)) matches Some(g) ==> {
            &&& g.len() == 3
            &&& g[d as int] == f[s as int]
            &&& g[s as int] == 0
            &&& forall|k: int| 0 <= k < 3 && k != s && k != d ==> g[k] == f[k]
            &&& g[0] + g[1] + g[2] == f[0] + f[1] + f[2]
        },
        f[s as int] == 0 ==> next_flasks(f, AlchemyAction::Transfer(s, d)) == empty_rack(),
{
}

/// An intake works exactly when the first flask is empty; it then fills that
/// flask with the reagent and touches no other.
pub proof fn lemma_intake_fills_the_first_flask(f: Seq<i32>, v: i32)
    requires
        f.len() == 3,
    ensures
        react(f, AlchemyAction::Intake(v)) is Some <==> f[0] == 0,
        react(f, AlchemyAction::Intake(v)) matches Some(g) ==> {
            &&& g.len() == 3
            &&& g[0] == v
            &&& g[1] == f[1]
            &&& g[2] == f[2]
        },
{
}

/// A catalysis works exactly when the flask holds 42 or 99 and the flask to
/// its right (the first, for the last) is empty; it turns 42 into 1 and 99
/// into 2 and touches no other flask.
pub proof fn lemma_catalysis_turns_reagents(f: Seq<i32>, t: usize)
    requires
        f.len() == 3,
        t < 3,
    ensures
        react(f, AlchemyAction::Catalyze(t)) is Some <==> ((f[t as int] == 42 || f[t as int]
            == 99) && f[if t == 2 {
            0int
        } else {
            t + 1
        }] == 0),
        react(f, AlchemyAction::Catalyze(t)) matches Some(g) ==> {
            &&& g.len() == 3
            &&& (f[t as int] == 42 ==> g[t as int] == 1)
            &&& (f[t as int] == 99 ==> g[t as int] == 2)
            &&& forall|k: int| 0 <= k < 3 && k != t ==> g[k] == f[k]
        },
{
}

/// A transmutation works on the rack 9999, 2, 1 and on no other.
pub proof fn lemma_transmute_needs_the_recipe(f: Seq<i32>)
    requires
        f.len() == 3,
    ensures
        react(f, AlchemyAction::Transmute) is Some <==> f == seq![9999i32, 2i32, 1i32],
{
    if f[0] == 9999 && f[1] == 2 && f[2] == 1 {
        assert(f =~= seq![9999i32, 2i32, 1i32]);
    }
}

/// A working reaction other than a transmutation leaves the crash flag as it
/// was.
pub proof fn lemma_other_reactions_keep_the_flag(f: Seq<i32>, crashed: bool, a: AlchemyAction)
    requires
        react(f, a) is Some,
        !(a is Transmute),
    ensures
        next_crashed(f, crashed, a) == crashed,
{
}

/// The translator reads the heads cyclically: the action depends only on the
/// kind (the first head mod 4) and on the heads it reads after that mod 3.
pub proof fn lemma_translation_is_cyclic(h: Seq<usize>, g: Seq<usize>)
    requires
        translatable(h),
        translatable(g),
        h[0] % 4 == g[0] % 4,
        h[0] % 4 != 3 ==> h[1] % 3 == g[1] % 3,
        h[0] % 4 == 1 ==> h[2] % 3 == g[2] % 3,
    ensures
        translated(h) == translated(g),
{
}

/// On choices below three the translator picks the reagent and the flasks
/// the heads name: kind 0 pours pool value `k`, kind 1 moves flask `k` into
/// flask `j`, kind 2 catalyses flask `k`, kind 3 transmutes.
pub proof fn lemma_translation_names_choices(k: usize, j: usize)
    requires
        k < 3,
        j < 3,
    ensures
        translated(seq![0usize, k]) == AlchemyAction::Intake(VALUE_POOL@[k as int]),
        translated(seq![1usize, k, j]) == AlchemyAction::Transfer(k, j),
        translated(seq![2usize, k]) == AlchemyAction::Catalyze(k),
        translated(seq![3usize]) == AlchemyAction::Transmute,
        VALUE_POOL@ == seq![42i32, 99i32, 9999i32],
{
    assert(VALUE_POOL@ =~= seq![42i32, 99i32, 9999i32]);
}

/// Block `i` of the observation shows flask `i` alone: two racks that agree
/// on a flask show the same six bits for it, and an empty flask shows none.
pub proof fn lemma_block_shows_its_flask(f: Seq<i32>, g: Seq<i32>, i: int, b: int)
    requires
        f.len() == 3,
        g.len() == 3,
        0 <= i < 3,
        0 <= b < 6,
        f[i] == g[i],
    ensures
        state_bits(f)[6 * i + b] == state_bits(g)[6 * i + b],
        f[i] == 0 ==> !state_bits(f)[6 * i + b],
{
    assert((6 * i + b) / 6 == i);
    assert((6 * i + b) % 6 == b);
    if f[i] == 0 {
        assert((0u32).wrapping_mul(2654435761u32) == 0u32);
        assert((0u32 ^ (0u32 >> 16u32)) == 0u32) by (bit_vector);
        assert(flask_hash(0) == 0u32);
        let shift: u32 = b as u32;
        assert((0u32 >> shift) & 1u32 == 0u32) by (bit_vector);
    }
}

} // verus!
