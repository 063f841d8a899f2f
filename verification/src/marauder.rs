//! The marauder's variant of the alchemy puzzle: the same reactions, but the
//! observation shows the flasks in slots that are shuffled at random on every
//! reset.
use vstd::prelude::*;

pub use crate::alchemist::{AlchemyAction, AlchemyTranslator};
use crate::alchemist::{
    apply_reaction, empty_rack, fingerprint, flask_bit, flask_hash, next_crashed, next_flasks,
    no_min_flask, open_masks, react, state_bits, step_allowed,
};
use crate::deal::{dealt, lemma_dealt_reorders, shuffle_with_thread_rng};
use crate::outcome::{OracleStatus, StepResult};

verus! {

/// Whether three indices name the three slots, each once.
pub open spec fn distinct_slots(i: int, j: int, k: int) -> bool {
    &&& 0 <= i < 3
    &&& 0 <= j < 3
    &&& 0 <= k < 3
    &&& i != j
    &&& i != k
    &&& j != k
}

/// The sequence of the entries `i`, `j` and `k` of `s`, in that order.
pub open spec fn pick3(s: Seq<usize>, i: int, j: int, k: int) -> Seq<usize> {
    seq![s[i], s[j], s[k]]
}

/// Whether `after` holds the three entries of `before` in some order.
pub open spec fn is_reordering(before: Seq<usize>, after: Seq<usize>) -> bool {
    &&& before.len() == 3
    &&& exists|i: int, j: int, k: int|
        #![trigger pick3(before, i, j, k)]
        distinct_slots(i, j, k) && after == pick3(before, i, j, k)
}

/// Whether a slot table sends the three flasks to the three slots, one each.
pub open spec fn is_slot_permutation(p: Seq<usize>) -> bool {
    &&& p.len() == 3
    &&& p[0] < 3
    &&& p[1] < 3
    &&& p[2] < 3
    &&& p[0] != p[1]
    &&& p[0] != p[2]
    &&& p[1] != p[2]
}

/// Reordering a slot permutation gives a slot permutation.
pub proof fn lemma_reordering_keeps_permutation(before: Seq<usize>, after: Seq<usize>)
    requires
        is_slot_permutation(before),
        is_reordering(before, after),
    ensures
        is_slot_permutation(after),
{
    let (i, j, k) = choose|i: int, j: int, k: int|
        #![trigger pick3(before, i, j, k)]
        distinct_slots(i, j, k) && after == pick3(before, i, j, k);
    assert(after[0] == before[i] && after[1] == before[j] && after[2] == before[k]);
}

/// Reordering a table whose entries name slots gives such a table.
pub proof fn lemma_reordering_keeps_range(before: Seq<usize>, after: Seq<usize>)
    requires
        is_reordering(before, after),
    ensures
        slots_in_range(before) ==> slots_in_range(after),
{
    let (i, j, k) = choose|i: int, j: int, k: int|
        #![trigger pick3(before, i, j, k)]
        distinct_slots(i, j, k) && after == pick3(before, i, j, k);
    assert(after[0] == before[i] && after[1] == before[j] && after[2] == before[k]);
}

/// The flask that slot `j` shows once flasks `0..n` have been written to
/// their slots in turn: the last of them sent to `j`, or -1 when none is.
pub open spec fn shown_by(p: Seq<usize>, j: int, n: int) -> int
    decreases n,
{
    if n <= 0 {
        -1
    } else if p[n - 1] == j {
        n - 1
    } else {
        shown_by(p, j, n - 1)
    }
}

/// Entry `k` of the observation once flasks `0..n` have been written: bit
/// `k % 6` of the flask that slot `k / 6` shows, or `false` for a slot that
/// shows none.
pub open spec fn slot_bit(f: Seq<i32>, p: Seq<usize>, n: int, k: int) -> bool {
    let o = shown_by(p, k / 6, n);
    if o < 0 {
        false
    } else {
        flask_bit(f[o], k % 6)
    }
}

/// The observation of a rack through a slot table: slot `j` shows the six
/// fingerprint bits of the flask that the table sends there (the last one,
/// should the table send several), and nothing if it sends none.
pub open spec fn scrambled_bits(f: Seq<i32>, p: Seq<usize>) -> Seq<bool> {
    Seq::new(18, |k: int| slot_bit(f, p, 3, k))
}

/// Whether every entry of the slot table names one of the three slots.
pub open spec fn slots_in_range(p: Seq<usize>) -> bool {
    p.len() == 3 && p[0] < 3 && p[1] < 3 && p[2] < 3
}

/// The lab seen through shuffled slots.
#[derive(Clone, Debug)]
pub struct AlchemyEnv {
    pub flasks: [i32; 3],
    /// `permutation[i]` is the slot that shows flask `i`.
    pub permutation: [usize; 3],
    pub last_step_crashed: bool,
}

impl AlchemyEnv {
    /// The lab can be observed: every slot the table names exists and no
    /// flask holds `i32::MIN`.
    pub open spec fn wf(&self) -> bool {
        &&& no_min_flask(self.flasks@)
        &&& slots_in_range(self.permutation@)
    }

    /// An empty lab whose slots are shuffled.
    pub fn new() -> (env: Self)
        ensures
            env.flasks@ == empty_rack(),
            !env.last_step_crashed,
            env.wf(),
            is_slot_permutation(env.permutation@),
            is_reordering(seq![0usize, 1usize, 2usize], env.permutation@),
            dealt(seq![0usize, 1usize, 2usize], env.permutation@),
    {
        let mut env = AlchemyEnv { flasks: [0, 0, 0], permutation: [0, 1, 2], last_step_crashed: false };
        assert(env.permutation@ =~= seq![0usize, 1usize, 2usize]);
        env.shuffle_slots();
        assert(env.flasks@ =~= empty_rack());
        env
    }

    /// Deals the slots anew.
    fn shuffle_slots(&mut self)
        ensures
            final(self).flasks == old(self).flasks,
            final(self).last_step_crashed == old(self).last_step_crashed,
            dealt(old(self).permutation@, final(self).permutation@),
            is_reordering(old(self).permutation@, final(self).permutation@),
            slots_in_range(old(self).permutation@) ==> slots_in_range(final(self).permutation@),
            is_slot_permutation(old(self).permutation@) ==> is_slot_permutation(
                final(self).permutation@,
            ),
    {
        shuffle_with_thread_rng(&mut self.permutation);
        proof {
            lemma_dealt_reorders(old(self).permutation@, self.permutation@);
            lemma_reordering_keeps_range(old(self).permutation@, self.permutation@);
            if is_slot_permutation(old(self).permutation@) {
                lemma_reordering_keeps_permutation(old(self).permutation@, self.permutation@);
            }
        }
    }

    /// The observation: slot `permutation[i]` shows the six fingerprint bits
    /// of flask `i`, flasks written in order.
    pub fn get_state(&self) -> (state: Vec<bool>)
        requires
            self.wf(),
        ensures
            state@ == scrambled_bits(self.flasks@, self.permutation@),
    {
        let ghost f = self.flasks@;
        let ghost p = self.permutation@;
        let mut state: Vec<bool> = vec![false; 18];
        let mut i: usize = 0;
        while i < 3
            invariant
                i <= 3,
                self.wf(),
                f == self.flasks@,
                p == self.permutation@,
                state@.len() == 18,
                forall|k: int| 0 <= k < 18 ==> #[trigger] state@[k] == slot_bit(f, p, i as int, k),
            decreases 3 - i,
        {
            let flask_val = self.flasks[i];
            let slot_idx = self.permutation[i];
            let h = fingerprint(flask_val);
            let mut bit: usize = 0;
            while bit < 6
                invariant
                    i < 3,
                    bit <= 6,
                    self.wf(),
                    f == self.flasks@,
                    p == self.permutation@,
                    slot_idx == p[i as int],
                    slot_idx < 3,
                    h == flask_hash(f[i as int]),
                    state@.len() == 18,
                    forall|k: int|
                        0 <= k < 18 ==> #[trigger] state@[k] == (if k / 6 == slot_idx && k % 6
                            < bit {
                            flask_bit(f[i as int], k % 6)
                        } else {
                            slot_bit(f, p, i as int, k)
                        }),
                decreases 6 - bit,
            {
                let idx = slot_idx * 6 + bit;
                state.set(idx, (h >> (bit as u32)) & 1 == 1);
                assert(idx / 6 == slot_idx && idx % 6 == bit);
                bit = bit + 1;
            }
            i = i + 1;
            assert forall|k: int| 0 <= k < 18 implies #[trigger] state@[k] == slot_bit(
                f,
                p,
                i as int,
                k,
            ) by {
                assert(shown_by(p, k / 6, i as int) == (if p[i - 1] == k / 6 {
                    i - 1
                } else {
                    shown_by(p, k / 6, i - 1)
                }));
            }
        }
        assert(state@ =~= scrambled_bits(f, p));
        state
    }

    /// The masks of the three action heads: nothing is masked.
    pub fn get_action_mask(&self) -> (masks: Vec<Vec<bool>>)
        ensures
            masks@.len() == 3,
            forall|i: int| 0 <= i < 3 ==> #[trigger] masks@[i]@ == open_masks()[i],
    {
        let masks = vec![vec![true; 4], vec![true; 6], vec![true; 6]];
        assert(masks@[0]@ =~= open_masks()[0]);
        assert(masks@[1]@ =~= open_masks()[1]);
        assert(masks@[2]@ =~= open_masks()[2]);
        masks
    }

    /// Whether `step` can carry out this action: the flasks it names exist,
    /// the lab it leaves can be observed, and every slot the table names
    /// exists.
    pub fn can_step(&self, action: &AlchemyAction) -> (ok: bool)
        ensures
            ok == (step_allowed(self.flasks@, *action) && slots_in_range(self.permutation@)),
    {
        let lab = crate::alchemist::AlchemyEnv { flasks: self.flasks, last_step_crashed: self.last_step_crashed };
        lab.can_step(action) && self.permutation[0] < 3 && self.permutation[1] < 3
            && self.permutation[2] < 3
    }

    /// Carries out one reaction, as the alchemist's lab does; a reaction that
    /// fails resets the lab, which deals the slots anew.
    pub fn step(&mut self, action: &AlchemyAction) -> (res: StepResult<Vec<bool>>)
        requires
            step_allowed(old(self).flasks@, *action),
            slots_in_range(old(self).permutation@),
        ensures
            final(self).flasks@ == next_flasks(old(self).flasks@, *action),
            final(self).last_step_crashed == next_crashed(
                old(self).flasks@,
                old(self).last_step_crashed,
                *action,
            ),
            react(old(self).flasks@, *action) is Some ==> final(self).permutation
                == old(self).permutation,
            react(old(self).flasks@, *action) is None ==> is_reordering(
                old(self).permutation@,
                final(self).permutation@,
            ),
            react(old(self).flasks@, *action) is None ==> dealt(
                old(self).permutation@,
                final(self).permutation@,
            ),
            final(self).wf(),
            is_slot_permutation(old(self).permutation@) ==> is_slot_permutation(
                final(self).permutation@,
            ),
            res.next_state@ == scrambled_bits(final(self).flasks@, final(self).permutation@),
            !res.is_invalid,
    {
        let ok = apply_reaction(&mut self.flasks, action);
        if ok {
            if let AlchemyAction::Transmute = action {
                self.last_step_crashed = true;
            }
        } else {
            self.reset();
        }
        StepResult { next_state: self.get_state(), is_invalid: false }
    }

    /// Empties every flask, restores the core and deals the slots anew.
    pub fn reset(&mut self)
        ensures
            final(self).flasks@ == empty_rack(),
            !final(self).last_step_crashed,
            dealt(old(self).permutation@, final(self).permutation@),
            is_reordering(old(self).permutation@, final(self).permutation@),
            slots_in_range(old(self).permutation@) ==> final(self).wf(),
            is_slot_permutation(old(self).permutation@) ==> is_slot_permutation(
                final(self).permutation@,
            ),
    {
        self.flasks = [0, 0, 0];
        self.last_step_crashed = false;
        self.shuffle_slots();
        assert(self.flasks@ =~= empty_rack());
    }
}

/// Judges the shuffled lab: only a melted core counts.
#[derive(Clone, Copy, Debug)]
pub struct AlchemyOracle;

impl AlchemyOracle {
    /// A melted core is the bug found; everything else holds, invalid steps
    /// included.
    pub fn judge(&self, env: &mut AlchemyEnv, _is_invalid: bool) -> (status: OracleStatus)
        ensures
            *final(env) == *old(env),
            status == (if old(env).last_step_crashed {
                OracleStatus::Violated
            } else {
                OracleStatus::Hold
            }),
    {
        if env.last_step_crashed {
            return OracleStatus::Violated;
        }
        OracleStatus::Hold
    }
}


/// Slot `permutation[i]` of the shuffled observation shows exactly what block
/// `i` of the alchemist's observation of the same rack shows.
pub proof fn lemma_slots_show_flasks(f: Seq<i32>, p: Seq<usize>, i: int, b: int)
    requires
        is_slot_permutation(p),
        0 <= i < 3,
        0 <= b < 6,
    ensures
        scrambled_bits(f, p)[6 * p[i] + b] == state_bits(f)[6 * i + b],
{
    assert((6 * p[i] + b) / 6 == p[i]);
    assert((6 * p[i] + b) % 6 == b);
    reveal_with_fuel(shown_by, 4);
    assert(shown_by(p, p[i] as int, 3) == i);
    assert((6 * i + b) / 6 == i);
    assert((6 * i + b) % 6 == b);
}

} // verus!
