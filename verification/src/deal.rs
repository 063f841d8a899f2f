//! Dealing the marauder's slots: the one place where a slot table is drawn at
//! random.
use rand::seq::SliceRandom;
use vstd::prelude::*;

use crate::marauder::is_reordering;

verus! {

/// Whether `after` is a deal of the slots of `before`: a table drawn by the
/// random shuffle from `before`. Outside this module a deal is known only
/// through the shuffle that makes it, so a table that was merely left as it
/// was, or reordered by hand, is no deal; what every deal satisfies is given
/// by `lemma_dealt_reorders`.
pub closed spec fn dealt(before: Seq<usize>, after: Seq<usize>) -> bool {
    is_reordering(before, after)
}

/// A deal holds the entries of the table it was dealt from, in some order.
pub proof fn lemma_dealt_reorders(before: Seq<usize>, after: Seq<usize>)
    requires
        dealt(before, after),
    ensures
        is_reordering(before, after),
{
}

/// Shuffles a slot table with the thread's random generator.
///
/// Calls `rand::seq::SliceRandom::shuffle` with `rand::rng()`. The shuffle
/// only swaps entries, so the result holds the same entries in some order
/// (a deal, see `dealt`); which order comes out is left open, as it rests on
/// chance.
#[verifier::external_body]
pub(crate) fn shuffle_with_thread_rng(slots: &mut [usize; 3])
    ensures
        dealt(old(slots)@, final(slots)@),
{
    let mut rng = rand::rng();
    slots.shuffle(&mut rng);
}

} // verus!
