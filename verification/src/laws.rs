//! Laws of the system state over whole runs of its operations: each counter
//! behaves as a monotone counter, and increments of one account leave every
//! other account alone.

use vstd::prelude::*;

use crate::system::{Config, Pallet};

verus! {

/// What one successful `inc_block_number` call ensures of the block number:
/// it moves to its successor.
pub open spec fn advance_step<T: Config>(pre: Pallet<T>, post: Pallet<T>) -> bool {
    post.block_value() == pre.block_value() + 1
}

/// What one successful `inc_nonce` call for account `a` ensures of the nonce
/// table: `a`'s effective nonce moves to its successor, and no other
/// account's nonce changes.
pub open spec fn increment_step<T: Config>(
    pre: Pallet<T>,
    post: Pallet<T>,
    a: <T::AccountId as View>::V,
) -> bool {
    &&& post.nonce_value(a) == pre.nonce_value(a) + 1
    &&& forall|b: <T::AccountId as View>::V|
        b != a ==> #[trigger] post.nonce_value(b) == pre.nonce_value(b)
}

/// A run of `n` successful `inc_block_number` calls raises the block number
/// by exactly `n`: starting from a fresh state, whose block number is zero,
/// it ends at `n`. `states` holds the state before each call and after the
/// last, so it witnesses `states.len() - 1` calls.
pub proof fn lemma_advance_run_counts<T: Config>(states: Seq<Pallet<T>>)
    requires
        states.len() >= 1,
        forall|i: int|
            0 <= i < states.len() - 1 ==> #[trigger] advance_step(states[i], states[i + 1]),
    ensures
        states.last().block_value() == states.first().block_value() + states.len() - 1,
    decreases states.len(),
{
    if states.len() > 1 {
        let n: int = states.len() as int;
        let prefix = states.drop_last();
        assert forall|i: int|
            0 <= i < prefix.len() - 1 implies #[trigger] advance_step(
            prefix[i],
            prefix[i + 1],
        ) by {
            assert(advance_step(states[i], states[i + 1]));
        }
        lemma_advance_run_counts(prefix);
        assert(prefix.last() == states[n - 2]);
        assert(advance_step(states[n - 2], states[n - 2 + 1]));
        assert(states.last() == states[n - 1]);
    }
}

/// A run of `k` successful `inc_nonce` calls for one account `a` raises
/// `a`'s effective nonce by exactly `k` — from zero prior increments, to
/// `k` — and leaves the effective nonce of every other account where it
/// began. `states` holds the state before each call and after the last, so
/// it witnesses `states.len() - 1` calls.
pub proof fn lemma_increment_run_counts<T: Config>(
    states: Seq<Pallet<T>>,
    a: <T::AccountId as View>::V,
)
    requires
        states.len() >= 1,
        forall|i: int|
            0 <= i < states.len() - 1 ==> #[trigger] increment_step(states[i], states[i + 1], a),
    ensures
        states.last().nonce_value(a) == states.first().nonce_value(a) + states.len() - 1,
        forall|b: <T::AccountId as View>::V|
            b != a ==> #[trigger] states.last().nonce_value(b) == states.first().nonce_value(b),
    decreases states.len(),
{
    if states.len() > 1 {
        let n: int = states.len() as int;
        let prefix = states.drop_last();
        assert forall|i: int|
            0 <= i < prefix.len() - 1 implies #[trigger] increment_step(
            prefix[i],
            prefix[i + 1],
            a,
        ) by {
            assert(increment_step(states[i], states[i + 1], a));
        }
        lemma_increment_run_counts(prefix, a);
        assert(prefix.last() == states[n - 2]);
        assert(increment_step(states[n - 2], states[n - 2 + 1], a));
        assert(states.last() == states[n - 1]);
        assert forall|b: <T::AccountId as View>::V|
            b != a implies #[trigger] states.last().nonce_value(b)
            == states.first().nonce_value(b) by {
            assert(prefix.last().nonce_value(b) == prefix.first().nonce_value(b));
            assert(states[n - 1].nonce_value(b) == states[n - 2].nonce_value(b));
        }
    }
}

} // verus!
