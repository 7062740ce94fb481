//! The system state container: the current block number and a map from
//! accounts to their transaction nonces, mutated only through two
//! overflow-checked increment operations.

use vstd::prelude::*;

use crate::support::{DispatchError, DispatchResult};

verus! {

/// A counter value: a copyable numeric type with a zero, a one, and
/// checked (overflow-detecting) addition and subtraction. Every value is
/// modelled by the mathematical integer `value()`, which always lies in
/// `[0, max_value()]`.
pub trait Counter: Copy + Sized {
    /// The mathematical integer this counter value stands for.
    spec fn value(self) -> int;

    /// The largest integer the type can represent.
    spec fn max_value() -> int;

    /// Every value of the type lies between zero and the maximum.
    proof fn value_in_range(self)
        ensures
            0 <= self.value() <= Self::max_value(),
    ;

    /// The zero value.
    fn zero() -> (r: Self)
        ensures
            r.value() == 0,
    ;

    /// The one value.
    fn one() -> (r: Self)
        ensures
            r.value() == 1,
    ;

    /// Checked addition: the exact sum when it is representable, nothing
    /// otherwise.
    fn checked_add(self, other: Self) -> (r: Option<Self>)
        ensures
            self.value() + other.value() <= Self::max_value() ==> (r matches Some(v)
                && v.value() == self.value() + other.value()),
            self.value() + other.value() > Self::max_value() ==> r is None,
    ;

    /// Checked subtraction: the exact difference when it is representable,
    /// nothing otherwise. No operation of this module uses it; the
    /// configuration contract demands it for collaborators elsewhere.
    fn checked_sub(self, other: Self) -> (r: Option<Self>)
        ensures
            self.value() - other.value() >= 0 ==> (r matches Some(v)
                && v.value() == self.value() - other.value()),
            self.value() - other.value() < 0 ==> r is None,
    ;
}

impl Counter for u32 {
    open spec fn value(self) -> int {
        self as int
    }

    open spec fn max_value() -> int {
        u32::MAX as int
    }

    proof fn value_in_range(self) {
    }

    fn zero() -> (r: Self) {
        0
    }

    fn one() -> (r: Self) {
        1
    }

    fn checked_add(self, other: Self) -> (r: Option<Self>) {
        if self <= u32::MAX - other {
            Some(self + other)
        } else {
            None
        }
    }

    fn checked_sub(self, other: Self) -> (r: Option<Self>) {
        if self >= other {
            Some(self - other)
        } else {
            None
        }
    }
}

impl Counter for u8 {
    open spec fn value(self) -> int {
        self as int
    }

    open spec fn max_value() -> int {
        u8::MAX as int
    }

    proof fn value_in_range(self) {
    }

    fn zero() -> (r: Self) {
        0
    }

    fn one() -> (r: Self) {
        1
    }

    fn checked_add(self, other: Self) -> (r: Option<Self>) {
        if self <= u8::MAX - other {
            Some(self + other)
        } else {
            None
        }
    }

    fn checked_sub(self, other: Self) -> (r: Option<Self>) {
        if self >= other {
            Some(self - other)
        } else {
            None
        }
    }
}

impl Counter for u64 {
    open spec fn value(self) -> int {
        self as int
    }

    open spec fn max_value() -> int {
        u64::MAX as int
    }

    proof fn value_in_range(self) {
    }

    fn zero() -> (r: Self) {
        0
    }

    fn one() -> (r: Self) {
        1
    }

    fn checked_add(self, other: Self) -> (r: Option<Self>) {
        if self <= u64::MAX - other {
            Some(self + other)
        } else {
            None
        }
    }

    fn checked_sub(self, other: Self) -> (r: Option<Self>) {
        if self >= other {
            Some(self - other)
        } else {
            None
        }
    }
}

/// An account identifier: a comparable, clonable key. Its view (`@`) is the
/// mathematical identity under which the nonce map is kept.
pub trait AccountKey: View + Sized {
    /// Whether two identifiers denote the same account.
    fn key_eq(&self, other: &Self) -> (r: bool)
        ensures
            r <==> self@ == other@,
    ;

    /// An owned copy denoting the same account.
    fn key_clone(&self) -> (r: Self)
        ensures
            r@ == self@,
    ;
}

impl AccountKey for String {
    fn key_eq(&self, other: &Self) -> (r: bool) {
        self.eq(other)
    }

    fn key_clone(&self) -> (r: Self) {
        self.clone()
    }
}

/// The configuration contract: one concrete binding of the identifier and
/// numeric types the state container works over.
pub trait Config {
    /// The identifier of an account.
    type AccountId: AccountKey;

    /// The type counting blocks.
    type BlockNumber: Counter;

    /// The type counting an account's transactions.
    type Nonce: Counter;
}

/// The system state: the current block number, and each account's nonce.
/// An account absent from the table implicitly has nonce zero; an entry is
/// materialized only by the first successful increment.
pub struct Pallet<T: Config> {
    /// The current block number.
    block_number: T::BlockNumber,
    /// The nonce table: one entry per account that has been incremented,
    /// keys unique.
    nonce: Vec<(T::AccountId, T::Nonce)>,
}

impl<T: Config> Pallet<T> {
    /// Well-formedness: no two entries of the nonce table denote the same
    /// account, and every stored nonce is at least one — an entry exists
    /// only for an account incremented at least once.
    pub closed spec fn wf(self) -> bool {
        &&& forall|i: int, j: int|
            0 <= i < j < self.nonce@.len() ==> (#[trigger] self.nonce@[i]).0@ != (
            #[trigger] self.nonce@[j]).0@
        &&& forall|i: int| 0 <= i < self.nonce@.len() ==> (#[trigger] self.nonce@[i]).1.value() >= 1
    }

    /// The block number as a mathematical integer.
    pub closed spec fn block_value(self) -> int {
        self.block_number.value()
    }

    /// Whether account `k` has a materialized nonce entry.
    pub closed spec fn recorded(self, k: <T::AccountId as View>::V) -> bool {
        exists|i: int| 0 <= i < self.nonce@.len() && (#[trigger] self.nonce@[i]).0@ == k
    }

    /// The index of account `k`'s entry (meaningful only when recorded).
    spec fn key_index(self, k: <T::AccountId as View>::V) -> int {
        choose|i: int| 0 <= i < self.nonce@.len() && (#[trigger] self.nonce@[i]).0@ == k
    }

    /// The effective nonce of account `k`: the stored value when an entry
    /// exists, zero otherwise.
    pub closed spec fn nonce_value(self, k: <T::AccountId as View>::V) -> int {
        if self.recorded(k) {
            self.nonce@[self.key_index(k)].1.value()
        } else {
            0
        }
    }

    /// An entry at index `i` for account `k` is the only one, and it is the
    /// one the nonce map reads.
    proof fn lemma_unique_index(self, k: <T::AccountId as View>::V, i: int)
        requires
            self.wf(),
            0 <= i < self.nonce@.len(),
            self.nonce@[i].0@ == k,
        ensures
            self.recorded(k),
            self.key_index(k) == i,
            self.nonce_value(k) == self.nonce@[i].1.value(),
    {
        assert(self.recorded(k));
        let j = self.key_index(k);
        assert(0 <= j < self.nonce@.len() && self.nonce@[j].0@ == k);
        if i < j {
            assert(self.nonce@[i].0@ != self.nonce@[j].0@);
        } else if j < i {
            assert(self.nonce@[j].0@ != self.nonce@[i].0@);
        }
    }

    /// Two states with the same nonce table record the same accounts at the
    /// same nonces; well-formedness carries over.
    proof fn lemma_same_table(self, b: Self)
        requires
            self.wf(),
            b.nonce == self.nonce,
        ensures
            b.wf(),
            forall|k: <T::AccountId as View>::V| #[trigger] b.recorded(k) == self.recorded(k),
            forall|k: <T::AccountId as View>::V|
                #[trigger] b.nonce_value(k) == self.nonce_value(k),
    {
        assert forall|i: int, j: int| 0 <= i < j < b.nonce@.len() implies (
        #[trigger] b.nonce@[i]).0@ != (#[trigger] b.nonce@[j]).0@ by {
            assert(self.nonce@[i].0@ != self.nonce@[j].0@);
        }
        assert forall|i: int| 0 <= i < b.nonce@.len() implies (
        #[trigger] b.nonce@[i]).1.value() >= 1 by {
            assert(self.nonce@[i].1.value() >= 1);
        }
        assert forall|k: <T::AccountId as View>::V| #[trigger]
            b.recorded(k) == self.recorded(k) by {
            if self.recorded(k) {
                let i = self.key_index(k);
                assert(b.nonce@[i].0@ == k);
            }
            if b.recorded(k) {
                let i = b.key_index(k);
                assert(self.nonce@[i].0@ == k);
            }
        }
        assert forall|k: <T::AccountId as View>::V| #[trigger]
            b.nonce_value(k) == self.nonce_value(k) by {
            assert(b.recorded(k) == self.recorded(k));
            if self.recorded(k) {
                let i = self.key_index(k);
                self.lemma_unique_index(k, i);
                b.lemma_unique_index(k, i);
            }
        }
    }

    /// A recorded entry witnesses at least one successful increment: its
    /// nonce is never below one.
    pub proof fn lemma_recorded_nonce_positive(self, k: <T::AccountId as View>::V)
        requires
            self.wf(),
            self.recorded(k),
        ensures
            self.nonce_value(k) >= 1,
    {
        let i = self.key_index(k);
        self.lemma_unique_index(k, i);
    }

    /// An account with no recorded entry has the zero effective nonce:
    /// before its first successful increment, every lookup of it yields the
    /// default.
    pub proof fn lemma_default_nonce(self, k: <T::AccountId as View>::V)
        requires
            !self.recorded(k),
        ensures
            self.nonce_value(k) == 0,
    {
    }

    /// Create a new instance of the system state: block number zero, no
    /// recorded nonce for any account. Never fails.
    pub fn new() -> (r: Self)
        ensures
            r.wf(),
            r.block_value() == 0,
            forall|k: <T::AccountId as View>::V| !r.recorded(k),
            forall|k: <T::AccountId as View>::V| r.nonce_value(k) == 0,
    {
        Pallet { block_number: T::BlockNumber::zero(), nonce: Vec::new() }
    }

    /// Get the current block number. Pure read, never fails.
    pub fn block_number(&self) -> (r: T::BlockNumber)
        ensures
            r.value() == self.block_value(),
    {
        self.block_number
    }

    /// Advance the block number by one, with a checked addition: on
    /// overflow, fail and leave the whole state unchanged; otherwise commit
    /// the successor. No nonce is ever touched.
    pub fn inc_block_number(&mut self) -> (r: DispatchResult)
        requires
            old(self).wf(),
        ensures
            final(self).wf(),
            r is Ok <==> old(self).block_value() < T::BlockNumber::max_value(),
            r is Ok ==> final(self).block_value() == old(self).block_value() + 1,
            r is Err ==> r == Err::<(), DispatchError>(DispatchError::Overflow)
                && final(self).block_value() == old(self).block_value(),
            forall|k: <T::AccountId as View>::V|
                #[trigger] final(self).recorded(k) == old(self).recorded(k),
            forall|k: <T::AccountId as View>::V|
                #[trigger] final(self).nonce_value(k) == old(self).nonce_value(k),
    {
        proof {
            self.block_number.value_in_range();
        }
        let r: DispatchResult = match self.block_number.checked_add(T::BlockNumber::one()) {
            Some(incremented) => {
                self.block_number = incremented;
                Ok(())
            },
            None => Err(DispatchError::Overflow),
        };
        proof {
            old(self).lemma_same_table(*self);
        }
        r
    }

    /// The index of `who`'s entry in the nonce table, if one exists.
    fn find_index(&self, who: &T::AccountId) -> (r: Option<usize>)
        requires
            self.wf(),
        ensures
            match r {
                Some(i) => i < self.nonce@.len() && self.nonce@[i as int].0@ == who@,
                None => !self.recorded(who@),
            },
    {
        let mut i: usize = 0;
        while i < self.nonce.len()
            invariant
                i <= self.nonce@.len(),
                forall|j: int| 0 <= j < i ==> (#[trigger] self.nonce@[j]).0@ != who@,
            decreases self.nonce@.len() - i,
        {
            if self.nonce[i].0.key_eq(who) {
                return Some(i);
            }
            i = i + 1;
        }
        None
    }

    /// Get the recorded nonce of an account: the stored value when an entry
    /// exists, nothing when the account has never been incremented.
    pub fn nonce(&self, who: &T::AccountId) -> (r: Option<T::Nonce>)
        requires
            self.wf(),
        ensures
            self.recorded(who@) ==> (r matches Some(v) && v.value() == self.nonce_value(who@)),
            !self.recorded(who@) ==> r is None,
    {
        match self.find_index(who) {
            Some(i) => {
                proof {
                    self.lemma_unique_index(who@, i as int);
                }
                Some(self.nonce[i].1)
            },
            None => None,
        }
    }

    /// Increment the nonce of account `who` by one, with a checked
    /// addition; an absent account counts from zero. On overflow, fail and
    /// leave the whole state unchanged; otherwise commit the successor for
    /// `who` alone. The block number and every other account are never
    /// touched.
    pub fn inc_nonce(&mut self, who: &T::AccountId) -> (r: DispatchResult)
        requires
            old(self).wf(),
        ensures
            final(self).wf(),
            final(self).block_value() == old(self).block_value(),
            r is Ok <==> old(self).nonce_value(who@) < T::Nonce::max_value(),
            r is Ok ==> final(self).recorded(who@)
                && final(self).nonce_value(who@) == old(self).nonce_value(who@) + 1,
            r is Err ==> r == Err::<(), DispatchError>(DispatchError::Overflow)
                && final(self).recorded(who@) == old(self).recorded(who@)
                && final(self).nonce_value(who@) == old(self).nonce_value(who@),
            forall|k: <T::AccountId as View>::V|
                k != who@ ==> #[trigger] final(self).recorded(k) == old(self).recorded(k),
            forall|k: <T::AccountId as View>::V|
                k != who@ ==> #[trigger] final(self).nonce_value(k) == old(self).nonce_value(k),
    {
        match self.find_index(who) {
            Some(i) => {
                let user_nonce = self.nonce[i].1;
                proof {
                    self.lemma_unique_index(who@, i as int);
                    user_nonce.value_in_range();
                }
                match user_nonce.checked_add(T::Nonce::one()) {
                    Some(new_nonce) => {
                        let key = self.nonce[i].0.key_clone();
                        self.nonce[i] = (key, new_nonce);
                        proof {
                            old(self).lemma_update_entry(*self, who@, i as int);
                        }
                        Ok(())
                    },
                    None => Err(DispatchError::Overflow),
                }
            },
            None => {
                let user_nonce = T::Nonce::zero();
                proof {
                    user_nonce.value_in_range();
                }
                match user_nonce.checked_add(T::Nonce::one()) {
                    Some(new_nonce) => {
                        let key = who.key_clone();
                        self.nonce.push((key, new_nonce));
                        proof {
                            old(self).lemma_push_entry(*self, who@);
                        }
                        Ok(())
                    },
                    None => Err(DispatchError::Overflow),
                }
            },
        }
    }

    /// Overwriting the one entry of account `k` with another entry for `k`
    /// keeps the table well formed and every other account untouched.
    proof fn lemma_update_entry(self, b: Self, k: <T::AccountId as View>::V, i: int)
        requires
            self.wf(),
            0 <= i < self.nonce@.len(),
            self.nonce@[i].0@ == k,
            b.nonce@ == self.nonce@.update(i, b.nonce@[i]),
            b.nonce@[i].0@ == k,
            b.nonce@[i].1.value() >= 1,
        ensures
            b.wf(),
            b.recorded(k),
            b.nonce_value(k) == b.nonce@[i].1.value(),
            forall|q: <T::AccountId as View>::V|
                q != k ==> #[trigger] b.recorded(q) == self.recorded(q),
            forall|q: <T::AccountId as View>::V|
                q != k ==> #[trigger] b.nonce_value(q) == self.nonce_value(q),
    {
        assert forall|p: int, q: int| 0 <= p < q < b.nonce@.len() implies (
        #[trigger] b.nonce@[p]).0@ != (#[trigger] b.nonce@[q]).0@ by {
            assert(self.nonce@[p].0@ != self.nonce@[q].0@);
            if p == i {
                self.lemma_unique_index(k, i);
                assert(self.nonce@[q].0@ != k);
            }
            if q == i {
                self.lemma_unique_index(k, i);
                assert(self.nonce@[p].0@ != k);
            }
        }
        assert forall|p: int| 0 <= p < b.nonce@.len() implies (
        #[trigger] b.nonce@[p]).1.value() >= 1 by {
            if p != i {
                assert(self.nonce@[p].1.value() >= 1);
            }
        }
        b.lemma_unique_index(k, i);
        assert forall|q: <T::AccountId as View>::V|
            q != k implies #[trigger] b.recorded(q) == self.recorded(q) by {
            if self.recorded(q) {
                let j = self.key_index(q);
                assert(j != i);
                assert(b.nonce@[j].0@ == q);
            }
            if b.recorded(q) {
                let j = b.key_index(q);
                assert(j != i);
                assert(self.nonce@[j].0@ == q);
            }
        }
        assert forall|q: <T::AccountId as View>::V|
            q != k implies #[trigger] b.nonce_value(q) == self.nonce_value(q) by {
            assert(b.recorded(q) == self.recorded(q));
            if self.recorded(q) {
                let j = self.key_index(q);
                self.lemma_unique_index(q, j);
                assert(j != i);
                b.lemma_unique_index(q, j);
            }
        }
    }

    /// Appending an entry for an account not yet in the table keeps it well
    /// formed, records that account, and touches no other.
    proof fn lemma_push_entry(self, b: Self, k: <T::AccountId as View>::V)
        requires
            self.wf(),
            !self.recorded(k),
            b.nonce@ == self.nonce@.push(b.nonce@.last()),
            b.nonce@.last().0@ == k,
            b.nonce@.last().1.value() >= 1,
        ensures
            b.wf(),
            b.recorded(k),
            b.nonce_value(k) == b.nonce@.last().1.value(),
            forall|q: <T::AccountId as View>::V|
                q != k ==> #[trigger] b.recorded(q) == self.recorded(q),
            forall|q: <T::AccountId as View>::V|
                q != k ==> #[trigger] b.nonce_value(q) == self.nonce_value(q),
    {
        let n = self.nonce@.len() as int;
        assert forall|p: int, q: int| 0 <= p < q < b.nonce@.len() implies (
        #[trigger] b.nonce@[p]).0@ != (#[trigger] b.nonce@[q]).0@ by {
            if q < n {
                assert(self.nonce@[p].0@ != self.nonce@[q].0@);
            } else {
                assert(b.nonce@[p] == self.nonce@[p]);
                assert(b.nonce@[q].0@ == k);
                assert(!(0 <= p < self.nonce@.len() && self.nonce@[p].0@ == k));
            }
        }
        assert forall|p: int| 0 <= p < b.nonce@.len() implies (
        #[trigger] b.nonce@[p]).1.value() >= 1 by {
            if p < n {
                assert(b.nonce@[p] == self.nonce@[p]);
                assert(self.nonce@[p].1.value() >= 1);
            }
        }
        b.lemma_unique_index(k, n);
        assert forall|q: <T::AccountId as View>::V|
            q != k implies #[trigger] b.recorded(q) == self.recorded(q) by {
            if self.recorded(q) {
                let j = self.key_index(q);
                assert(b.nonce@[j].0@ == q);
            }
            if b.recorded(q) {
                let j = b.key_index(q);
                assert(j != n);
                assert(self.nonce@[j].0@ == q);
            }
        }
        assert forall|q: <T::AccountId as View>::V|
            q != k implies #[trigger] b.nonce_value(q) == self.nonce_value(q) by {
            assert(b.recorded(q) == self.recorded(q));
            if self.recorded(q) {
                let j = self.key_index(q);
                self.lemma_unique_index(q, j);
                b.lemma_unique_index(q, j);
            }
        }
    }
}

} // verus!
