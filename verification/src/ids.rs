use vstd::prelude::*;
use crate::error::SlamError;

verus! {

/// The largest identity that is ever handed out.
pub const MAX_ID: usize = usize::MAX / 2;

/// What one allocation does to a counter that stands at `next`: the result
/// of the call and the counter afterwards.
pub open spec fn spec_generate(next: nat) -> (Result<usize, SlamError>, nat) {
    if next <= MAX_ID {
        (Ok(next as usize), next + 1)
    } else {
        (Err(SlamError::IdSpaceExhausted), next)
    }
}

/// How many allocations succeed from a counter that stands at `next`.
pub open spec fn spec_remaining(next: nat) -> nat {
    if next <= MAX_ID {
        (MAX_ID + 1 - next) as nat
    } else {
        0
    }
}

/// Where the counter stands after `n` allocations from `next`.
pub open spec fn counter_after(next: nat, n: nat) -> nat
    decreases n,
{
    if n == 0 {
        next
    } else {
        spec_generate(counter_after(next, (n - 1) as nat)).1
    }
}

/// What the allocation after `n` earlier ones returns, counting from `next`.
pub open spec fn nth_result(next: nat, n: nat) -> Result<usize, SlamError> {
    spec_generate(counter_after(next, n)).0
}

/// A counter never moves back, and moves by one for each allocation until it
/// has passed the largest identity.
pub proof fn lemma_counter_after(next: nat, n: nat)
    ensures
        next + n <= MAX_ID + 1 ==> counter_after(next, n) == next + n,
        next <= counter_after(next, n) <= next + n,
        next <= MAX_ID + 1 ==> counter_after(next, n) <= MAX_ID + 1,
    decreases n,
{
    if n > 0 {
        lemma_counter_after(next, (n - 1) as nat);
    }
}

/// Of any run of allocations from one counter, two that succeed return
/// different identities, the later one the larger. Keyframes and landmarks
/// draw from the same counter, so no identity is shared between them either.
pub proof fn lemma_ids_strictly_increase(next: nat, i: nat, j: nat)
    requires
        i < j,
        nth_result(next, i) is Ok,
        nth_result(next, j) is Ok,
    ensures
        nth_result(next, i).unwrap() < nth_result(next, j).unwrap(),
{
    lemma_counter_after(next, i);
    lemma_counter_after(next, j);
    lemma_counter_monotone(next, i + 1, j);
}

/// Once an allocation has failed, every later one fails.
pub proof fn lemma_exhaustion_is_final(next: nat, i: nat, j: nat)
    requires
        i <= j,
        nth_result(next, i) is Err,
    ensures
        nth_result(next, j) == Err::<usize, SlamError>(SlamError::IdSpaceExhausted),
{
    lemma_counter_monotone(next, i, j);
}

/// A counter stands no lower after more allocations.
pub proof fn lemma_counter_monotone(next: nat, i: nat, j: nat)
    requires
        i <= j,
    ensures
        counter_after(next, i) <= counter_after(next, j),
        counter_after(next, i) <= MAX_ID ==> counter_after(next, i) + 1 <= counter_after(next, (i + 1) as nat),
    decreases j - i,
{
    if i < j {
        lemma_counter_monotone(next, i, (j - 1) as nat);
    }
    assert(counter_after(next, (i + 1) as nat) == spec_generate(counter_after(next, i)).1);
}

/// The source of identities, shared by keyframes and landmarks.
///
/// An identity is drawn through an exclusive borrow of the counter. Threads
/// that share one counter keep it behind a lock; their calls then form one
/// run of allocations, of which no two return the same identity.
pub struct IdAllocator {
    next: usize,
}

impl View for IdAllocator {
    type V = nat;

    closed spec fn view(&self) -> nat {
        self.next as nat
    }
}

impl IdAllocator {
    #[verifier::type_invariant]
    spec fn counter_in_range(self) -> bool {
        self.next <= MAX_ID + 1
    }

    /// A counter that starts at zero.
    pub fn new() -> (ids: Self)
        ensures
            ids@ == 0,
    {
        IdAllocator { next: 0 }
    }

    /// A counter that goes on where an earlier one stood. A place beyond the
    /// largest identity gives a counter that is exhausted.
    pub fn starting_at(next: usize) -> (ids: Self)
        ensures
            ids@ == if next <= MAX_ID { next as nat } else { (MAX_ID + 1) as nat },
    {
        if next <= MAX_ID {
            IdAllocator { next }
        } else {
            IdAllocator { next: MAX_ID + 1 }
        }
    }

    /// How many identities can still be handed out.
    pub fn remaining(&self) -> (n: usize)
        ensures
            n == spec_remaining(self@),
    {
        proof {
            use_type_invariant(self);
        }
        MAX_ID + 1 - self.next
    }
}

/// Hands out the next identity of the counter and moves the counter on by
/// one. Fails with `IdSpaceExhausted`, and leaves the counter where it
/// stands, once the largest identity has been handed out.
pub fn generate_id(ids: &mut IdAllocator) -> (r: Result<usize, SlamError>)
    ensures
        (r, final(ids)@) == spec_generate(old(ids)@),
{
    proof {
        use_type_invariant(&*ids);
    }
    if ids.next > MAX_ID {
        return Err(SlamError::IdSpaceExhausted);
    }
    let id: usize = ids.next;
    ids.next = id + 1;
    Ok(id)
}

} // verus!
