use vstd::prelude::*;

verus! {

/// The number of `true` entries among the first `n` of `mask`.
pub open spec fn count_true_upto(mask: Seq<bool>, n: int) -> nat
    decreases n,
{
    if n <= 0 || n > mask.len() {
        0
    } else if mask[n - 1] {
        count_true_upto(mask, n - 1) + 1
    } else {
        count_true_upto(mask, n - 1)
    }
}

/// The number of `true` entries of `mask`.
pub open spec fn count_true(mask: Seq<bool>) -> nat {
    count_true_upto(mask, mask.len() as int)
}

/// Those of the first `n` items whose mask entry is `true`, in their order.
pub open spec fn select_upto<A>(items: Seq<A>, mask: Seq<bool>, n: int) -> Seq<A>
    decreases n,
{
    if n <= 0 || n > items.len() || n > mask.len() {
        Seq::empty()
    } else if mask[n - 1] {
        select_upto(items, mask, n - 1).push(items[n - 1])
    } else {
        select_upto(items, mask, n - 1)
    }
}

/// The items whose mask entry is `true`, in their order. Items and mask are
/// paired from the front; what the longer of the two holds beyond the
/// shorter one is left out.
pub open spec fn select<A>(items: Seq<A>, mask: Seq<bool>) -> Seq<A> {
    if items.len() <= mask.len() {
        select_upto(items, mask, items.len() as int)
    } else {
        select_upto(items, mask, mask.len() as int)
    }
}

/// What a status byte of a robust fit says of its correspondence.
pub open spec fn status_bit(status: u8) -> bool {
    status != 0
}

/// A selection is never longer than the prefix it was taken from, and as
/// long as the number of `true` entries seen.
pub proof fn lemma_select_len<A>(items: Seq<A>, mask: Seq<bool>, n: int)
    requires
        0 <= n <= items.len(),
        n <= mask.len(),
    ensures
        select_upto(items, mask, n).len() == count_true_upto(mask, n),
        count_true_upto(mask, n) <= n,
    decreases n,
{
    if n > 0 {
        lemma_select_len(items, mask, n - 1);
    }
}

/// The count of a prefix is no more than the count of a longer prefix.
pub proof fn lemma_count_monotone(mask: Seq<bool>, i: int, n: int)
    requires
        0 <= i <= n <= mask.len(),
    ensures
        count_true_upto(mask, i) <= count_true_upto(mask, n),
    decreases n - i,
{
    if i < n {
        lemma_count_monotone(mask, i, n - 1);
    }
}

/// Counts the correspondences that a mask marks as inliers.
pub fn count_inliers(mask: &Vec<bool>) -> (count: usize)
    ensures
        count == count_true(mask@),
{
    let mut count: usize = 0;
    let mut i: usize = 0;
    while i < mask.len()
        invariant
            i <= mask.len(),
            count == count_true_upto(mask@, i as int),
            count <= i,
        decreases mask.len() - i,
    {
        if mask[i] {
            count = count + 1;
        }
        i = i + 1;
    }
    count
}

/// Keeps the items that the mask marks, in their order.
pub fn select_by_mask<A: Copy>(items: &Vec<A>, mask: &Vec<bool>) -> (kept: Vec<A>)
    ensures
        kept@ == select(items@, mask@),
{
    let n: usize = if items.len() <= mask.len() {
        items.len()
    } else {
        mask.len()
    };
    let mut kept: Vec<A> = Vec::new();
    let mut i: usize = 0;
    while i < n
        invariant
            i <= n,
            n <= items.len(),
            n <= mask.len(),
            kept@ == select_upto(items@, mask@, i as int),
        decreases n - i,
    {
        if mask[i] {
            kept.push(items[i]);
        }
        i = i + 1;
    }
    kept
}

/// Turns the status bytes of a robust fit into a mask: a correspondence is
/// kept where its byte is not zero.
pub fn status_mask(status: &Vec<u8>) -> (mask: Vec<bool>)
    ensures
        mask@ == status@.map_values(|s: u8| status_bit(s)),
{
    let mut mask: Vec<bool> = Vec::new();
    let mut i: usize = 0;
    while i < status.len()
        invariant
            i <= status.len(),
            mask@ == status@.take(i as int).map_values(|s: u8| status_bit(s)),
        decreases status.len() - i,
    {
        mask.push(status[i] != 0);
        proof {
            assert(status@.take(i + 1) == status@.take(i as int).push(status@[i as int]));
            assert(status@.take(i + 1).map_values(|s: u8| status_bit(s))
                =~= status@.take(i as int).map_values(|s: u8| status_bit(s)).push(status_bit(status@[i as int])));
        }
        i = i + 1;
    }
    proof {
        assert(status@.take(status.len() as int) == status@);
    }
    mask
}

} // verus!
