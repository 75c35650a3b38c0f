//! Laws of the buffer's abstract model.
//!
//! Every executable operation's contract describes a single step over the
//! `Seq`-valued view of the buffer: an accepted insertion appends to the
//! window, a removal returns the head and drops it.  The spec functions here
//! iterate those single steps, and the proof functions state the multi-step
//! laws of the structure: FIFO order, bulk-drain equivalence, and traversal
//! consistency.

use vstd::math::min;
use vstd::prelude::*;

verus! {

/// The window after pushing every value of `vals`, in order, onto a buffer
/// whose window is `s`, each insertion accepted (the buffer never full).
pub open spec fn inserted_all<T>(s: Seq<T>, vals: Seq<T>) -> Seq<T>
    decreases vals.len(),
{
    if vals.len() == 0 {
        s
    } else {
        inserted_all(s.push(vals[0]), vals.drop_first())
    }
}

/// The values that `k` single-element removals from a window `s` yield, in
/// the order they are returned.  Once the window is empty, further removals
/// yield nothing.
pub open spec fn drained_values<T>(s: Seq<T>, k: int) -> Seq<T>
    decreases k,
{
    if k <= 0 || s.len() == 0 {
        Seq::empty()
    } else {
        seq![s[0]] + drained_values(s.drop_first(), k - 1)
    }
}

/// The window that `k` single-element removals from a window `s` leave
/// behind.
pub open spec fn remaining_after<T>(s: Seq<T>, k: int) -> Seq<T>
    decreases k,
{
    if k <= 0 || s.len() == 0 {
        s
    } else {
        remaining_after(s.drop_first(), k - 1)
    }
}

/// Accepted insertions append: pushing `vals` in order onto a window `s`
/// yields the window `s + vals`.
proof fn lemma_inserted_all_appends<T>(s: Seq<T>, vals: Seq<T>)
    ensures
        inserted_all(s, vals) == s + vals,
    decreases vals.len(),
{
    if vals.len() == 0 {
        assert(s + vals =~= s);
    } else {
        lemma_inserted_all_appends(s.push(vals[0]), vals.drop_first());
        assert(s.push(vals[0]) + vals.drop_first() =~= s + vals);
    }
}

/// `k` removals from a window `s` with at least `k` elements yield exactly
/// the first `k` elements of `s`, in order, and leave the rest.
proof fn lemma_drained_prefix<T>(s: Seq<T>, k: int)
    requires
        0 <= k <= s.len(),
    ensures
        drained_values(s, k) == s.take(k),
        remaining_after(s, k) == s.skip(k),
    decreases k,
{
    if k <= 0 || s.len() == 0 {
        assert(s.take(0) =~= Seq::<T>::empty());
        assert(s.skip(0) =~= s);
    } else {
        lemma_drained_prefix(s.drop_first(), k - 1);
        assert(seq![s[0]] + s.drop_first().take(k - 1) =~= s.take(k));
        assert(s.drop_first().skip(k - 1) =~= s.skip(k));
    }
}

/// Removals beyond the window's length yield the whole window and nothing
/// more.
proof fn lemma_drained_saturates<T>(s: Seq<T>, k: int)
    requires
        k >= s.len(),
    ensures
        drained_values(s, k) == s,
        remaining_after(s, k) == Seq::<T>::empty(),
    decreases s.len(),
{
    if s.len() == 0 {
        assert(drained_values(s, k) =~= s);
    } else {
        lemma_drained_saturates(s.drop_first(), k - 1);
        assert(seq![s[0]] + s.drop_first() =~= s);
    }
}

/// FIFO order: any number of accepted insertions of values into an empty
/// buffer, followed by that many removals, yields exactly those values in
/// the order they were inserted.
pub proof fn lemma_fifo_order<T>(vals: Seq<T>, cap: int)
    requires
        vals.len() <= cap,
    ensures
        inserted_all(Seq::<T>::empty(), vals) == vals,
        drained_values(inserted_all(Seq::<T>::empty(), vals), vals.len() as int) == vals,
{
    lemma_inserted_all_appends(Seq::<T>::empty(), vals);
    assert(Seq::<T>::empty() + vals =~= vals);
    lemma_drained_prefix(vals, vals.len() as int);
    assert(vals.take(vals.len() as int) =~= vals);
}

/// Bulk-drain equivalence: a bulk drain of a window `s` into a destination
/// of length `dest_len` removes `min(len, dest_len)` elements, and returns
/// the same values, in the same order, as that many sequential
/// single-element removals, leaving the same window behind.
pub proof fn lemma_bulk_drain_equivalence<T>(s: Seq<T>, dest_len: int)
    requires
        0 <= dest_len,
    ensures
        drained_values(s, min(s.len() as int, dest_len)) == s.take(
            min(s.len() as int, dest_len),
        ),
        remaining_after(s, min(s.len() as int, dest_len)) == s.skip(
            min(s.len() as int, dest_len),
        ),
{
    lemma_drained_prefix(s, min(s.len() as int, dest_len));
}

/// Traversal consistency: a traversal over a window `s` yields exactly the
/// elements of `s`, oldest first, drains it completely, and yields nothing
/// further however often it is queried after exhaustion.  Both traversal
/// shapes step by the same head-then-rest rule, so two traversals created
/// from the same window yield element-wise equal sequences.
pub proof fn lemma_traversal_consistency<T>(s: Seq<T>)
    ensures
        drained_values(s, s.len() as int) == s,
        remaining_after(s, s.len() as int) == Seq::<T>::empty(),
        forall|k: int| k >= s.len() ==> drained_values(s, k) == s,
{
    lemma_drained_saturates(s, s.len() as int);
    assert forall|k: int| k >= s.len() implies drained_values(s, k) == s by {
        lemma_drained_saturates(s, k);
    }
}

} // verus!

