//! Bounded histories that drop their oldest entries.

use vstd::prelude::*;

verus! {

/// The last `n` entries of `s`, or all of them when there are fewer.
pub open spec fn keep_last<T>(s: Seq<T>, n: nat) -> Seq<T> {
    if s.len() <= n {
        s
    } else {
        s.subrange(s.len() - n, s.len() as int)
    }
}

/// Drops the oldest entries until at most `cap` are left.
pub fn trim_to<T>(v: &mut Vec<T>, cap: usize)
    ensures
        final(v)@ == keep_last(old(v)@, cap as nat),
{
    let ghost start = v@;
    while v.len() > cap
        invariant
            v@.len() <= start.len(),
            v@ == start.subrange(start.len() - v@.len(), start.len() as int),
            v@.len() < start.len() ==> v@.len() >= cap,
        decreases v.len(),
    {
        let _dropped = v.remove(0);
    }
    assert(v@ =~= keep_last(start, cap as nat));
}

/// Appends `x` and drops the oldest entries beyond `cap`.
pub fn push_bounded<T>(v: &mut Vec<T>, x: T, cap: usize)
    ensures
        final(v)@ == keep_last(old(v)@.push(x), cap as nat),
{
    v.push(x);
    trim_to(v, cap);
}

/// A bounded history never holds more than its bound, and what it holds is the
/// end of what was recorded.
pub proof fn law_history_is_bounded<T>(s: Seq<T>, n: nat)
    ensures
        keep_last(s, n).len() <= n,
        keep_last(s, n).len() == s.len() || keep_last(s, n).len() == n,
        forall|i: int|
            0 <= i < keep_last(s, n).len() ==> #[trigger] keep_last(s, n)[i] == s[s.len()
                - keep_last(s, n).len() + i],
{
}

} // verus!
