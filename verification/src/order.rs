//! Stable ordering by integer keys.

use vstd::prelude::*;

verus! {

/// Unsigned numbers as keys.
pub open spec fn widened(v: Seq<u64>) -> Seq<i128> {
    Seq::new(v.len(), |i: int| v[i] as i128)
}

/// Unsigned numbers as keys.
pub fn widen(v: &Vec<u64>) -> (r: Vec<i128>)
    ensures
        r@ == widened(v@),
{
    let mut out: Vec<i128> = Vec::new();
    let mut i: usize = 0;
    while i < v.len()
        invariant
            i <= v@.len(),
            out@ == widened(v@.take(i as int)),
        decreases v@.len() - i,
    {
        out.push(v[i] as i128);
        i += 1;
        assert(out@ =~= widened(v@.take(i as int)));
    }
    assert(v@.take(i as int) =~= v@);
    out
}

/// Whether item `a` comes before item `b`: by key, the greater first when
/// `descending`, and by position where the keys are equal.
pub open spec fn ahead(keys: Seq<i128>, descending: bool, a: int, b: int) -> bool {
    ||| keys[a] != keys[b] && (keys[a] > keys[b]) == descending
    ||| keys[a] == keys[b] && a < b
}

/// Whether `perm` lists the positions of `keys` in their stable order. There is
/// exactly one such list.
pub open spec fn stable_order(keys: Seq<i128>, descending: bool, perm: Seq<usize>) -> bool {
    &&& perm.len() == keys.len()
    &&& forall|i: int| 0 <= i < perm.len() ==> #[trigger] perm[i] < keys.len()
    &&& forall|k: usize| k < keys.len() ==> #[trigger] perm.contains(k)
    &&& forall|i: int, j: int|
        0 <= i < j < perm.len() ==> ahead(
            keys,
            descending,
            #[trigger] perm[i] as int,
            #[trigger] perm[j] as int,
        )
}

/// Whether the first item comes before the second.
fn is_ahead(keys: &Vec<i128>, descending: bool, a: usize, b: usize) -> (r: bool)
    requires
        a < keys@.len(),
        b < keys@.len(),
    ensures
        r == ahead(keys@, descending, a as int, b as int),
{
    if keys[a] == keys[b] {
        a < b
    } else {
        (keys[a] > keys[b]) == descending
    }
}

/// The positions of `keys` in their stable order.
pub fn ranked(keys: &Vec<i128>, descending: bool) -> (r: Vec<usize>)
    ensures
        stable_order(keys@, descending, r@),
{
    let n: usize = keys.len();
    let mut perm: Vec<usize> = Vec::new();
    let mut i: usize = 0;
    while i < n
        invariant
            i <= n,
            n == keys@.len(),
            perm@.len() == i,
            forall|x: int| 0 <= x < i ==> #[trigger] perm@[x] < i,
            forall|k: usize| k < i ==> #[trigger] perm@.contains(k),
            forall|x: int, y: int|
                0 <= x < y < i ==> ahead(
                    keys@,
                    descending,
                    #[trigger] perm@[x] as int,
                    #[trigger] perm@[y] as int,
                ),
        decreases n - i,
    {
        let mut p: usize = 0;
        while p < perm.len() && !is_ahead(keys, descending, i, perm[p])
            invariant
                p <= perm@.len(),
                perm@.len() == i,
                i < n,
                n == keys@.len(),
                forall|x: int| 0 <= x < i ==> #[trigger] perm@[x] < i,
                forall|x: int|
                    0 <= x < p ==> !ahead(keys@, descending, i as int, #[trigger] perm@[x] as int),
            decreases perm@.len() - p,
        {
            p += 1;
        }
        let ghost before = perm@;
        perm.insert(p, i);
        proof {
            assert(perm@[p as int] == i);
            assert forall|k: usize| k < i + 1 implies #[trigger] perm@.contains(k) by {
                if k < i {
                    assert(before.contains(k));
                    let x = before.index_of(k);
                    if x < p {
                        assert(perm@[x] == k);
                    } else {
                        assert(perm@[x + 1] == k);
                    }
                }
            }
            assert forall|x: int, y: int| 0 <= x < y < i + 1 implies ahead(
                keys@,
                descending,
                #[trigger] perm@[x] as int,
                #[trigger] perm@[y] as int,
            ) by {
                let bx = if x < p { x } else { x - 1 };
                let by = if y < p { y } else { y - 1 };
                if x != p {
                    assert(perm@[x] == before[bx]);
                }
                if y != p {
                    assert(perm@[y] == before[by]);
                }
                if x == p && by > p {
                    assert(ahead(keys@, descending, before[p as int] as int, before[by] as int));
                }
            }
        }
        i += 1;
    }
    perm
}

/// A stable order is unique.
pub proof fn law_stable_order_is_unique(
    keys: Seq<i128>,
    descending: bool,
    a: Seq<usize>,
    b: Seq<usize>,
)
    requires
        stable_order(keys, descending, a),
        stable_order(keys, descending, b),
    ensures
        a == b,
{
    assert forall|i: int| 0 <= i < a.len() implies a[i] == b[i] by {
        lemma_same_prefix(keys, descending, a, b, i + 1);
    }
    assert(a =~= b);
}

/// Two stable orders agree on every prefix.
proof fn lemma_same_prefix(
    keys: Seq<i128>,
    descending: bool,
    a: Seq<usize>,
    b: Seq<usize>,
    n: int,
)
    requires
        stable_order(keys, descending, a),
        stable_order(keys, descending, b),
        0 <= n <= keys.len(),
    ensures
        forall|i: int| 0 <= i < n ==> a[i] == b[i],
    decreases n,
{
    if n > 0 {
        lemma_same_prefix(keys, descending, a, b, n - 1);
        let i = n - 1;
        if a[i] != b[i] {
            assert(b.contains(a[i]));
            let j = b.index_of(a[i]);
            assert(b[j] == a[i]);
            if j < i {
                assert(a[j] == b[j]);
                assert(ahead(keys, descending, a[j] as int, a[i] as int));
            }
            assert(a.contains(b[i]));
            let k = a.index_of(b[i]);
            assert(a[k] == b[i]);
            if k < i {
                assert(a[k] == b[k]);
                assert(ahead(keys, descending, b[k] as int, b[i] as int));
            }
            assert(ahead(keys, descending, b[i] as int, b[j] as int));
            assert(ahead(keys, descending, a[i] as int, a[k] as int));
        }
    }
}

/// A stable order lists every item once, the keys in the direction asked for,
/// and items with equal keys in the order in which they came.
pub proof fn law_stable_order_sorts(
    keys: Seq<i128>,
    descending: bool,
    perm: Seq<usize>,
    i: int,
    j: int,
)
    requires
        stable_order(keys, descending, perm),
        0 <= i < j < perm.len(),
    ensures
        descending ==> keys[perm[i] as int] >= keys[perm[j] as int],
        !descending ==> keys[perm[i] as int] <= keys[perm[j] as int],
        keys[perm[i] as int] == keys[perm[j] as int] ==> perm[i] < perm[j],
        perm[i] != perm[j],
        perm.len() == keys.len(),
{
    assert(ahead(keys, descending, perm[i] as int, perm[j] as int));
}

} // verus!
