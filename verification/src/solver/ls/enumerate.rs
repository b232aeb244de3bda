use vstd::prelude::*;

verus! {

/// Lexicographic order on pairs of positions.
pub open spec fn pair_lt(a: (int, int), b: (int, int)) -> bool {
    a.0 < b.0 || (a.0 == b.0 && a.1 < b.1)
}

/// `ps` holds the pair `(a, b)`.
pub open spec fn has_pair(ps: Seq<(usize, usize)>, a: int, b: int) -> bool {
    exists|k: int| 0 <= k < ps.len() && ps[k].0 == a && ps[k].1 == b
}

/// `ps` lists, in increasing lexicographic order and once each, exactly the
/// pairs `(a, b)` with `a < n1`, `b < n2` and `pred(a, b)`: the order in which
/// two nested loops over `a` then `b` meet them.
pub open spec fn is_enumeration(
    ps: Seq<(usize, usize)>,
    n1: int,
    n2: int,
    pred: spec_fn(int, int) -> bool,
) -> bool {
    &&& forall|k: int|
        #![trigger ps[k]]
        0 <= k < ps.len() ==> ps[k].0 < n1 && ps[k].1 < n2 && pred(ps[k].0 as int, ps[k].1 as int)
    &&& forall|k1: int, k2: int|
        #![trigger ps[k1], ps[k2]]
        0 <= k1 < k2 < ps.len() ==> pair_lt(
            (ps[k1].0 as int, ps[k1].1 as int),
            (ps[k2].0 as int, ps[k2].1 as int),
        )
    &&& forall|a: int, b: int|
        0 <= a < n1 && 0 <= b < n2 && pred(a, b) ==> #[trigger] has_pair(ps, a, b)
}

/// The pairs `(a, b)` with `a < n1` and `b < n2` that `keep` accepts, in the
/// order of two nested loops.
pub fn enumerate_pairs<F: Fn(usize, usize) -> bool>(
    n1: usize,
    n2: usize,
    keep: F,
    Ghost(pred): Ghost<spec_fn(int, int) -> bool>,
) -> (r: Vec<(usize, usize)>)
    requires
        forall|a: usize, b: usize| keep.requires((a, b)),
        forall|a: usize, b: usize, res: bool|
            a < n1 && b < n2 && keep.ensures((a, b), res) ==> res == pred(a as int, b as int),
    ensures
        is_enumeration(r@, n1 as int, n2 as int, pred),
{
    let mut out: Vec<(usize, usize)> = Vec::new();
    let mut a: usize = 0;
    while a < n1
        invariant
            a <= n1,
            forall|a: usize, b: usize| keep.requires((a, b)),
            forall|a: usize, b: usize, res: bool|
                a < n1 && b < n2 && keep.ensures((a, b), res) ==> res == pred(a as int, b as int),
            forall|k: int|
                #![trigger out@[k]]
                0 <= k < out@.len() ==> out@[k].0 < a && out@[k].1 < n2 && pred(
                    out@[k].0 as int,
                    out@[k].1 as int,
                ),
            forall|k1: int, k2: int|
                #![trigger out@[k1], out@[k2]]
                0 <= k1 < k2 < out@.len() ==> pair_lt(
                    (out@[k1].0 as int, out@[k1].1 as int),
                    (out@[k2].0 as int, out@[k2].1 as int),
                ),
            forall|x: int, y: int|
                0 <= x < a && 0 <= y < n2 && pred(x, y) ==> #[trigger] has_pair(out@, x, y),
        decreases n1 - a,
    {
        let mut b: usize = 0;
        while b < n2
            invariant
                a < n1,
                b <= n2,
                forall|a: usize, b: usize| keep.requires((a, b)),
                forall|a: usize, b: usize, res: bool|
                    a < n1 && b < n2 && keep.ensures((a, b), res) ==> res == pred(
                        a as int,
                        b as int,
                    ),
                forall|k: int|
                    #![trigger out@[k]]
                    0 <= k < out@.len() ==> pair_lt(
                        (out@[k].0 as int, out@[k].1 as int),
                        (a as int, b as int),
                    ) && out@[k].1 < n2 && pred(out@[k].0 as int, out@[k].1 as int),
                forall|k1: int, k2: int|
                    #![trigger out@[k1], out@[k2]]
                    0 <= k1 < k2 < out@.len() ==> pair_lt(
                        (out@[k1].0 as int, out@[k1].1 as int),
                        (out@[k2].0 as int, out@[k2].1 as int),
                    ),
                forall|x: int, y: int|
                    ((0 <= x < a && 0 <= y < n2) || (x == a && 0 <= y < b)) && pred(x, y)
                        ==> #[trigger] has_pair(out@, x, y),
            decreases n2 - b,
        {
            let ghost prev = out@;
            if keep(a, b) {
                out.push((a, b));
                assert forall|k: int| 0 <= k < prev.len() implies out@[k] == prev[k] by {}
            }
            assert forall|x: int, y: int|
                ((0 <= x < a && 0 <= y < n2) || (x == a && 0 <= y < b + 1)) && pred(
                    x,
                    y,
                ) implies #[trigger] has_pair(out@, x, y) by {
                if x == a && y == b {
                    assert(out@[prev.len() as int] == (a, b));
                } else {
                    assert(has_pair(prev, x, y));
                    let k = choose|k: int| 0 <= k < prev.len() && prev[k].0 == x && prev[k].1 == y;
                    assert(out@[k] == prev[k]);
                }
            }
            b = b + 1;
        }
        assert forall|k: int| #![trigger out@[k]] 0 <= k < out@.len() implies out@[k].0 < a + 1 by {
            assert(pair_lt((out@[k].0 as int, out@[k].1 as int), (a as int, b as int)));
        }
        a = a + 1;
    }
    out
}

/// Two sequences that each list the pairs that `pred` accepts, in
/// increasing order and once each, agree up to position `i`.
proof fn lemma_enumerations_agree_upto(
    p: Seq<(usize, usize)>,
    q: Seq<(usize, usize)>,
    n1: int,
    n2: int,
    pred: spec_fn(int, int) -> bool,
    i: int,
)
    requires
        is_enumeration(p, n1, n2, pred),
        is_enumeration(q, n1, n2, pred),
        0 <= i < p.len(),
        i < q.len(),
    ensures
        forall|j: int| 0 <= j <= i ==> p[j] == q[j],
    decreases i,
{
    if i > 0 {
        lemma_enumerations_agree_upto(p, q, n1, n2, pred, i - 1);
    }
    let a = p[i];
    let b = q[i];
    assert(has_pair(q, a.0 as int, a.1 as int));
    assert(has_pair(p, b.0 as int, b.1 as int));
    let m = choose|k: int| 0 <= k < q.len() && q[k].0 == a.0 && q[k].1 == a.1;
    let m2 = choose|k: int| 0 <= k < p.len() && p[k].0 == b.0 && p[k].1 == b.1;
    if m < i {
        assert(q[m] == p[m]);
        assert(pair_lt((p[m].0 as int, p[m].1 as int), (p[i].0 as int, p[i].1 as int)));
    }
    if m2 < i {
        assert(p[m2] == q[m2]);
        assert(pair_lt((q[m2].0 as int, q[m2].1 as int), (q[i].0 as int, q[i].1 as int)));
    }
    if a != b {
        assert(m != i);
        assert(m2 != i);
        assert(pair_lt((q[i].0 as int, q[i].1 as int), (q[m].0 as int, q[m].1 as int)));
        assert(pair_lt((p[i].0 as int, p[i].1 as int), (p[m2].0 as int, p[m2].1 as int)));
    }
}

/// The listing in increasing order of the pairs that `pred` accepts is
/// unique.
pub proof fn lemma_enumeration_unique(
    p: Seq<(usize, usize)>,
    q: Seq<(usize, usize)>,
    n1: int,
    n2: int,
    pred: spec_fn(int, int) -> bool,
)
    requires
        is_enumeration(p, n1, n2, pred),
        is_enumeration(q, n1, n2, pred),
    ensures
        p == q,
{
    lemma_listing_no_longer(p, q, n1, n2, pred);
    lemma_listing_no_longer(q, p, n1, n2, pred);
    if p.len() > 0 {
        lemma_enumerations_agree_upto(p, q, n1, n2, pred, p.len() - 1);
    }
    assert(p =~= q);
}

/// A listing is no longer than another listing of the same pairs.
proof fn lemma_listing_no_longer(
    p: Seq<(usize, usize)>,
    q: Seq<(usize, usize)>,
    n1: int,
    n2: int,
    pred: spec_fn(int, int) -> bool,
)
    requires
        is_enumeration(p, n1, n2, pred),
        is_enumeration(q, n1, n2, pred),
    ensures
        p.len() <= q.len(),
{
    if p.len() > q.len() {
        let i = q.len() as int;
        let a = p[i];
        assert(has_pair(q, a.0 as int, a.1 as int));
        let m = choose|k: int| 0 <= k < q.len() && q[k].0 == a.0 && q[k].1 == a.1;
        lemma_enumerations_agree_upto(p, q, n1, n2, pred, i - 1);
        assert(q[m] == p[m]);
        assert(pair_lt((p[m].0 as int, p[m].1 as int), (p[i].0 as int, p[i].1 as int)));
    }
}

} // verus!
