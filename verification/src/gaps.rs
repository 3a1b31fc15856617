//! The sequence gap analyzer: given the numbers that are present in a
//! group (season numbers, episode numbers), computes every number missing
//! from the contiguous range `1..=max`.

use vstd::prelude::*;

verus! {

/// Why a check could not produce a gap list for a group.
#[derive(Clone, Copy, PartialEq, Eq, Structural, Debug)]
pub enum GapError {
    /// The group has no classifiable members, so it has no maximum to
    /// measure gaps against.
    EmptyGroup,
}

/// The uniform result shape of the consistency checks: a group key (a
/// series name) together with the ascending list of numbers the group
/// lacks or is flagged for.
pub struct GapReport {
    pub key: String,
    pub missing: Vec<u32>,
}

/// The largest element of `s`, or `0` for an empty sequence.
pub open spec fn seq_max(s: Seq<u32>) -> int
    decreases s.len(),
{
    if s.len() == 0 {
        0
    } else if s.last() as int >= seq_max(s.drop_last()) {
        s.last() as int
    } else {
        seq_max(s.drop_last())
    }
}

/// The ascending sequence of numbers in `[1, bound)` absent from
/// `present`.
pub open spec fn gaps_below(present: Seq<u32>, bound: int) -> Seq<u32>
    decreases bound,
{
    if bound <= 1 {
        Seq::empty()
    } else if present.contains((bound - 1) as u32) {
        gaps_below(present, bound - 1)
    } else {
        gaps_below(present, bound - 1).push((bound - 1) as u32)
    }
}

/// The ascending sequence of numbers in `[1, max(present)]` absent from
/// `present`: the gaps of the group.
pub open spec fn gap_seq(present: Seq<u32>) -> Seq<u32> {
    gaps_below(present, seq_max(present) + 1)
}

/// `s[i] < s[j]` whenever `i < j`: ascending with no duplicates.
pub open spec fn strictly_ascending(s: Seq<u32>) -> bool {
    forall|i: int, j: int| 0 <= i < j < s.len() ==> s[i] < s[j]
}

/// Elements of `seq_max`'s argument never exceed it, and a nonempty
/// sequence attains it.
pub proof fn lemma_seq_max_props(s: Seq<u32>)
    ensures
        forall|i: int| 0 <= i < s.len() ==> #[trigger] s[i] as int <= seq_max(s),
        forall|v: u32| #[trigger] s.contains(v) ==> v as int <= seq_max(s),
        s.len() > 0 ==> s.contains(seq_max(s) as u32) && 0 <= seq_max(s) <= u32::MAX,
    decreases s.len(),
{
    if s.len() > 0 {
        lemma_seq_max_props(s.drop_last());
        assert(forall|i: int| 0 <= i < s.len() - 1 ==> s.drop_last()[i] == s[i]);
        if s.len() > 1 && seq_max(s) == seq_max(s.drop_last()) {
            let m = seq_max(s.drop_last()) as u32;
            let k = choose|k: int| 0 <= k < s.drop_last().len() && s.drop_last()[k] == m;
            assert(s[k] == m);
        }
    }
    assert forall|v: u32| #[trigger] s.contains(v) implies v as int <= seq_max(s) by {
        let k = choose|k: int| 0 <= k < s.len() && s[k] == v;
        assert(s[k] as int <= seq_max(s));
    }
}

/// What `gaps_below` holds: exactly the numbers of `[1, bound)` not in
/// `present`, in ascending order.
pub proof fn lemma_gaps_below_props(present: Seq<u32>, bound: int)
    requires
        bound <= u32::MAX + 1,
    ensures
        strictly_ascending(gaps_below(present, bound)),
        forall|v: u32|
            #[trigger] gaps_below(present, bound).contains(v)
                <==> 1 <= v < bound && !present.contains(v),
        forall|i: int|
            0 <= i < gaps_below(present, bound).len()
                ==> #[trigger] gaps_below(present, bound)[i] < bound,
    decreases bound,
{
    if bound > 1 {
        lemma_gaps_below_props(present, bound - 1);
        let g = gaps_below(present, bound);
        let g0 = gaps_below(present, bound - 1);
        let x = (bound - 1) as u32;
        if !present.contains(x) {
            assert(g == g0.push(x));
            assert forall|v: u32| #[trigger] g.contains(v) implies g0.contains(v) || v == x by {
                let k = choose|k: int| 0 <= k < g.len() && g[k] == v;
                if k < g.len() - 1 {
                    assert(g0[k] == v);
                }
            }
            assert forall|v: u32| #[trigger] g0.contains(v) implies g.contains(v) by {
                let k = choose|k: int| 0 <= k < g0.len() && g0[k] == v;
                assert(g[k] == v);
            }
            assert(g[g.len() - 1] == x);
            assert(g.contains(x));
            assert forall|i: int, j: int| 0 <= i < j < g.len() implies g[i] < g[j] by {
                if j == g.len() - 1 {
                    assert(g[i] == g0[i]);
                    assert(g0[i] < bound - 1);
                } else {
                    assert(g[i] == g0[i] && g[j] == g0[j]);
                }
            }
            assert forall|v: u32|
                #[trigger] g.contains(v) <==> 1 <= v < bound && !present.contains(v) by {
                assert(g0.contains(v) <==> 1 <= v < bound - 1 && !present.contains(v));
                if 1 <= v < bound && !present.contains(v) && v as int == bound - 1 {
                    assert(v == x);
                }
            }
        } else {
            assert(g == g0);
            assert forall|v: u32|
                #[trigger] g.contains(v) <==> 1 <= v < bound && !present.contains(v) by {
                assert(g0.contains(v) <==> 1 <= v < bound - 1 && !present.contains(v));
                if 1 <= v < bound && !present.contains(v) {
                    assert(v as int != bound - 1);
                }
            }
        }
    } else {
        assert(gaps_below(present, bound) =~= Seq::<u32>::empty());
    }
}

/// Whether `x` occurs in `v`.
pub fn vec_contains_u32(v: &Vec<u32>, x: u32) -> (r: bool)
    ensures
        r == v@.contains(x),
{
    let n = v.len();
    let mut i: usize = 0;
    while i < n
        invariant
            i <= n == v@.len(),
            forall|j: int| 0 <= j < i ==> v@[j] != x,
        decreases n - i,
    {
        if v[i] == x {
            return true;
        }
        i += 1;
    }
    false
}

/// The largest element of `v`, or `0` when `v` is empty.
pub fn vec_max_u32(v: &Vec<u32>) -> (r: u32)
    ensures
        r as int == seq_max(v@),
{
    let n = v.len();
    let mut mx: u32 = 0;
    let mut i: usize = 0;
    assert(v@.subrange(0, 0) =~= Seq::<u32>::empty());
    while i < n
        invariant
            i <= n == v@.len(),
            mx as int == seq_max(v@.subrange(0, i as int)),
        decreases n - i,
    {
        proof {
            let t = v@.subrange(0, i + 1);
            assert(t.drop_last() =~= v@.subrange(0, i as int));
            assert(t.last() == v@[i as int]);
            lemma_seq_max_props(v@.subrange(0, i as int));
        }
        if v[i] > mx {
            mx = v[i];
        }
        i += 1;
    }
    assert(v@.subrange(0, n as int) =~= v@);
    mx
}

/// Computes the ascending list of numbers missing from the contiguous
/// range `1..=max(present)`. A group with no members has no maximum, so
/// it is an `EmptyGroup` error rather than a gapless success.
pub fn missing_from_range(present: &Vec<u32>) -> (r: Result<Vec<u32>, GapError>)
    ensures
        r is Err <==> present@.len() == 0,
        r matches Err(e) ==> e == GapError::EmptyGroup,
        r matches Ok(m) ==> {
            &&& m@ == gap_seq(present@)
            &&& strictly_ascending(m@)
            &&& forall|v: u32|
                #[trigger] m@.contains(v) <==> 1 <= v <= seq_max(present@) && !present@.contains(v)
        },
{
    if present.len() == 0 {
        return Err(GapError::EmptyGroup);
    }
    let mx = vec_max_u32(present);
    let mut m: Vec<u32> = Vec::new();
    let mut v: u64 = 1;
    assert(m@ =~= gaps_below(present@, 1));
    while v <= mx as u64
        invariant
            1 <= v <= mx as int + 1,
            mx as int == seq_max(present@),
            m@ == gaps_below(present@, v as int),
        decreases mx as int + 1 - v as int,
    {
        if !vec_contains_u32(present, v as u32) {
            m.push(v as u32);
        }
        v += 1;
    }
    proof {
        lemma_gaps_below_props(present@, mx as int + 1);
        lemma_seq_max_props(present@);
    }
    Ok(m)
}

/// Sorts `xs` ascending and drops duplicates: the result holds exactly
/// the values of `xs`, each once, in ascending order.
pub fn sorted_dedup(xs: &Vec<u32>) -> (r: Vec<u32>)
    ensures
        strictly_ascending(r@),
        forall|v: u32| #[trigger] r@.contains(v) <==> xs@.contains(v),
{
    let n = xs.len();
    let mut r: Vec<u32> = Vec::new();
    let mut i: usize = 0;
    while i < n
        invariant
            i <= n == xs@.len(),
            strictly_ascending(r@),
            forall|v: u32| #[trigger] r@.contains(v) <==> xs@.subrange(0, i as int).contains(v),
        decreases n - i,
    {
        let x = xs[i];
        let mut j: usize = 0;
        while j < r.len() && r[j] < x
            invariant
                j <= r@.len(),
                strictly_ascending(r@),
                forall|k: int| 0 <= k < j ==> r@[k] < x,
            decreases r@.len() - j,
        {
            j += 1;
        }
        let ghost before = r@;
        if j == r.len() || r[j] > x {
            r.insert(j, x);
            proof {
                assert(r@ == before.insert(j as int, x));
                assert(forall|k: int| 0 <= k < j ==> r@[k] == before[k]);
                assert(r@[j as int] == x);
                assert(forall|k: int| j < k < r@.len() ==> r@[k] == before[k - 1]);
                assert forall|a: int, b: int| 0 <= a < b < r@.len() implies r@[a] < r@[b] by {
                    if a < j && b == j {
                        assert(r@[a] == before[a] && before[a] < x);
                    } else if a == j && b > j {
                        assert(r@[b] == before[b - 1]);
                        assert(before[j as int] > x || j as int >= before.len());
                        assert(b - 1 >= j);
                    } else if a < j && b > j {
                        assert(r@[a] == before[a] && r@[b] == before[b - 1]);
                        assert(before[a] < x);
                        assert(b - 1 >= j);
                    }
                }
                assert forall|v: u32| #[trigger] r@.contains(v) implies before.contains(v) || v
                    == x by {
                    let k = choose|k: int| 0 <= k < r@.len() && r@[k] == v;
                    if k < j {
                        assert(before[k] == v);
                    } else if k > j {
                        assert(before[k - 1] == v);
                    }
                }
                assert forall|v: u32| before.contains(v) implies r@.contains(v) by {
                    let k = choose|k: int| 0 <= k < before.len() && before[k] == v;
                    if k < j {
                        assert(r@[k] == v);
                    } else {
                        assert(r@[k + 1] == v);
                    }
                }
                assert(r@[j as int] == x);
                assert(forall|v: u32|
                    #[trigger] r@.contains(v) <==> before.contains(v) || v == x);
            }
        } else {
            proof {
                assert(r@[j as int] == x);
                assert(r@.contains(x));
                assert(forall|v: u32|
                    #[trigger] r@.contains(v) <==> before.contains(v) || v == x);
            }
        }
        proof {
            let old_sub = xs@.subrange(0, i as int);
            let t = xs@.subrange(0, i + 1);
            assert(t.drop_last() =~= old_sub);
            assert(t.last() == xs@[i as int]);
            assert forall|v: u32| #[trigger] t.contains(v) implies old_sub.contains(v) || v
                == x by {
                let k = choose|k: int| 0 <= k < t.len() && t[k] == v;
                if k < i {
                    assert(old_sub[k] == v);
                }
            }
            assert forall|v: u32| old_sub.contains(v) implies t.contains(v) by {
                let k = choose|k: int| 0 <= k < i && old_sub[k] == v;
                assert(t[k] == v);
            }
            assert(t.contains(x)) by {
                assert(t[i as int] == x);
            }
            assert forall|v: u32| #[trigger] r@.contains(v) <==> t.contains(v) by {
                assert(before.contains(v) <==> old_sub.contains(v));
                assert(r@.contains(v) <==> before.contains(v) || v == x);
                if t.contains(v) {
                    assert(old_sub.contains(v) || v == x);
                }
                if old_sub.contains(v) {
                    assert(t.contains(v));
                }
            }
        }
        i += 1;
    }
    assert(xs@.subrange(0, n as int) =~= xs@);
    r
}

/// Adding a group's gaps back to the group fills the range: the combined
/// group keeps the same maximum and has no gaps left. Stated over any
/// interleaving `u` of the members and the gaps.
pub proof fn lemma_gaps_filled(present: Seq<u32>, u: Seq<u32>)
    requires
        present.len() > 0,
        forall|v: u32| #[trigger] u.contains(v) <==> present.contains(v) || gap_seq(present).contains(v),
    ensures
        seq_max(u) == seq_max(present),
        gap_seq(u).len() == 0,
{
    lemma_seq_max_props(present);
    lemma_seq_max_props(u);
    let m = seq_max(present);
    lemma_gaps_below_props(present, m + 1);
    assert(0 <= m <= u32::MAX);
    assert(u.contains(m as u32));
    assert(u.len() > 0) by {
        let k = choose|k: int| 0 <= k < u.len() && u[k] == m as u32;
    }
    let mu = seq_max(u);
    assert(m <= mu);
    assert(u.contains(mu as u32));
    assert(present.contains(mu as u32) || gap_seq(present).contains(mu as u32));
    assert(mu <= m);
    lemma_gaps_below_props(u, m + 1);
    if gap_seq(u).len() > 0 {
        let w = gap_seq(u)[0];
        assert(gap_seq(u).contains(w));
        assert(gap_seq(present).contains(w));
    }
}

} // verus!
