//! Listing positions in time order.
//!
//! Both the history of a key and the alert log are listed by time. A listing
//! names the chosen positions of a sequence of instants, earliest first, two
//! positions with the same instant in the order in which they stand.

use vstd::prelude::*;

verus! {

/// Position `a` is listed before position `b`: its instant is earlier, or the
/// instants are equal and `a` stands first.
pub open spec fn earlier(times: Seq<i64>, a: int, b: int) -> bool {
    times[a] < times[b] || (times[a] == times[b] && a < b)
}

/// `picks` lists exactly the chosen positions of `times`, each once, in time
/// order.
pub open spec fn is_time_order(times: Seq<i64>, chosen: Seq<bool>, picks: Seq<int>) -> bool {
    &&& forall|j: int|
        0 <= j < picks.len() ==> 0 <= #[trigger] picks[j] < times.len() && chosen[picks[j]]
    &&& forall|i: int, j: int|
        0 <= i < j < picks.len() ==> earlier(times, #[trigger] picks[i], #[trigger] picks[j])
    &&& forall|r: int| 0 <= r < times.len() && #[trigger] chosen[r] ==> picks.contains(r)
}

/// The chosen positions of `times` in time order.
pub open spec fn time_order(times: Seq<i64>, chosen: Seq<bool>) -> Seq<int> {
    choose|picks: Seq<int>| is_time_order(times, chosen, picks)
}

/// A strict order admits one listing of a given set of items: two sequences
/// that are each strictly ascending and hold the same items are equal.
pub proof fn lemma_strict_listing_unique<A>(p: Seq<A>, q: Seq<A>, before: spec_fn(A, A) -> bool)
    requires
        forall|x: A| !#[trigger] before(x, x),
        forall|x: A, y: A, z: A| #[trigger]
            before(x, y) && #[trigger] before(y, z) ==> before(x, z),
        forall|i: int, j: int| 0 <= i < j < p.len() ==> before(#[trigger] p[i], #[trigger] p[j]),
        forall|i: int, j: int| 0 <= i < j < q.len() ==> before(#[trigger] q[i], #[trigger] q[j]),
        forall|x: A| p.contains(x) <==> q.contains(x),
    ensures
        p == q,
    decreases p.len(),
{
    if p.len() == 0 {
        if q.len() > 0 {
            assert(q.contains(q[0]));
        }
        assert(p =~= q);
    } else {
        assert(p.contains(p[0]));
        assert(q.contains(p[0]));
        let m = choose|m: int| 0 <= m < q.len() && q[m] == p[0];
        assert(q.contains(q[0]));
        let n = choose|n: int| 0 <= n < p.len() && p[n] == q[0];
        if m > 0 {
            assert(before(q[0], q[m]));
            if n > 0 {
                assert(before(p[0], p[n]));
            }
            assert(false);
        }
        let pt = p.drop_first();
        let qt = q.drop_first();
        assert forall|x: A| pt.contains(x) <==> qt.contains(x) by {
            if pt.contains(x) {
                let i = choose|i: int| 0 <= i < pt.len() && pt[i] == x;
                assert(p[i + 1] == x);
                assert(before(p[0], p[i + 1]));
                assert(q.contains(x));
                let j = choose|j: int| 0 <= j < q.len() && q[j] == x;
                assert(j > 0);
                assert(qt[j - 1] == x);
            }
            if qt.contains(x) {
                let i = choose|i: int| 0 <= i < qt.len() && qt[i] == x;
                assert(q[i + 1] == x);
                assert(before(q[0], q[i + 1]));
                assert(p.contains(x));
                let j = choose|j: int| 0 <= j < p.len() && p[j] == x;
                assert(j > 0);
                assert(pt[j - 1] == x);
            }
        }
        assert forall|i: int, j: int| 0 <= i < j < pt.len() implies before(
            #[trigger] pt[i],
            #[trigger] pt[j],
        ) by {
            assert(before(p[i + 1], p[j + 1]));
        }
        assert forall|i: int, j: int| 0 <= i < j < qt.len() implies before(
            #[trigger] qt[i],
            #[trigger] qt[j],
        ) by {
            assert(before(q[i + 1], q[j + 1]));
        }
        lemma_strict_listing_unique(pt, qt, before);
        assert(p =~= seq![p[0]] + pt);
        assert(q =~= seq![q[0]] + qt);
    }
}

/// There is one time order of the chosen positions.
pub proof fn lemma_time_order_unique(times: Seq<i64>, chosen: Seq<bool>, picks: Seq<int>)
    requires
        is_time_order(times, chosen, picks),
    ensures
        picks == time_order(times, chosen),
{
    let other = time_order(times, chosen);
    let before = |a: int, b: int| earlier(times, a, b);
    assert forall|x: int| picks.contains(x) <==> other.contains(x) by {
        if picks.contains(x) {
            let j = choose|j: int| 0 <= j < picks.len() && picks[j] == x;
            assert(chosen[picks[j]]);
        }
        if other.contains(x) {
            let j = choose|j: int| 0 <= j < other.len() && other[j] == x;
            assert(chosen[other[j]]);
        }
    }
    lemma_strict_listing_unique(picks, other, before);
}

/// Lists the chosen positions of `times` in time order.
pub fn list_in_time_order(times: &Vec<i64>, chosen: &Vec<bool>) -> (picks: Vec<usize>)
    requires
        times.len() == chosen.len(),
    ensures
        picks@.map_values(|p: usize| p as int) == time_order(times@, chosen@),
        is_time_order(times@, chosen@, picks@.map_values(|p: usize| p as int)),
{
    let mut picks: Vec<usize> = Vec::new();
    let mut i: usize = 0;
    while i < times.len()
        invariant
            i <= times.len(),
            times.len() == chosen.len(),
            is_time_order(
                times@.take(i as int),
                chosen@.take(i as int),
                picks@.map_values(|p: usize| p as int),
            ),
        decreases times.len() - i,
    {
        let ghost before = picks@.map_values(|p: usize| p as int);
        if chosen[i] {
            let mut pos: usize = picks.len();
            assert forall|j: int| 0 <= j < picks.len() implies #[trigger] picks@[j] < i by {
                assert(0 <= before[j] < i);
            }
            while pos > 0 && times[picks[pos - 1]] > times[i]
                invariant
                    pos <= picks.len(),
                    i < times.len(),
                    before == picks@.map_values(|p: usize| p as int),
                    is_time_order(times@.take(i as int), chosen@.take(i as int), before),
                    forall|j: int| 0 <= j < picks.len() ==> #[trigger] picks@[j] < i,
                    forall|j: int|
                        pos <= j < picks.len() ==> times@[#[trigger] before[j]] > times@[i as int],
                decreases pos,
            {
                assert(0 <= before[pos - 1] < i);
                pos -= 1;
            }
            picks.insert(pos, i);
            proof {
                let after = picks@.map_values(|p: usize| p as int);
                let t1 = times@.take(i as int + 1);
                let c1 = chosen@.take(i as int + 1);
                assert(after =~= before.insert(pos as int, i as int));
                assert forall|j: int| 0 <= j < after.len() implies 0 <= #[trigger] after[j]
                    < t1.len() && c1[after[j]] by {
                    if j < pos {
                        assert(after[j] == before[j]);
                    } else if j > pos {
                        assert(after[j] == before[j - 1]);
                    }
                }
                assert forall|a: int, b: int| 0 <= a < b < after.len() implies earlier(
                    t1,
                    #[trigger] after[a],
                    #[trigger] after[b],
                ) by {
                    let xa = if a < pos { a } else { a - 1 };
                    let xb = if b < pos { b } else { b - 1 };
                    if a != pos && b != pos {
                        assert(after[a] == before[xa]);
                        assert(after[b] == before[xb]);
                        assert(earlier(times@.take(i as int), before[xa], before[xb]));
                    } else if a == pos {
                        assert(after[b] == before[xb]);
                        assert(times@[before[xb]] > times@[i as int]);
                    } else {
                        assert(after[a] == before[xa]);
                        assert(0 <= before[xa] < i);
                        if pos > 0 {
                            assert(0 <= before[pos - 1] < i);
                            if xa < pos - 1 {
                                assert(earlier(
                                    times@.take(i as int),
                                    before[xa],
                                    before[pos - 1],
                                ));
                            }
                        }
                    }
                }
                assert forall|r: int| 0 <= r < t1.len() && #[trigger] c1[r] implies after.contains(
                    r,
                ) by {
                    if r < i {
                        assert(chosen@.take(i as int)[r]);
                        assert(before.contains(r));
                        let j = choose|j: int| 0 <= j < before.len() && before[j] == r;
                        if j < pos {
                            assert(after[j] == r);
                        } else {
                            assert(after[j + 1] == r);
                        }
                    } else {
                        assert(after[pos as int] == r);
                    }
                }
            }
        } else {
            proof {
                let t1 = times@.take(i as int + 1);
                let c1 = chosen@.take(i as int + 1);
                assert forall|j: int| 0 <= j < before.len() implies 0 <= #[trigger] before[j]
                    < t1.len() && c1[before[j]] by {}
                assert forall|a: int, b: int| 0 <= a < b < before.len() implies earlier(
                    t1,
                    #[trigger] before[a],
                    #[trigger] before[b],
                ) by {
                    assert(earlier(times@.take(i as int), before[a], before[b]));
                }
                assert forall|r: int| 0 <= r < t1.len() && #[trigger] c1[r] implies before.contains(
                    r,
                ) by {
                    assert(chosen@.take(i as int)[r]);
                }
            }
        }
        i += 1;
    }
    proof {
        assert(times@.take(i as int) =~= times@);
        assert(chosen@.take(i as int) =~= chosen@);
        lemma_time_order_unique(times@, chosen@, picks@.map_values(|p: usize| p as int));
    }
    picks
}

} // verus!
