use vstd::prelude::*;
use crate::runtime::Runtime;
use crate::scan::{
    dist, find_dist, lemma_find_dist_none, lemma_find_dist_skip, lemma_find_dist_some,
    ready_dist, slot,
};
use crate::thread::State;

verus! {

// The round-robin fairness argument. A "round" is a run of successful yields
// in which every selected fiber yields in its turn, so that each step is
// exactly the transition `t_yield`'s contract describes for a pool whose
// current fiber is `Running`. The lemmas below show that such a round visits
// the fibers that were `Ready` at the start of the round in increasing cyclic
// order of their distance from the starting `current`, each exactly once,
// before any fiber can be visited a second time.

/// The fiber a successful yield selects: the first `Ready` fiber after `cur`,
/// wrapping — exactly what `t_yield` ensures for its new `current`.
pub open spec fn step_sel(s: Seq<State>, cur: int) -> int {
    slot(s.len() as int, cur, ready_dist(s, cur)->Some_0)
}

/// The pool states after a successful yield — exactly what `t_yield` ensures
/// for its final states.
pub open spec fn step_states(s: Seq<State>, cur: int) -> Seq<State> {
    if s[cur] == State::Available {
        s.update(step_sel(s, cur), State::Running)
    } else {
        s.update(cur, State::Ready).update(step_sel(s, cur), State::Running)
    }
}

/// The pool after `k` successful yields, each from the state the previous one
/// produced: the states and the `current` index.
pub open spec fn iterate(s0: Seq<State>, c0: int, k: nat) -> (Seq<State>, int)
    decreases k,
{
    if k == 0 {
        (s0, c0)
    } else {
        let (s, c) = iterate(s0, c0, (k - 1) as nat);
        (step_states(s, c), step_sel(s, c))
    }
}

/// The cyclic distance from `c0` of the fiber the `k`-th yield of a round
/// selects (counting from 0): the `k`-th smallest distance at which the
/// starting states hold a `Ready` fiber, or `None` when fewer than `k + 1`
/// fibers were `Ready`.
pub open spec fn kth_dist(s0: Seq<State>, c0: int, k: nat) -> Option<int>
    decreases k,
{
    if k == 0 {
        find_dist(s0, c0, 1)
    } else {
        match kth_dist(s0, c0, (k - 1) as nat) {
            Some(d) => find_dist(s0, c0, d + 1),
            None => None,
        }
    }
}

/// A successful `t_yield` carries out exactly one spec-level round step: its
/// contract pins the new states and `current` to `step_states` and `step_sel`
/// of the old ones.
pub proof fn lemma_yield_matches_step(pre: Runtime, post: Runtime)
    requires
        crate::scan::has_ready(pre.states(), pre.cur()),
        post.cur() == slot(pre.n(), pre.cur(), ready_dist(pre.states(), pre.cur())->Some_0),
        post.states() == (if pre.states()[pre.cur()] == State::Available {
            pre.states().update(post.cur(), State::Running)
        } else {
            pre.states().update(pre.cur(), State::Ready).update(post.cur(), State::Running)
        }),
    ensures
        post.cur() == step_sel(pre.states(), pre.cur()),
        post.states() == step_states(pre.states(), pre.cur()),
{
}

/// The heart of the fairness argument, by induction over the round: as long as
/// the starting states hold a `k + 1`-th `Ready` fiber (at distance `d`), the
/// `k`-th yield selects precisely that fiber, the pool keeps exactly its
/// starting states at every position beyond it (so later selections are
/// already determined), and the selected fiber is the one now `Running`.
pub proof fn lemma_round_invariant(s0: Seq<State>, c0: int, k: nat)
    requires
        1 <= s0.len(),
        0 <= c0 < s0.len(),
        s0[c0] == State::Running,
        kth_dist(s0, c0, k) is Some,
    ensures
        ({
            let nn = s0.len() as int;
            let (s, c) = iterate(s0, c0, k + 1);
            let d = kth_dist(s0, c0, k)->Some_0;
            &&& 1 <= d < nn
            &&& s0[slot(nn, c0, d)] == State::Ready
            &&& c == slot(nn, c0, d)
            &&& s.len() == s0.len()
            &&& s[c] == State::Running
            &&& forall|e: int| d < e < nn ==> #[trigger] s[slot(nn, c0, e)] == s0[slot(nn, c0, e)]
        }),
    decreases k,
{
    let nn = s0.len() as int;
    if k == 0 {
        let d = kth_dist(s0, c0, 0)->Some_0;
        lemma_find_dist_some(s0, c0, 1, d);
        assert(iterate(s0, c0, 0) == (s0, c0));
        assert(iterate(s0, c0, 1) == (step_states(s0, c0), step_sel(s0, c0)));
    } else {
        let dprev = kth_dist(s0, c0, (k - 1) as nat)->Some_0;
        let d = kth_dist(s0, c0, k)->Some_0;
        lemma_round_invariant(s0, c0, (k - 1) as nat);
        lemma_find_dist_some(s0, c0, dprev + 1, d);
        let (s, c) = iterate(s0, c0, k);
        assert(c == slot(nn, c0, dprev));
        // The scan from the current fiber sees, at relative distance `e`, the
        // fiber at absolute distance `dprev + e` from the round's start; up to
        // the next initially-Ready fiber all of those are untouched and not
        // Ready.
        let estar = d - dprev;
        assert forall|e: int| 1 <= e < estar implies s[slot(nn, c, e)] != State::Ready by {
            assert(slot(nn, c, e) == slot(nn, c0, dprev + e));
            assert(s[slot(nn, c0, dprev + e)] == s0[slot(nn, c0, dprev + e)]);
        }
        assert(slot(nn, c, estar) == slot(nn, c0, d));
        assert(s[slot(nn, c, estar)] == State::Ready);
        lemma_find_dist_skip(s, c, 1, estar);
        assert(find_dist(s, c, estar) == Some(estar));
        assert(ready_dist(s, c) == Some(estar));
        assert(step_sel(s, c) == slot(nn, c0, d));
        assert(iterate(s0, c0, k + 1) == (step_states(s, c), step_sel(s, c)));
        let s2 = step_states(s, c);
        assert forall|e: int| d < e < nn implies #[trigger] s2[slot(nn, c0, e)] == s0[slot(
            nn,
            c0,
            e,
        )] by {
            assert(slot(nn, c0, e) != c);
            assert(slot(nn, c0, e) != slot(nn, c0, d));
            assert(s[slot(nn, c0, e)] == s0[slot(nn, c0, e)]);
        }
    }
}

/// The distances a round enumerates increase strictly with `k`: a later yield
/// of the round selects a strictly farther fiber (in cyclic distance from the
/// round's starting `current`).
pub proof fn lemma_kth_dist_increasing(s0: Seq<State>, c0: int, k1: nat, k2: nat)
    requires
        k1 <= k2,
        kth_dist(s0, c0, k2) is Some,
    ensures
        kth_dist(s0, c0, k1) is Some,
        k1 < k2 ==> kth_dist(s0, c0, k1)->Some_0 < kth_dist(s0, c0, k2)->Some_0,
    decreases k2,
{
    if k1 < k2 {
        let dprev = kth_dist(s0, c0, (k2 - 1) as nat)->Some_0;
        let d = kth_dist(s0, c0, k2)->Some_0;
        lemma_kth_dist_increasing(s0, c0, k1, (k2 - 1) as nat);
        lemma_find_dist_some(s0, c0, dprev + 1, d);
    }
}

/// Round-robin fairness, distinctness half: within one round, no fiber is
/// selected twice — any two yields of the round pick distinct fibers, each of
/// which was `Ready` when the round began.
pub proof fn lemma_round_robin_distinct(s0: Seq<State>, c0: int, k1: nat, k2: nat)
    requires
        1 <= s0.len(),
        0 <= c0 < s0.len(),
        s0[c0] == State::Running,
        k1 < k2,
        kth_dist(s0, c0, k2) is Some,
    ensures
        iterate(s0, c0, k1 + 1).1 != iterate(s0, c0, k2 + 1).1,
        s0[iterate(s0, c0, k1 + 1).1] == State::Ready,
        s0[iterate(s0, c0, k2 + 1).1] == State::Ready,
{
    lemma_kth_dist_increasing(s0, c0, k1, k2);
    lemma_round_invariant(s0, c0, k1);
    lemma_round_invariant(s0, c0, k2);
}

proof fn lemma_kth_dist_covers_from(s0: Seq<State>, c0: int, k: nat, dd: int)
    requires
        1 <= s0.len(),
        0 <= c0 < s0.len(),
        1 <= dd < s0.len(),
        s0[slot(s0.len() as int, c0, dd)] == State::Ready,
        kth_dist(s0, c0, k) is Some,
        1 <= kth_dist(s0, c0, k)->Some_0 <= dd,
    ensures
        exists|kk: nat| kth_dist(s0, c0, kk) == Some(dd),
    decreases dd - kth_dist(s0, c0, k)->Some_0,
{
    let dk = kth_dist(s0, c0, k)->Some_0;
    if dk == dd {
        assert(kth_dist(s0, c0, k) == Some(dd));
    } else {
        // The next enumerated distance exists (dd itself is a candidate) and
        // cannot jump past dd.
        if find_dist(s0, c0, dk + 1) is None {
            lemma_find_dist_none(s0, c0, dk + 1);
            assert(false);
        }
        let dn = find_dist(s0, c0, dk + 1)->Some_0;
        lemma_find_dist_some(s0, c0, dk + 1, dn);
        assert(kth_dist(s0, c0, k + 1) == Some(dn));
        assert(dn <= dd);
        lemma_kth_dist_covers_from(s0, c0, k + 1, dd);
    }
}

/// Round-robin fairness, coverage half: every fiber that is `Ready` when the
/// round begins is selected by some yield of the round — no `Ready` fiber is
/// passed over while another is revisited.
pub proof fn lemma_round_robin_covers(s0: Seq<State>, c0: int, i: int)
    requires
        1 <= s0.len(),
        0 <= c0 < s0.len(),
        s0[c0] == State::Running,
        0 <= i < s0.len(),
        s0[i] == State::Ready,
    ensures
        exists|k: nat|
            kth_dist(s0, c0, k) == Some(dist(s0.len() as int, c0, i)) && #[trigger] iterate(
                s0,
                c0,
                k + 1,
            ).1 == i,
{
    let nn = s0.len() as int;
    let dd = dist(nn, c0, i);
    crate::scan::lemma_slot_dist(nn, c0, i, 0);
    assert(slot(nn, c0, dd) == i);
    assert(1 <= dd < nn);
    if find_dist(s0, c0, 1) is None {
        lemma_find_dist_none(s0, c0, 1);
        assert(false);
    }
    let d0 = find_dist(s0, c0, 1)->Some_0;
    lemma_find_dist_some(s0, c0, 1, d0);
    lemma_kth_dist_covers_from(s0, c0, 0, dd);
    let kk = choose|kk: nat| kth_dist(s0, c0, kk) == Some(dd);
    lemma_round_invariant(s0, c0, kk);
    assert(iterate(s0, c0, kk + 1).1 == i);
}

} // verus!
