use vstd::prelude::*;
use crate::thread::State;

verus! {

/// The pool index at cyclic distance `d` after `cur`, in a pool of `n` fibers.
/// Meaningful for `0 <= cur < n` and `0 <= d <= n`.
pub open spec fn slot(n: int, cur: int, d: int) -> int {
    if cur + d < n {
        cur + d
    } else {
        cur + d - n
    }
}

/// The cyclic distance from `cur` forward to `i`: the unique `d` in `[0, n)`
/// with `slot(n, cur, d) == i`.
pub open spec fn dist(n: int, cur: int, i: int) -> int {
    if i >= cur {
        i - cur
    } else {
        i - cur + n
    }
}

/// The scheduler's scan, as a distance: the smallest `e` in `[d, n)` such that
/// the fiber at cyclic distance `e` after `cur` is `Ready`, if one exists.
/// Distance `0` (`cur` itself) and distance `n` are never considered, mirroring
/// the scan that walks the pool once, wrapping, and stops back at `cur`.
pub open spec fn find_dist(s: Seq<State>, cur: int, d: int) -> Option<int>
    decreases s.len() - d,
{
    if 1 <= d < s.len() {
        if s[slot(s.len() as int, cur, d)] == State::Ready {
            Some(d)
        } else {
            find_dist(s, cur, d + 1)
        }
    } else {
        None
    }
}

/// Distance of the fiber that a round-robin scan starting after `cur` selects.
pub open spec fn ready_dist(s: Seq<State>, cur: int) -> Option<int> {
    find_dist(s, cur, 1)
}

/// Whether a yield from `cur` can transfer control at all.
pub open spec fn has_ready(s: Seq<State>, cur: int) -> bool {
    ready_dist(s, cur) is Some
}

/// The first `Available` fiber at index `i` or beyond, if any: the slot that
/// `spawn`'s linear search selects.
pub open spec fn find_avail_from(s: Seq<State>, i: int) -> Option<int>
    decreases s.len() - i,
{
    if 0 <= i < s.len() {
        if s[i] == State::Available {
            Some(i)
        } else {
            find_avail_from(s, i + 1)
        }
    } else {
        None
    }
}

/// The index of the first `Available` fiber of the pool, if any.
pub open spec fn first_available(s: Seq<State>) -> Option<int> {
    find_avail_from(s, 0)
}

/// `slot` and `dist` are inverse to each other.
pub proof fn lemma_slot_dist(n: int, cur: int, i: int, d: int)
    requires
        0 <= cur < n,
        0 <= i < n,
        0 <= d < n,
    ensures
        slot(n, cur, dist(n, cur, i)) == i,
        dist(n, cur, slot(n, cur, d)) == d,
        slot(n, cur, d) == cur <==> d == 0,
{
}

/// What a successful scan means: the selected distance is in range, points at
/// a `Ready` fiber, and no nearer position (at or past `d0`) is `Ready`.
pub proof fn lemma_find_dist_some(s: Seq<State>, cur: int, d0: int, d: int)
    requires
        1 <= d0,
        find_dist(s, cur, d0) == Some(d),
    ensures
        d0 <= d < s.len(),
        s[slot(s.len() as int, cur, d)] == State::Ready,
        forall|e: int| d0 <= e < d ==> s[slot(s.len() as int, cur, e)] != State::Ready,
    decreases s.len() - d0,
{
    if 1 <= d0 < s.len() {
        if s[slot(s.len() as int, cur, d0)] == State::Ready {
        } else {
            lemma_find_dist_some(s, cur, d0 + 1, d);
        }
    }
}

/// What a failed scan means: no position at distance `d0` or beyond is `Ready`.
pub proof fn lemma_find_dist_none(s: Seq<State>, cur: int, d0: int)
    requires
        1 <= d0,
        find_dist(s, cur, d0) is None,
    ensures
        forall|e: int| d0 <= e < s.len() ==> s[slot(s.len() as int, cur, e)] != State::Ready,
    decreases s.len() - d0,
{
    if 1 <= d0 < s.len() {
        lemma_find_dist_none(s, cur, d0 + 1);
    }
}

/// A scan may start anywhere inside a stretch of non-`Ready` positions without
/// changing its outcome.
pub proof fn lemma_find_dist_skip(s: Seq<State>, cur: int, d0: int, d: int)
    requires
        1 <= d0 <= d,
        forall|e: int| d0 <= e < d ==> s[slot(s.len() as int, cur, e)] != State::Ready,
    ensures
        find_dist(s, cur, d0) == find_dist(s, cur, d),
    decreases d - d0,
{
    if d0 < d {
        lemma_find_dist_skip(s, cur, d0 + 1, d);
    }
}

/// What a successful first-fit search means: the selected index is in range,
/// `Available`, and no smaller index at or past `i0` is `Available`.
pub proof fn lemma_find_avail_some(s: Seq<State>, i0: int, i: int)
    requires
        0 <= i0,
        find_avail_from(s, i0) == Some(i),
    ensures
        i0 <= i < s.len(),
        s[i] == State::Available,
        forall|j: int| i0 <= j < i ==> s[j] != State::Available,
    decreases s.len() - i0,
{
    if i0 < s.len() {
        if s[i0] == State::Available {
        } else {
            lemma_find_avail_some(s, i0 + 1, i);
        }
    }
}

/// A first-fit search may start anywhere inside a stretch of non-`Available`
/// indices without changing its outcome.
pub proof fn lemma_find_avail_skip(s: Seq<State>, i0: int, i: int)
    requires
        0 <= i0 <= i,
        forall|j: int| i0 <= j < i ==> s[j] != State::Available,
    ensures
        find_avail_from(s, i0) == find_avail_from(s, i),
    decreases i - i0,
{
    if i0 < i {
        lemma_find_avail_skip(s, i0 + 1, i);
    }
}

} // verus!
