use vstd::prelude::*;

verus! {

// ---------------------------------------------------------------------------
// Commit links
// ---------------------------------------------------------------------------
//
// Commits are identified by their row in display order (newest first, as
// `git log` prints them). `parents[c]` lists, in order, the parents of commit
// `c`; a parent that is not among the displayed commits is `None`.

/// The children of `p` contributed by row `c` of the parent table: `c` once for
/// every occurrence of `Some(p)` among the first `k` parents of `c`.
pub open spec fn occurrences(row: Seq<Option<usize>>, p: usize, c: usize) -> Seq<usize>
    decreases row.len(),
{
    if row.len() == 0 {
        Seq::empty()
    } else {
        let rest = occurrences(row.drop_last(), p, c);
        if row.last() == Some(p) {
            rest.push(c)
        } else {
            rest
        }
    }
}

/// The children of `p` among the first `n` commits, in display order (a child
/// listed `p` twice appears twice).
pub open spec fn children_upto(parents: Seq<Vec<Option<usize>>>, p: usize, n: int) -> Seq<usize>
    decreases n,
{
    if n <= 0 {
        Seq::empty()
    } else {
        children_upto(parents, p, n - 1) + occurrences(parents[n - 1]@, p, (n - 1) as usize)
    }
}

/// The children of `p` among all commits.
pub open spec fn children_of(parents: Seq<Vec<Option<usize>>>, p: usize) -> Seq<usize> {
    children_upto(parents, p, parents.len() as int)
}

/// Every parent index names a displayed commit.
pub open spec fn parents_well_formed(parents: Seq<Vec<Option<usize>>>) -> bool {
    forall|c: int, k: int|
        0 <= c < parents.len() && 0 <= k < parents[c]@.len() && (#[trigger] parents[c]@[k]) is Some
            ==> parents[c]@[k]->0 < parents.len()
}

/// Number of parent entries of the first `n` commits.
pub open spec fn link_count(parents: Seq<Vec<Option<usize>>>, n: int) -> int
    decreases n,
{
    if n <= 0 {
        0
    } else {
        link_count(parents, n - 1) + parents[n - 1]@.len()
    }
}

/// Number of child entries of the first `n` commits of a children table.
pub open spec fn child_count(children: Seq<Vec<usize>>, n: int) -> int
    decreases n,
{
    if n <= 0 {
        0
    } else {
        child_count(children, n - 1) + children[n - 1]@.len()
    }
}

proof fn lemma_occurrences_bounded(row: Seq<Option<usize>>, p: usize, c: usize)
    ensures
        occurrences(row, p, c).len() <= row.len(),
        forall|j: int| 0 <= j < occurrences(row, p, c).len() ==> occurrences(row, p, c)[j] == c,
    decreases row.len(),
{
    if row.len() > 0 {
        lemma_occurrences_bounded(row.drop_last(), p, c);
    }
}

proof fn lemma_child_count_push(children: Seq<Vec<usize>>, p: int, v: Vec<usize>, n: int)
    requires
        0 <= p < children.len(),
        v@.len() == children[p]@.len() + 1,
        0 <= n <= children.len(),
    ensures
        child_count(children.update(p, v), n) == child_count(children, n) + (if p < n { 1int } else { 0 }),
    decreases n,
{
    if n > 0 {
        lemma_child_count_push(children, p, v, n - 1);
    }
}

proof fn lemma_child_count_mono(children: Seq<Vec<usize>>, a: int, b: int)
    requires
        0 <= a <= b <= children.len(),
    ensures
        child_count(children, a) <= child_count(children, b),
    decreases b - a,
{
    if a < b {
        lemma_child_count_mono(children, a, b - 1);
    }
}

/// Lists the children of every commit, in display order.
pub fn build_children(parents: &Vec<Vec<Option<usize>>>) -> (children: Vec<Vec<usize>>)
    requires
        parents_well_formed(parents@),
    ensures
        children@.len() == parents@.len(),
        forall|p: int| 0 <= p < parents@.len() ==> #[trigger] children@[p]@ == children_of(parents@, p as usize),
        forall|p: int, j: int|
            0 <= p < parents@.len() && 0 <= j < children@[p]@.len() ==> #[trigger] children@[p]@[j]
                < parents@.len(),
        child_count(children@, parents@.len() as int) <= link_count(parents@, parents@.len() as int),
{
    let n = parents.len();
    let mut children: Vec<Vec<usize>> = Vec::new();
    let mut i: usize = 0;
    while i < n
        invariant
            i <= n,
            n == parents@.len(),
            children@.len() == i,
            forall|p: int| 0 <= p < i ==> (#[trigger] children@[p])@.len() == 0,
        decreases n - i,
    {
        children.push(Vec::new());
        i += 1;
    }
    proof {
        assert(child_count(children@, n as int) == 0) by {
            lemma_child_count_zero(children@, n as int);
        }
    }
    let mut c: usize = 0;
    while c < n
        invariant
            c <= n,
            n == parents@.len(),
            parents_well_formed(parents@),
            children@.len() == n,
            forall|p: int| 0 <= p < n ==> #[trigger] children@[p]@ == children_upto(parents@, p as usize, c as int),
            forall|p: int, j: int|
                0 <= p < n && 0 <= j < children@[p]@.len() ==> #[trigger] children@[p]@[j] < c,
            child_count(children@, n as int) <= link_count(parents@, c as int),
        decreases n - c,
    {
        let row = &parents[c];
        let m = row.len();
        let mut k: usize = 0;
        while k < m
            invariant
                k <= m,
                c < n,
                n == parents@.len(),
                row == &parents@[c as int],
                m == row@.len(),
                parents_well_formed(parents@),
                children@.len() == n,
                forall|p: int| 0 <= p < n ==> #[trigger] children@[p]@ == children_upto(parents@, p as usize, c as int)
                    + occurrences(row@.take(k as int), p as usize, c),
                forall|p: int, j: int|
                    0 <= p < n && 0 <= j < children@[p]@.len() ==> #[trigger] children@[p]@[j] <= c,
                child_count(children@, n as int) <= link_count(parents@, c as int) + k,
            decreases m - k,
        {
            proof {
                assert(row@.take(k + 1).drop_last() == row@.take(k as int));
            }
            if let Some(p) = row[k] {
                proof {
                    assert(parents@[c as int]@[k as int] is Some);
                }
                let ghost old_children = children@;
                let mut v = Vec::new();
                std::mem::swap(&mut v, &mut children[p]);
                v.push(c);
                children.set(p, v);
                proof {
                    assert(children@ == old_children.update(p as int, v));
                    lemma_child_count_push(old_children, p as int, v, n as int);
                    assert forall|q: int| 0 <= q < n implies #[trigger] children@[q]@ == children_upto(
                        parents@,
                        q as usize,
                        c as int,
                    ) + occurrences(row@.take(k + 1), q as usize, c) by {
                        if q == p {
                            assert(children@[q]@ == old_children[q]@.push(c));
                        }
                    }
                }
            } else {
                proof {
                    assert forall|q: int| 0 <= q < n implies #[trigger] children@[q]@ == children_upto(
                        parents@,
                        q as usize,
                        c as int,
                    ) + occurrences(row@.take(k + 1), q as usize, c) by {}
                }
            }
            k += 1;
        }
        proof {
            assert(row@.take(m as int) == row@);
            assert forall|q: int| 0 <= q < n implies #[trigger] children@[q]@ == children_upto(
                parents@,
                q as usize,
                (c + 1) as int,
            ) by {}
        }
        c += 1;
    }
    proof {
        assert forall|p: int| 0 <= p < n implies #[trigger] children@[p]@ == children_of(parents@, p as usize) by {}
    }
    children
}

proof fn lemma_child_count_zero(children: Seq<Vec<usize>>, n: int)
    requires
        0 <= n <= children.len(),
        forall|p: int| 0 <= p < n ==> (#[trigger] children[p])@.len() == 0,
    ensures
        child_count(children, n) == 0,
    decreases n,
{
    if n > 0 {
        lemma_child_count_zero(children, n - 1);
    }
}


// ---------------------------------------------------------------------------
// Lane assignment
// ---------------------------------------------------------------------------
//
// Commits are laid out top to bottom; each column ("lane") remembers the last
// commit placed in it, or `None` when the lane is free.

/// `Some(first_parent)` of commit `c` when it has parents.
pub open spec fn is_first_parent(parents: Seq<Vec<Option<usize>>>, child: usize, p: usize) -> bool {
    0 <= child < parents.len() && parents[child as int]@.len() > 0 && parents[child as int]@[0] == Some(p)
}

/// The children of `p` whose first parent is `p`, in order.
pub open spec fn first_parent_children(
    parents: Seq<Vec<Option<usize>>>,
    ch: Seq<usize>,
    p: usize,
) -> Seq<usize>
    decreases ch.len(),
{
    if ch.len() == 0 {
        Seq::empty()
    } else {
        let rest = first_parent_children(parents, ch.drop_last(), p);
        if is_first_parent(parents, ch.last(), p) {
            rest.push(ch.last())
        } else {
            rest
        }
    }
}

/// Index of the first lane at or after `j` that holds `Some(v)`, or -1.
pub open spec fn find_lane_from(s: Seq<Option<usize>>, v: usize, j: int) -> int
    decreases s.len() - j,
{
    if j < 0 || j >= s.len() {
        -1
    } else if s[j] == Some(v) {
        j
    } else {
        find_lane_from(s, v, j + 1)
    }
}

/// Index of the first free lane at or after `j`, or the number of lanes.
pub open spec fn vacant_lane_from(s: Seq<Option<usize>>, j: int) -> int
    decreases s.len() - j,
{
    if j < 0 || j >= s.len() {
        s.len() as int
    } else if s[j] is None {
        j
    } else {
        vacant_lane_from(s, j + 1)
    }
}

/// Frees, one after the other, the first lane held by each of `targets[k..]`,
/// tracking the smallest freed column (starting from `m`).
pub open spec fn release_lanes(s: Seq<Option<usize>>, targets: Seq<usize>, k: int, m: int) -> (
    Seq<Option<usize>>,
    int,
)
    decreases targets.len() - k,
{
    if k < 0 || k >= targets.len() {
        (s, m)
    } else {
        let j = find_lane_from(s, targets[k], 0);
        if j >= 0 {
            release_lanes(s.update(j, None), targets, k + 1, if j < m { j } else { m })
        } else {
            release_lanes(s, targets, k + 1, m)
        }
    }
}

/// One step of the lane assignment for commit `c` whose first-parent children
/// are `targets`: returns the new lanes and the column of `c`.
pub open spec fn place_commit(s: Seq<Option<usize>>, c: usize, targets: Seq<usize>) -> (
    Seq<Option<usize>>,
    int,
) {
    if targets.len() == 0 {
        let x = vacant_lane_from(s, 0);
        (if x == s.len() { s.push(Some(c)) } else { s.update(x, Some(c)) }, x)
    } else if s.len() == 0 {
        (s, 0)
    } else {
        let (s2, m) = release_lanes(s, targets, 0, s.len() - 1);
        (s2.update(m, Some(c)), m)
    }
}

/// Lanes and columns after laying out the first `n` commits.
pub open spec fn layout(parents: Seq<Vec<Option<usize>>>, n: int) -> (Seq<Option<usize>>, Seq<usize>)
    decreases n,
{
    if n <= 0 {
        (Seq::empty(), Seq::empty())
    } else {
        let (s, xs) = layout(parents, n - 1);
        let c = (n - 1) as usize;
        let (s2, x) = place_commit(
            s,
            c,
            first_parent_children(parents, children_of(parents, c), c),
        );
        (s2, xs.push(x as usize))
    }
}

/// The column of every commit.
pub open spec fn columns(parents: Seq<Vec<Option<usize>>>) -> Seq<usize> {
    layout(parents, parents.len() as int).1
}

proof fn lemma_release_lanes_bounds(s: Seq<Option<usize>>, targets: Seq<usize>, k: int, m: int)
    requires
        0 <= m < s.len(),
    ensures
        release_lanes(s, targets, k, m).0.len() == s.len(),
        0 <= release_lanes(s, targets, k, m).1 <= m,
    decreases targets.len() - k,
{
    if 0 <= k < targets.len() {
        let j = find_lane_from(s, targets[k], 0);
        lemma_find_lane_bounds(s, targets[k], 0);
        if j >= 0 {
            lemma_release_lanes_bounds(s.update(j, None), targets, k + 1, if j < m { j } else { m });
        } else {
            lemma_release_lanes_bounds(s, targets, k + 1, m);
        }
    }
}

proof fn lemma_find_lane_bounds(s: Seq<Option<usize>>, v: usize, j: int)
    ensures
        find_lane_from(s, v, j) == -1 || (j <= find_lane_from(s, v, j) < s.len() && s[find_lane_from(s, v, j)]
            == Some(v)),
    decreases s.len() - j,
{
    if 0 <= j < s.len() && s[j] != Some(v) {
        lemma_find_lane_bounds(s, v, j + 1);
    }
}

proof fn lemma_vacant_lane_bounds(s: Seq<Option<usize>>, j: int)
    requires
        0 <= j,
    ensures
        j <= vacant_lane_from(s, j) <= s.len() || (j > s.len() && vacant_lane_from(s, j) == s.len()),
        vacant_lane_from(s, j) < s.len() ==> s[vacant_lane_from(s, j)] is None,
    decreases s.len() - j,
{
    if 0 <= j < s.len() && s[j] is Some {
        lemma_vacant_lane_bounds(s, j + 1);
    }
}

/// Lane `j` holds one of the commits `targets`.
pub open spec fn holds_target(s: Seq<Option<usize>>, targets: Seq<usize>, j: int) -> bool {
    0 <= j < s.len() && s[j] is Some && targets.contains(s[j]->0)
}

/// No commit holds two lanes.
pub open spec fn lanes_distinct(s: Seq<Option<usize>>) -> bool {
    forall|i: int, j: int| 0 <= i < s.len() && 0 <= j < s.len() && i != j && #[trigger] s[i] is Some ==> s[i] != #[trigger] s[j]
}

proof fn lemma_find_lane_none(s: Seq<Option<usize>>, v: usize, j: int)
    requires
        0 <= j,
        find_lane_from(s, v, j) == -1,
    ensures
        forall|i: int| j <= i < s.len() ==> s[i] != Some(v),
    decreases s.len() - j,
{
    if j < s.len() {
        lemma_find_lane_none(s, v, j + 1);
    }
}

proof fn lemma_release_lanes(s: Seq<Option<usize>>, targets: Seq<usize>, k: int, m: int)
    requires
        0 <= k <= targets.len(),
        0 <= m < s.len(),
        lanes_distinct(s),
    ensures
        ({
            let (s2, m2) = release_lanes(s, targets, k, m);
            let rest = targets.subrange(k, targets.len() as int);
            &&& s2.len() == s.len()
            &&& forall|j: int| 0 <= j < s.len() ==> #[trigger] s2[j] == if holds_target(s, rest, j) { None } else { s[j] }
            &&& 0 <= m2 <= m
            &&& (m2 == m || holds_target(s, rest, m2))
            &&& forall|j: int| #[trigger] holds_target(s, rest, j) ==> m2 <= j
        }),
    decreases targets.len() - k,
{
    let rest = targets.subrange(k, targets.len() as int);
    if k == targets.len() {
        assert forall|j: int| !#[trigger] holds_target(s, rest, j) by {
            if holds_target(s, rest, j) {
                let i = choose|i: int| 0 <= i < rest.len() && rest[i] == s[j]->0;
            }
        }
    } else {
        let t = targets[k];
        let rest2 = targets.subrange(k + 1, targets.len() as int);
        assert forall|u: usize| rest.contains(u) <==> (u == t || rest2.contains(u)) by {
            if rest.contains(u) {
                let i = choose|i: int| 0 <= i < rest.len() && rest[i] == u;
                if i > 0 {
                    assert(rest2[i - 1] == u);
                }
            }
            if u == t {
                assert(rest[0] == u);
            }
            if rest2.contains(u) {
                let i = choose|i: int| 0 <= i < rest2.len() && rest2[i] == u;
                assert(rest[i + 1] == u);
            }
        }
        let j = find_lane_from(s, t, 0);
        lemma_find_lane_bounds(s, t, 0);
        if j >= 0 {
            let s1 = s.update(j, None);
            let m1 = if j < m { j } else { m };
            assert(lanes_distinct(s1));
            lemma_release_lanes(s1, targets, k + 1, m1);
            let (s2, m2) = release_lanes(s1, targets, k + 1, m1);
            assert(release_lanes(s, targets, k, m) == (s2, m2));
            assert forall|i: int| 0 <= i < s.len() && i != j implies holds_target(s, rest, i) == holds_target(s1, rest2, i) by {
                if s[i] is Some && s[i]->0 == t {
                    assert(s[i] == s[j]);
                }
            }
            assert(holds_target(s, rest, j));
            assert(!holds_target(s1, rest2, j));
            assert forall|i: int| 0 <= i < s.len() implies #[trigger] s2[i] == if holds_target(s, rest, i) { None } else { s[i] } by {
                if i != j {
                    assert(s2[i] == if holds_target(s1, rest2, i) { None } else { s1[i] });
                } else {
                    assert(s2[i] == if holds_target(s1, rest2, i) { None } else { s1[i] });
                }
            }
            assert forall|i: int| #[trigger] holds_target(s, rest, i) implies m2 <= i by {
                if i != j {
                    assert(holds_target(s1, rest2, i));
                }
            }
            if m2 != m1 {
                assert(holds_target(s1, rest2, m2));
                assert(m2 != j);
            }
        } else {
            lemma_find_lane_none(s, t, 0);
            lemma_release_lanes(s, targets, k + 1, m);
            assert forall|i: int| 0 <= i < s.len() implies holds_target(s, rest, i) == holds_target(s, rest2, i) by {
                if s[i] is Some && s[i]->0 == t {
                    assert(s[i] == Some(t));
                }
            }
            let (s2, m2) = release_lanes(s, targets, k + 1, m);
            assert forall|i: int| #[trigger] holds_target(s, rest, i) implies m2 <= i by {
                assert(holds_target(s, rest2, i));
            }
            if m2 != m {
                assert(holds_target(s, rest2, m2));
            }
            assert forall|i: int| 0 <= i < s.len() implies #[trigger] s2[i] == if holds_target(s, rest, i) { None } else { s[i] } by {
                assert(s2[i] == if holds_target(s, rest2, i) { None } else { s[i] });
            }
        }
    }
}

/// Placing a commit that continues the lines of its first-parent children
/// `targets`: every lane held by one of them is freed, and the commit takes
/// the leftmost of those lanes (the last lane when none is held); all other
/// lanes keep what they held.
pub proof fn lemma_place_commit_frees_child_lanes(s: Seq<Option<usize>>, c: usize, targets: Seq<usize>)
    requires
        s.len() > 0,
        targets.len() > 0,
        lanes_distinct(s),
    ensures
        ({
            let (s2, x) = place_commit(s, c, targets);
            &&& s2.len() == s.len()
            &&& 0 <= x < s.len()
            &&& s2[x] == Some(c)
            &&& forall|j: int| 0 <= j < s.len() && j != x ==> #[trigger] s2[j] == if holds_target(s, targets, j) { None } else { s[j] }
            &&& (exists|j: int| holds_target(s, targets, j)) ==> holds_target(s, targets, x) && forall|j: int| 0 <= j < x ==> !#[trigger] holds_target(s, targets, j)
            &&& !(exists|j: int| holds_target(s, targets, j)) ==> x == s.len() - 1
        }),
{
    lemma_release_lanes(s, targets, 0, s.len() - 1);
    assert(targets.subrange(0, targets.len() as int) == targets);
    let (s1, m) = release_lanes(s, targets, 0, s.len() - 1);
    if exists|j: int| holds_target(s, targets, j) {
        let j = choose|j: int| holds_target(s, targets, j);
        assert(m <= j);
        if !holds_target(s, targets, m) {
            assert(m == s.len() - 1);
        }
    }
}

/// A commit with no first-parent child takes the leftmost free lane, or opens
/// a new lane right of the others when none is free; the other lanes keep
/// what they held.
pub proof fn lemma_place_commit_takes_free_lane(s: Seq<Option<usize>>, c: usize)
    ensures
        ({
            let (s2, x) = place_commit(s, c, Seq::empty());
            &&& 0 <= x <= s.len()
            &&& forall|j: int| 0 <= j < x ==> (#[trigger] s[j]) is Some
            &&& x < s.len() ==> s[x] is None
            &&& s2.len() == if x == s.len() { s.len() + 1 } else { s.len() }
            &&& s2[x] == Some(c)
            &&& forall|j: int| 0 <= j < s.len() && j != x ==> #[trigger] s2[j] == s[j]
        }),
{
    lemma_vacant_lane_bounds(s, 0);
    lemma_vacant_prefix(s, 0);
}

proof fn lemma_vacant_prefix(s: Seq<Option<usize>>, j: int)
    requires
        0 <= j,
    ensures
        forall|i: int| j <= i < vacant_lane_from(s, j) && i < s.len() ==> (#[trigger] s[i]) is Some,
    decreases s.len() - j,
{
    if j < s.len() && s[j] is Some {
        lemma_vacant_prefix(s, j + 1);
    }
}

/// While the commits are laid out, each lane holds an earlier commit or
/// nothing, and no commit holds two lanes; so the lane laws of
/// `place_commit` apply at every step of `layout`.
pub proof fn lemma_layout_lanes_distinct(parents: Seq<Vec<Option<usize>>>, n: int)
    requires
        parents.len() <= usize::MAX,
        0 <= n <= parents.len(),
    ensures
        lanes_distinct(layout(parents, n).0),
        forall|j: int| 0 <= j < layout(parents, n).0.len() && (#[trigger] layout(parents, n).0[j]) is Some ==> layout(
            parents,
            n,
        ).0[j]->0 < n,
    decreases n,
{
    if n > 0 {
        lemma_layout_distinct_step(parents, n);
    }
}

proof fn lemma_layout_distinct_step(parents: Seq<Vec<Option<usize>>>, n: int)
    requires
        parents.len() <= usize::MAX,
        0 < n <= parents.len(),
    ensures
        lanes_distinct(layout(parents, n).0),
        forall|j: int| 0 <= j < layout(parents, n).0.len() && (#[trigger] layout(parents, n).0[j]) is Some ==> layout(
            parents,
            n,
        ).0[j]->0 < n,
    decreases n, 0int,
{
    lemma_layout_lanes_distinct(parents, n - 1);
    let (s, xs) = layout(parents, n - 1);
    let c = (n - 1) as usize;
    let t = first_parent_children(parents, children_of(parents, c), c);
    let (s2, x) = place_commit(s, c, t);
    assert(layout(parents, n).0 == s2);
    assert(s == layout(parents, n - 1).0);
    assert forall|j: int| 0 <= j < s.len() && #[trigger] s[j] is Some implies s[j]->0 < c && s[j] != Some(c) by {
        assert(layout(parents, n - 1).0[j] is Some);
    }
    // Every lane of `s2` other than `x` holds what `s` held there, or nothing.
    if t.len() == 0 {
        lemma_place_commit_takes_free_lane(s, c);
        assert forall|i: int, j: int|
            0 <= i < s2.len() && 0 <= j < s2.len() && i != j && #[trigger] s2[i] is Some implies s2[i] != #[trigger] s2[j] by {
            if i != x && j != x {
                assert(s2[i] == s[i] && s2[j] == s[j]);
                assert(s[i] is Some);
            } else if i == x {
                if s2[j] is Some {
                    assert(s2[j] == s[j]);
                    assert(s[j] is Some);
                }
            } else {
                assert(s2[i] == s[i]);
                assert(s[i] is Some);
            }
        }
        assert forall|j: int| 0 <= j < s2.len() && (#[trigger] s2[j]) is Some implies s2[j]->0 < n by {
            if j != x {
                assert(s2[j] == s[j]);
            }
        }
    } else if s.len() == 0 {
    } else {
        lemma_place_commit_frees_child_lanes(s, c, t);
        assert forall|i: int, j: int|
            0 <= i < s2.len() && 0 <= j < s2.len() && i != j && #[trigger] s2[i] is Some implies s2[i] != #[trigger] s2[j] by {
            if i != x && j != x {
                assert(s2[i] == if holds_target(s, t, i) { None } else { s[i] });
                assert(s2[j] == if holds_target(s, t, j) { None } else { s[j] });
                assert(s[i] is Some);
            } else if i == x {
                if s2[j] is Some {
                    assert(s2[j] == if holds_target(s, t, j) { None } else { s[j] });
                    assert(s[j] is Some);
                }
            } else {
                assert(s2[i] == if holds_target(s, t, i) { None } else { s[i] });
                assert(s[i] is Some);
            }
        }
        assert forall|j: int| 0 <= j < s2.len() && (#[trigger] s2[j]) is Some implies s2[j]->0 < n by {
            if j != x {
                assert(s2[j] == if holds_target(s, t, j) { None } else { s[j] });
            }
        }
    }
}

/// The lanes never outnumber the commits laid out, so every column is smaller
/// than the number of commits.
pub proof fn lemma_layout_bounds(parents: Seq<Vec<Option<usize>>>, n: int)
    requires
        0 <= n <= parents.len(),
    ensures
        layout(parents, n).0.len() <= n,
        layout(parents, n).1.len() == n,
        forall|i: int| 0 <= i < n ==> (#[trigger] layout(parents, n).1[i]) < n,
    decreases n,
{
    if n > 0 {
        lemma_layout_bounds(parents, n - 1);
        let (s, xs) = layout(parents, n - 1);
        let c = (n - 1) as usize;
        let t = first_parent_children(parents, children_of(parents, c), c);
        lemma_vacant_lane_bounds(s, 0);
        if t.len() > 0 && s.len() > 0 {
            lemma_release_lanes_bounds(s, t, 0, s.len() - 1);
        }
        let (s2, xs2) = layout(parents, n);
        assert forall|i: int| 0 <= i < n implies (#[trigger] xs2[i]) < n by {
            if i < n - 1 {
                assert(xs2[i] == xs[i]);
            }
        }
    }
}

/// Finds the first free lane, or the number of lanes when all are taken.
pub fn get_first_vacant_line(lanes: &Vec<Option<usize>>) -> (x: usize)
    ensures
        x == vacant_lane_from(lanes@, 0),
        x <= lanes@.len(),
        x < lanes@.len() ==> lanes@[x as int] is None,
        forall|j: int| 0 <= j < x ==> lanes@[j] is Some,
{
    let mut j: usize = 0;
    while j < lanes.len()
        invariant
            j <= lanes@.len(),
            vacant_lane_from(lanes@, 0) == vacant_lane_from(lanes@, j as int),
            forall|k: int| 0 <= k < j ==> lanes@[k] is Some,
        decreases lanes@.len() - j,
    {
        if lanes[j].is_none() {
            return j;
        }
        j += 1;
    }
    j
}

/// Puts commit `c` in lane `x`, opening a new lane when `x` is past the end.
pub fn add_commit_line(lanes: &mut Vec<Option<usize>>, c: usize, x: usize)
    requires
        x <= old(lanes)@.len(),
    ensures
        final(lanes)@ == (if x == old(lanes)@.len() { old(lanes)@.push(Some(c)) } else { old(lanes)@.update(x as int, Some(c)) }),
{
    if lanes.len() <= x {
        lanes.push(Some(c));
    } else {
        lanes.set(x, Some(c));
    }
}

/// Places commit `c` whose first-parent children are `targets`: frees the lane
/// of each target and continues in the leftmost freed lane (the last lane when
/// none was found). Returns the chosen column; when there are no lanes yet
/// nothing is changed and column 0 is returned.
pub fn update_commit_line(lanes: &mut Vec<Option<usize>>, c: usize, targets: &Vec<usize>) -> (x: usize)
    requires
        targets@.len() > 0,
    ensures
        (*final(lanes))@ == place_commit(old(lanes)@, c, targets@).0,
        x == place_commit(old(lanes)@, c, targets@).1,
        final(lanes)@.len() == old(lanes)@.len(),
        old(lanes)@.len() > 0 ==> x < old(lanes)@.len(),
{
    if lanes.len() == 0 {
        return 0;
    }
    let ghost s0 = lanes@;
    let mut min_pos_x: usize = lanes.len() - 1;
    let mut k: usize = 0;
    while k < targets.len()
        invariant
            k <= targets@.len(),
            lanes@.len() == s0.len(),
            s0.len() > 0,
            min_pos_x < s0.len(),
            release_lanes(s0, targets@, 0, s0.len() - 1) == release_lanes(lanes@, targets@, k as int, min_pos_x as int),
        decreases targets@.len() - k,
    {
        let t = targets[k];
        let mut j: usize = 0;
        let ghost sk = lanes@;
        while j < lanes.len()
            invariant
                j <= lanes@.len(),
                lanes@ == sk,
                find_lane_from(sk, t, 0) == find_lane_from(sk, t, j as int),
            ensures
                j <= lanes@.len(),
                lanes@ == sk,
                find_lane_from(sk, t, 0) == find_lane_from(sk, t, j as int),
                j < lanes@.len() ==> lanes@[j as int] == Some(t),
            decreases lanes@.len() - j,
        {
            if lanes[j] == Some(t) {
                break;
            }
            j += 1;
        }
        if j < lanes.len() {
            proof {
                assert(find_lane_from(sk, t, 0) == j);
            }
            lanes.set(j, None);
            if min_pos_x > j {
                min_pos_x = j;
            }
        } else {
            proof {
                assert(find_lane_from(sk, t, 0) == -1);
            }
        }
        k += 1;
    }
    proof {
        lemma_release_lanes_bounds(s0, targets@, 0, s0.len() - 1);
    }
    lanes.set(min_pos_x, Some(c));
    min_pos_x
}


/// The children of commit `p` whose first parent is `p`, in order.
pub fn filtered_children(parents: &Vec<Vec<Option<usize>>>, children: &Vec<usize>, p: usize) -> (r: Vec<usize>)
    ensures
        r@ == first_parent_children(parents@, children@, p),
{
    let mut r: Vec<usize> = Vec::new();
    let mut k: usize = 0;
    while k < children.len()
        invariant
            k <= children@.len(),
            r@ == first_parent_children(parents@, children@.take(k as int), p),
        decreases children@.len() - k,
    {
        let child = children[k];
        proof {
            assert(children@.take(k + 1).drop_last() == children@.take(k as int));
            assert(children@.take(k + 1).last() == child);
        }
        if child < parents.len() && parents[child].len() > 0 && parents[child][0] == Some(p) {
            r.push(child);
        }
        k += 1;
    }
    proof {
        assert(children@.take(k as int) == children@);
    }
    r
}

/// Assigns a column to every commit: a commit without first-parent children
/// takes the first free lane; otherwise it continues in the leftmost lane held
/// by one of them.
pub fn calc_commit_positions(parents: &Vec<Vec<Option<usize>>>, children: &Vec<Vec<usize>>) -> (xs: Vec<usize>)
    requires
        children@.len() == parents@.len(),
        forall|p: int| 0 <= p < parents@.len() ==> #[trigger] children@[p]@ == children_of(parents@, p as usize),
    ensures
        xs@ == columns(parents@),
        xs@.len() == parents@.len(),
        forall|i: int| 0 <= i < xs@.len() ==> (#[trigger] xs@[i]) < xs@.len(),
{
    let n = parents.len();
    let mut lanes: Vec<Option<usize>> = Vec::new();
    let mut xs: Vec<usize> = Vec::new();
    let mut c: usize = 0;
    while c < n
        invariant
            c <= n,
            n == parents@.len(),
            children@.len() == n,
            forall|p: int| 0 <= p < n ==> #[trigger] children@[p]@ == children_of(parents@, p as usize),
            (lanes@, xs@) == layout(parents@, c as int),
        decreases n - c,
    {
        let targets = filtered_children(parents, &children[c], c);
        if targets.len() == 0 {
            let x = get_first_vacant_line(&lanes);
            add_commit_line(&mut lanes, c, x);
            xs.push(x);
        } else {
            let x = update_commit_line(&mut lanes, c, &targets);
            xs.push(x);
        }
        c += 1;
    }
    proof {
        lemma_layout_bounds(parents@, n as int);
    }
    xs
}


// ---------------------------------------------------------------------------
// Edges
// ---------------------------------------------------------------------------

/// The shape drawn in one cell of a graph row.
#[derive(Debug, Clone, Copy, PartialEq, Eq, Hash, Structural)]
pub enum EdgeType {
    Vertical,
    Horizontal,
    Up,
    Down,
    Left,
    Right,
    RightTop,
    RightBottom,
    LeftTop,
    LeftBottom,
}

/// One cell-sized piece of a line: its shape, its column, and the column of the
/// line it belongs to (which decides its colour).
#[derive(Debug, Clone, Copy, PartialEq, Eq, Hash, Structural)]
pub struct Edge {
    pub edge_type: EdgeType,
    pub pos_x: usize,
    pub associated_line_pos_x: usize,
}

/// The shapes that run vertically through their cell.
pub open spec fn vertically_related(t: EdgeType) -> bool {
    t == EdgeType::Vertical || t == EdgeType::Up || t == EdgeType::Down
}

impl EdgeType {
    /// Whether the shape runs vertically through its cell.
    pub fn is_vertically_related(&self) -> (r: bool)
        ensures
            r == vertically_related(*self),
    {
        match self {
            EdgeType::Vertical | EdgeType::Up | EdgeType::Down => true,
            _ => false,
        }
    }
}

impl Edge {
    pub fn new(edge_type: EdgeType, pos_x: usize, line_pos_x: usize) -> (e: Edge)
        ensures
            e == (Edge { edge_type, pos_x, associated_line_pos_x: line_pos_x }),
    {
        Edge { edge_type, pos_x, associated_line_pos_x: line_pos_x }
    }
}

/// Rank of an edge type in declaration order.
pub open spec fn type_rank(t: EdgeType) -> int {
    match t {
        EdgeType::Vertical => 0,
        EdgeType::Horizontal => 1,
        EdgeType::Up => 2,
        EdgeType::Down => 3,
        EdgeType::Left => 4,
        EdgeType::Right => 5,
        EdgeType::RightTop => 6,
        EdgeType::RightBottom => 7,
        EdgeType::LeftTop => 8,
        EdgeType::LeftBottom => 9,
    }
}

fn edge_type_rank(t: EdgeType) -> (r: u8)
    ensures
        r == type_rank(t),
{
    match t {
        EdgeType::Vertical => 0,
        EdgeType::Horizontal => 1,
        EdgeType::Up => 2,
        EdgeType::Down => 3,
        EdgeType::Left => 4,
        EdgeType::Right => 5,
        EdgeType::RightTop => 6,
        EdgeType::RightBottom => 7,
        EdgeType::LeftTop => 8,
        EdgeType::LeftBottom => 9,
    }
}

/// Edges of a row are ordered by line column, then column, then shape.
pub open spec fn edge_lt(a: Edge, b: Edge) -> bool {
    a.associated_line_pos_x < b.associated_line_pos_x || (a.associated_line_pos_x
        == b.associated_line_pos_x && (a.pos_x < b.pos_x || (a.pos_x == b.pos_x && type_rank(a.edge_type)
        < type_rank(b.edge_type))))
}

fn edge_less(a: &Edge, b: &Edge) -> (r: bool)
    ensures
        r == edge_lt(*a, *b),
{
    a.associated_line_pos_x < b.associated_line_pos_x || (a.associated_line_pos_x
        == b.associated_line_pos_x && (a.pos_x < b.pos_x || (a.pos_x == b.pos_x && edge_type_rank(
        a.edge_type,
    ) < edge_type_rank(b.edge_type))))
}

/// Strictly increasing, hence free of duplicates.
pub open spec fn strictly_sorted(row: Seq<Edge>) -> bool {
    forall|i: int, j: int| 0 <= i < j < row.len() ==> edge_lt(#[trigger] row[i], #[trigger] row[j])
}

pub open spec fn mk(t: EdgeType, x: int, a: int) -> Edge {
    Edge { edge_type: t, pos_x: x as usize, associated_line_pos_x: a as usize }
}

pub open spec fn is_horizontal(e: Edge, lo: int, hi: int, a: int) -> bool {
    e.edge_type == EdgeType::Horizontal && lo < e.pos_x < hi && e.associated_line_pos_x == a
}

/// Edges of a parent `p` (row `p`, column `x`) and a child `c` in the same column.
pub open spec fn straight_edge(x: int, c: int, p: int, y: int, e: Edge) -> bool {
    (y == p && e == mk(EdgeType::Up, x, x)) || (c < y < p && e == mk(EdgeType::Vertical, x, x)) || (y
        == c && e == mk(EdgeType::Down, x, x))
}

/// Edges of a child `c` (column `cx`) that branches off its first parent `p`
/// (column `px`): a corner on the parent's row, then a vertical line up to the child.
pub open spec fn branch_edge(px: int, cx: int, c: int, p: int, y: int, e: Edge) -> bool {
    (y == p && (if px < cx {
        e == mk(EdgeType::Right, px, cx) || is_horizontal(e, px, cx, cx) || e == mk(
            EdgeType::RightBottom,
            cx,
            cx,
        )
    } else {
        e == mk(EdgeType::Left, px, cx) || is_horizontal(e, cx, px, cx) || e == mk(
            EdgeType::LeftBottom,
            cx,
            cx,
        )
    })) || (c < y < p && e == mk(EdgeType::Vertical, cx, cx)) || (y == c && e == mk(
        EdgeType::Down,
        cx,
        cx,
    ))
}

/// Edges of a merge of parent `p` (column `px`) into child `c` (column `cx`)
/// drawn along the parent's own column.
pub open spec fn merge_edge(px: int, cx: int, c: int, p: int, y: int, e: Edge) -> bool {
    (y == p && e == mk(EdgeType::Up, px, px)) || (c < y < p && e == mk(EdgeType::Vertical, px, px)) || (
    y == c && (if px < cx {
        e == mk(EdgeType::LeftTop, px, px) || is_horizontal(e, px, cx, px) || e == mk(
            EdgeType::Left,
            cx,
            px,
        )
    } else {
        e == mk(EdgeType::RightTop, px, px) || is_horizontal(e, cx, px, px) || e == mk(
            EdgeType::Right,
            cx,
            px,
        )
    }))
}

/// Edges of a merge that detours through column `nx` to avoid crossing other lines.
pub open spec fn detour_edge(px: int, cx: int, nx: int, c: int, p: int, y: int, e: Edge) -> bool {
    (y == p && (e == mk(EdgeType::Right, px, px) || is_horizontal(e, px, nx, px) || e == mk(
        EdgeType::RightBottom,
        nx,
        px,
    ))) || (c < y < p && e == mk(EdgeType::Vertical, nx, px)) || (y == c && (e == mk(
        EdgeType::RightTop,
        nx,
        px,
    ) || is_horizontal(e, cx, nx, px) || e == mk(EdgeType::Right, cx, px)))
}

/// Child `c` continues the column of its parent `p`.
pub open spec fn is_straight(xs: Seq<usize>, p: int, c: int) -> bool {
    xs[p] == xs[c]
}

/// Edge `e` on row `y` belongs to the link between parent `p` and its `k`-th
/// child; a merge's edges are those of its own route only.
pub open spec fn link_edge(
    parents: Seq<Vec<Option<usize>>>,
    xs: Seq<usize>,
    p: int,
    k: int,
    y: int,
    e: Edge,
) -> bool {
    0 <= p < parents.len() && 0 <= k < children_of(parents, p as usize).len() && {
        let c = children_of(parents, p as usize)[k] as int;
        let px = xs[p] as int;
        let cx = xs[c] as int;
        if px == cx {
            straight_edge(px, c, p, y, e)
        } else if is_first_parent(parents, c as usize, p as usize) {
            branch_edge(px, cx, c, p, y, e)
        } else {
            let r = route_of(parents, xs, routes_before(parents, xs, p, k), p, k);
            if r.0 {
                detour_edge(px, cx, r.1, c, p, y, e)
            } else {
                merge_edge(px, cx, c, p, y, e)
            }
        }
    }
}

/// Edge `e` on row `y` belongs to some parent/child link.
pub open spec fn explained(parents: Seq<Vec<Option<usize>>>, xs: Seq<usize>, y: int, e: Edge) -> bool {
    exists|p: int, k: int| #[trigger] link_edge(parents, xs, p, k, y, e)
}

/// Every edge of the link between `p` and its `k`-th child is present, where
/// `has(y, e)` tells whether row `y` holds `e`; a merge is drawn either along
/// the parent's column or through one detour column no greater than `max_x`.
pub open spec fn link_drawn(
    parents: Seq<Vec<Option<usize>>>,
    xs: Seq<usize>,
    max_x: int,
    has: spec_fn(int, Edge) -> bool,
    p: int,
    k: int,
) -> bool {
    let c = children_of(parents, p as usize)[k] as int;
    let px = xs[p] as int;
    let cx = xs[c] as int;
    if px == cx {
        forall|y: int, e: Edge| #[trigger] straight_edge(px, c, p, y, e) ==> has(y, e)
    } else if is_first_parent(parents, c as usize, p as usize) {
        forall|y: int, e: Edge| #[trigger] branch_edge(px, cx, c, p, y, e) ==> has(y, e)
    } else {
        (forall|y: int, e: Edge| #[trigger] merge_edge(px, cx, c, p, y, e) ==> has(y, e)) || exists|
            nx: int,
        |
            px < nx <= max_x && #[trigger] detour_drawn(px, cx, nx, c, p, has)
    }
}

pub open spec fn detour_drawn(px: int, cx: int, nx: int, c: int, p: int, has: spec_fn(int, Edge) -> bool) -> bool {
    forall|y: int, e: Edge| #[trigger] detour_edge(px, cx, nx, c, p, y, e) ==> has(y, e)
}

/// Row membership for a finished graph.
pub open spec fn edges_has(edges: Seq<Vec<Edge>>) -> spec_fn(int, Edge) -> bool {
    |y: int, e: Edge| 0 <= y < edges.len() && edges[y]@.contains(e)
}

/// Largest of the first `n` columns (0 when `n` is 0).
pub open spec fn max_column(xs: Seq<usize>, n: int) -> int
    decreases n,
{
    if n <= 0 {
        0
    } else {
        let m = max_column(xs, n - 1);
        if m < xs[n - 1] { xs[n - 1] as int } else { m }
    }
}

/// What the edges of a graph over `parents` with columns `xs` are: one sorted,
/// duplicate-free row per commit; every link fully drawn; nothing but link
/// edges; every merge drawn along its route (straight down the parent's
/// column unless that would cross a commit or another parent's line, else
/// through the detour column the rows between push it to); and `max_x` the
/// rightmost column used by a commit or an edge (0 for an empty graph).
pub open spec fn edges_spec(
    parents: Seq<Vec<Option<usize>>>,
    xs: Seq<usize>,
    edges: Seq<Vec<Edge>>,
    max_x: int,
) -> bool {
    let n = parents.len() as int;
    &&& edges.len() == n
    &&& forall|y: int| 0 <= y < n ==> strictly_sorted(#[trigger] edges[y]@)
    &&& forall|i: int| 0 <= i < n ==> xs[i] <= max_x
    &&& forall|y: int, j: int|
        0 <= y < n && 0 <= j < edges[y]@.len() ==> (#[trigger] edges[y]@[j]).pos_x <= max_x
            && edges[y]@[j].associated_line_pos_x <= max_x
    &&& (n == 0 ==> max_x == 0)
    &&& (n > 0 ==> (exists|i: int| 0 <= i < n && xs[i] == max_x) || (exists|y: int, j: int|
        0 <= y < n && 0 <= j < edges[y]@.len() && (#[trigger] edges[y]@[j]).pos_x == max_x))
    &&& forall|p: int, k: int|
        0 <= p < n && 0 <= k < children_of(parents, p as usize).len() ==> #[trigger] link_drawn(
            parents,
            xs,
            max_x,
            edges_has(edges),
            p,
            k,
        )
    &&& forall|y: int, j: int|
        0 <= y < n && 0 <= j < edges[y]@.len() ==> explained(parents, xs, y, #[trigger] edges[y]@[j])
    &&& forall|p: int, k: int|
        0 <= p < n && 0 <= k < children_of(parents, p as usize).len() && is_merge(parents, xs, p, k) ==> #[trigger] routed(
            parents,
            xs,
            edges_has(edges),
            p,
            k,
        )
}


// ---------------------------------------------------------------------------
// How merge lines are routed
// ---------------------------------------------------------------------------

/// The routes chosen for merges so far: for a merge link `(p, k)`, whether it
/// detours and the column its vertical line takes.
pub type Routes = Map<(int, int), (bool, int)>;

/// The link between `q` and its `kk`-th child is drawn once `t` is known:
/// straight and branch links are drawn first, merges once routed.
pub open spec fn link_done(parents: Seq<Vec<Option<usize>>>, xs: Seq<usize>, t: Routes, q: int, kk: int) -> bool {
    0 <= q < parents.len() && 0 <= kk < children_of(parents, q as usize).len() && (!is_merge(parents, xs, q, kk)
        || t.contains_key((q, kk)))
}

/// The column of the vertical line of the link between `q` and its `kk`-th
/// child: the parent's column for a straight link, the child's for a branch,
/// and for a merge the parent's column or the detour column it was routed to.
pub open spec fn line_column(parents: Seq<Vec<Option<usize>>>, xs: Seq<usize>, t: Routes, q: int, kk: int) -> int {
    let c = children_of(parents, q as usize)[kk] as int;
    if xs[q] == xs[c] {
        xs[q] as int
    } else if is_first_parent(parents, c as usize, q as usize) {
        xs[c] as int
    } else if t[(q, kk)].0 {
        t[(q, kk)].1
    } else {
        xs[q] as int
    }
}

/// A drawn link of parent `q` has its vertical line in column `x` on row `y`.
pub open spec fn line_of(parents: Seq<Vec<Option<usize>>>, xs: Seq<usize>, t: Routes, q: int, y: int, x: int) -> bool {
    exists|kk: int|
        #[trigger] link_done(parents, xs, t, q, kk) && children_of(parents, q as usize)[kk] < y < q && line_column(
            parents,
            xs,
            t,
            q,
            kk,
        ) == x
}

/// A vertical line of a parent other than `p` stands in column `x` on row `y`.
pub open spec fn foreign_line(parents: Seq<Vec<Option<usize>>>, xs: Seq<usize>, t: Routes, p: int, y: int, x: int) -> bool {
    exists|q: int| q != p && #[trigger] line_of(parents, xs, t, q, y, x)
}

/// Passing row `y` moves the detour column `st.1` just right of the
/// rightmost foreign vertical line at or right of it, if there is one.
pub open spec fn line_step(parents: Seq<Vec<Option<usize>>>, xs: Seq<usize>, t: Routes, p: int, y: int, st: (bool, int)) -> (bool, int) {
    if exists|x: int| #[trigger] foreign_line(parents, xs, t, p, y, x) && x >= st.1 {
        let m = choose|m: int|
            #[trigger] foreign_line(parents, xs, t, p, y, m) && m >= st.1 && forall|x: int|
                #[trigger] foreign_line(parents, xs, t, p, y, x) && x >= st.1 ==> x <= m;
        (true, m + 1)
    } else {
        st
    }
}

/// Whether the merge of parent `p` into child `c` detours, and its column,
/// after the rows strictly between `c` and `y`: each row's commit in the
/// column pushes it one right, then the row's foreign vertical lines.
pub open spec fn route_fold(parents: Seq<Vec<Option<usize>>>, xs: Seq<usize>, t: Routes, p: int, c: int, y: int, st: (bool, int)) -> (bool, int)
    decreases y - c,
{
    if y <= c + 1 {
        st
    } else {
        let prev = route_fold(parents, xs, t, p, c, y - 1, st);
        line_step(parents, xs, t, p, y - 1, commit_step(xs[y - 1], prev))
    }
}

/// The merge of parent `p` into child `c` meets, on a row between, a commit
/// in the parent's column or a foreign vertical line there.
pub open spec fn route_blocked(parents: Seq<Vec<Option<usize>>>, xs: Seq<usize>, t: Routes, p: int, c: int) -> bool {
    exists|y: int| c < y < p && #[trigger] route_blocked_at(parents, xs, t, p, y)
}

/// Row `y` has a commit in the column of parent `p` or a foreign vertical
/// line there.
pub open spec fn route_blocked_at(parents: Seq<Vec<Option<usize>>>, xs: Seq<usize>, t: Routes, p: int, y: int) -> bool {
    xs[y] == xs[p] || foreign_line(parents, xs, t, p, y, xs[p] as int)
}

/// The route of the merge between `p` and its `k`-th child, given the routes
/// `t` of the merges before it: straight down the parent's column unless
/// blocked, else through the column the rows between push it to.
pub open spec fn route_of(parents: Seq<Vec<Option<usize>>>, xs: Seq<usize>, t: Routes, p: int, k: int) -> (bool, int) {
    let c = children_of(parents, p as usize)[k] as int;
    if route_blocked(parents, xs, t, p, c) {
        route_fold(parents, xs, t, p, c, p, (false, xs[p] as int))
    } else {
        (false, xs[p] as int)
    }
}

/// The routes of the merges before link `(p, k)`, merges being taken parent
/// by parent, each parent's children in order.
pub open spec fn routes_before(parents: Seq<Vec<Option<usize>>>, xs: Seq<usize>, p: int, k: int) -> Routes
    decreases p, k,
{
    if k > 0 {
        let t = routes_before(parents, xs, p, k - 1);
        if 0 <= p < parents.len() && k - 1 < children_of(parents, p as usize).len() && is_merge(parents, xs, p, k - 1) {
            t.insert((p, k - 1), route_of(parents, xs, t, p, k - 1))
        } else {
            t
        }
    } else if p > 0 {
        routes_before(parents, xs, p - 1, children_of(parents, (p - 1) as usize).len() as int)
    } else {
        Map::empty()
    }
}

/// The merge between `p` and its `k`-th child is drawn along its route.
pub open spec fn routed(parents: Seq<Vec<Option<usize>>>, xs: Seq<usize>, has: spec_fn(int, Edge) -> bool, p: int, k: int) -> bool {
    let c = children_of(parents, p as usize)[k] as int;
    let px = xs[p] as int;
    let cx = xs[c] as int;
    let r = route_of(parents, xs, routes_before(parents, xs, p, k), p, k);
    if r.0 {
        detour_drawn(px, cx, r.1, c, p, has)
    } else {
        forall|y: int, e: Edge| #[trigger] merge_edge(px, cx, c, p, y, e) ==> has(y, e)
    }
}

// ---------------------------------------------------------------------------
// Edge computation
// ---------------------------------------------------------------------------

/// An edge together with the parent commit whose link produced it.
#[derive(Clone, Copy)]
struct LinkEdge {
    edge: Edge,
    parent: usize,
}

spec fn row_has(rows: Seq<Vec<LinkEdge>>, y: int, e: Edge) -> bool {
    0 <= y < rows.len() && exists|j: int| 0 <= j < rows[y]@.len() && (#[trigger] rows[y]@[j]).edge == e
}

spec fn rows_has(rows: Seq<Vec<LinkEdge>>) -> spec_fn(int, Edge) -> bool {
    |y: int, e: Edge| row_has(rows, y, e)
}

spec fn grows(a: Seq<Vec<LinkEdge>>, b: Seq<Vec<LinkEdge>>) -> bool {
    &&& a.len() == b.len()
    &&& forall|y: int| 0 <= y < a.len() ==> (#[trigger] a[y])@.len() <= b[y]@.len()
    &&& forall|y: int, j: int|
        0 <= y < a.len() && 0 <= j < a[y]@.len() ==> b[y]@[j] == #[trigger] a[y]@[j]
}

spec fn all_explained(parents: Seq<Vec<Option<usize>>>, xs: Seq<usize>, rows: Seq<Vec<LinkEdge>>) -> bool {
    forall|y: int, j: int|
        0 <= y < rows.len() && 0 <= j < rows[y]@.len() ==> explained(parents, xs, y, (#[trigger] rows[y]@[j]).edge)
}

spec fn all_bounded(rows: Seq<Vec<LinkEdge>>, lim: int) -> bool {
    forall|y: int, j: int|
        0 <= y < rows.len() && 0 <= j < rows[y]@.len() ==> (#[trigger] rows[y]@[j]).edge.pos_x <= lim
            && rows[y]@[j].edge.associated_line_pos_x <= lim
}

/// The link between `p` and its `k`-th child is a merge: the child is in
/// another column and `p` is not its first parent.
pub open spec fn is_merge(parents: Seq<Vec<Option<usize>>>, xs: Seq<usize>, p: int, k: int) -> bool {
    let c = children_of(parents, p as usize)[k] as int;
    xs[p] != xs[c] && !is_first_parent(parents, c as usize, p as usize)
}

/// Rows `b` extend rows `a`, and every entry added belongs to parent `q` and
/// is a vertical line only in column `x` on a row strictly between `lo` and `hi`.
spec fn added_lines(a: Seq<Vec<LinkEdge>>, b: Seq<Vec<LinkEdge>>, q: usize, x: int, lo: int, hi: int) -> bool {
    &&& grows(a, b)
    &&& forall|y: int, j: int|
        0 <= y < b.len() && a[y]@.len() <= j < b[y]@.len() ==> (#[trigger] b[y]@[j]).parent == q && (b[y]@[j].edge.edge_type
            == EdgeType::Vertical ==> lo < y < hi && b[y]@[j].edge.pos_x == x)
}

/// Row `y` holds a vertical line of parent `q` in column `x`.
spec fn has_line(rows: Seq<Vec<LinkEdge>>, y: int, x: int, q: int) -> bool {
    0 <= y < rows.len() && exists|j: int|
        0 <= j < rows[y]@.len() && (#[trigger] rows[y]@[j]).edge.edge_type == EdgeType::Vertical && rows[y]@[j].edge.pos_x
            == x && rows[y]@[j].parent == q
}

/// Every vertical line in the rows is the line of a drawn link of its parent.
spec fn lines_known(parents: Seq<Vec<Option<usize>>>, xs: Seq<usize>, t: Routes, rows: Seq<Vec<LinkEdge>>) -> bool {
    forall|y: int, j: int|
        0 <= y < rows.len() && 0 <= j < rows[y]@.len() && (#[trigger] rows[y]@[j]).edge.edge_type == EdgeType::Vertical
            ==> line_of(parents, xs, t, rows[y]@[j].parent as int, y, rows[y]@[j].edge.pos_x as int)
}

/// A drawn link whose vertical line crosses row `y`.
spec fn crosses(parents: Seq<Vec<Option<usize>>>, xs: Seq<usize>, t: Routes, q: int, kk: int, y: int) -> bool {
    link_done(parents, xs, t, q, kk) && children_of(parents, q as usize)[kk] < y < q
}

/// Every drawn link has its vertical line on each row it crosses.
spec fn lines_present(parents: Seq<Vec<Option<usize>>>, xs: Seq<usize>, t: Routes, rows: Seq<Vec<LinkEdge>>) -> bool {
    forall|q: int, kk: int, y: int|
        #[trigger] crosses(parents, xs, t, q, kk, y) ==> has_line(rows, y, line_column(parents, xs, t, q, kk), q)
}

proof fn lemma_added_trans(
    a: Seq<Vec<LinkEdge>>,
    b: Seq<Vec<LinkEdge>>,
    d: Seq<Vec<LinkEdge>>,
    q: usize,
    x: int,
    lo: int,
    hi: int,
)
    requires
        added_lines(a, b, q, x, lo, hi),
        added_lines(b, d, q, x, lo, hi),
    ensures
        added_lines(a, d, q, x, lo, hi),
{
    lemma_grows_trans(a, b, d);
    assert forall|y: int, j: int| 0 <= y < d.len() && a[y]@.len() <= j < d[y]@.len() implies (#[trigger] d[y]@[j]).parent
        == q && (d[y]@[j].edge.edge_type == EdgeType::Vertical ==> lo < y < hi && d[y]@[j].edge.pos_x == x) by {
        if j < b[y]@.len() {
            assert(d[y]@[j] == b[y]@[j]);
        }
    }
}

proof fn lemma_added_flat(a: Seq<Vec<LinkEdge>>, b: Seq<Vec<LinkEdge>>, q: usize, x: int, lo: int, hi: int)
    requires
        added_lines(a, b, q, 0, 0, 0),
    ensures
        added_lines(a, b, q, x, lo, hi),
{
}

proof fn lemma_push_added(a: Seq<Vec<LinkEdge>>, b: Seq<Vec<LinkEdge>>, y: int, e: Edge, q: usize, x: int, lo: int, hi: int)
    requires
        0 <= y < a.len(),
        b.len() == a.len(),
        forall|z: int| 0 <= z < a.len() && z != y ==> #[trigger] b[z] == a[z],
        b[y]@ == a[y]@.push(LinkEdge { edge: e, parent: q }),
        e.edge_type == EdgeType::Vertical ==> lo < y < hi && e.pos_x == x,
    ensures
        added_lines(a, b, q, x, lo, hi),
{
    assert forall|z: int| 0 <= z < a.len() implies (#[trigger] a[z])@.len() <= b[z]@.len() by {
        if z != y {
            assert(b[z] == a[z]);
        }
    }
    assert forall|z: int, j: int| 0 <= z < a.len() && 0 <= j < a[z]@.len() implies b[z]@[j] == #[trigger] a[z]@[j] by {
        if z != y {
            assert(b[z] == a[z]);
        }
    }
    assert forall|z: int, j: int| 0 <= z < b.len() && a[z]@.len() <= j < b[z]@.len() implies (#[trigger] b[z]@[j]).parent
        == q && (b[z]@[j].edge.edge_type == EdgeType::Vertical ==> lo < z < hi && b[z]@[j].edge.pos_x == x) by {
        if z != y {
            assert(b[z] == a[z]);
        }
    }
}

/// The drawn links before link `(p, k)` have their vertical lines in the rows.
spec fn lines_present_upto(
    parents: Seq<Vec<Option<usize>>>,
    xs: Seq<usize>,
    t: Routes,
    rows: Seq<Vec<LinkEdge>>,
    p: int,
    k: int,
) -> bool {
    forall|q: int, kk: int, y: int|
        #[trigger] crosses(parents, xs, t, q, kk, y) && (q < p || (q == p && kk < k)) ==> has_line(
            rows,
            y,
            line_column(parents, xs, t, q, kk),
            q,
        )
}

proof fn lemma_lines_step(
    parents: Seq<Vec<Option<usize>>>,
    xs: Seq<usize>,
    t: Routes,
    a: Seq<Vec<LinkEdge>>,
    b: Seq<Vec<LinkEdge>>,
    q: usize,
    kk: int,
)
    requires
        lines_known(parents, xs, t, a),
        link_done(parents, xs, t, q as int, kk),
        added_lines(a, b, q, line_column(parents, xs, t, q as int, kk), children_of(parents, q)[kk] as int, q as int),
    ensures
        lines_known(parents, xs, t, b),
{
    assert forall|y: int, j: int|
        0 <= y < b.len() && 0 <= j < b[y]@.len() && (#[trigger] b[y]@[j]).edge.edge_type == EdgeType::Vertical implies line_of(
        parents,
        xs,
        t,
        b[y]@[j].parent as int,
        y,
        b[y]@[j].edge.pos_x as int,
    ) by {
        if j < a[y]@.len() {
            assert(b[y]@[j] == a[y]@[j]);
        } else {
            assert(link_done(parents, xs, t, q as int, kk));
        }
    }
}

proof fn lemma_present_step(
    parents: Seq<Vec<Option<usize>>>,
    xs: Seq<usize>,
    t: Routes,
    a: Seq<Vec<LinkEdge>>,
    b: Seq<Vec<LinkEdge>>,
    p: int,
    k: int,
)
    requires
        lines_present_upto(parents, xs, t, a, p, k),
        grows(a, b),
        link_done(parents, xs, t, p, k) ==> forall|y: int|
            children_of(parents, p as usize)[k] < y < p ==> #[trigger] has_line(b, y, line_column(parents, xs, t, p, k), p),
    ensures
        lines_present_upto(parents, xs, t, b, p, k + 1),
{
    assert forall|q: int, kk: int, y: int|
        #[trigger] crosses(parents, xs, t, q, kk, y) && (q < p || (q == p && kk < k + 1)) implies has_line(
        b,
        y,
        line_column(parents, xs, t, q, kk),
        q,
    ) by {
        if q == p && kk == k {
        } else {
            lemma_has_line_grows(a, b, y, line_column(parents, xs, t, q, kk), q);
        }
    }
}

proof fn lemma_routes_dom(parents: Seq<Vec<Option<usize>>>, xs: Seq<usize>, p: int, k: int)
    requires
        0 <= p,
        0 <= k,
    ensures
        forall|key: (int, int)| #[trigger] routes_before(parents, xs, p, k).contains_key(key) ==> key.0 < p || (key.0
            == p && key.1 < k),
    decreases p, k,
{
    if k > 0 {
        lemma_routes_dom(parents, xs, p, k - 1);
        assert forall|key: (int, int)| #[trigger] routes_before(parents, xs, p, k).contains_key(key) implies key.0 < p
            || (key.0 == p && key.1 < k) by {
            if key != (p, k - 1) {
                assert(routes_before(parents, xs, p, k - 1).contains_key(key));
            }
        }
    } else if p > 0 {
        let len = children_of(parents, (p - 1) as usize).len() as int;
        lemma_routes_dom(parents, xs, p - 1, len);
        assert forall|key: (int, int)| #[trigger] routes_before(parents, xs, p, k).contains_key(key) implies key.0 < p
            || (key.0 == p && key.1 < k) by {
            assert(routes_before(parents, xs, p - 1, len).contains_key(key));
        }
    }
}

proof fn lemma_known_extend(
    parents: Seq<Vec<Option<usize>>>,
    xs: Seq<usize>,
    t: Routes,
    p: int,
    k: int,
    r: (bool, int),
    rows: Seq<Vec<LinkEdge>>,
)
    requires
        !t.contains_key((p, k)),
        lines_known(parents, xs, t, rows),
    ensures
        lines_known(parents, xs, t.insert((p, k), r), rows),
{
    let t2 = t.insert((p, k), r);
    assert forall|y: int, j: int|
        0 <= y < rows.len() && 0 <= j < rows[y]@.len() && (#[trigger] rows[y]@[j]).edge.edge_type == EdgeType::Vertical implies line_of(
        parents,
        xs,
        t2,
        rows[y]@[j].parent as int,
        y,
        rows[y]@[j].edge.pos_x as int,
    ) by {
        let q = rows[y]@[j].parent as int;
        let x = rows[y]@[j].edge.pos_x as int;
        assert(line_of(parents, xs, t, q, y, x));
        let kk = choose|kk: int|
            #[trigger] link_done(parents, xs, t, q, kk) && children_of(parents, q as usize)[kk] < y < q && line_column(
                parents,
                xs,
                t,
                q,
                kk,
            ) == x;
        assert(link_done(parents, xs, t2, q, kk));
        assert(line_column(parents, xs, t2, q, kk) == x);
    }
}

proof fn lemma_present_extend(
    parents: Seq<Vec<Option<usize>>>,
    xs: Seq<usize>,
    t: Routes,
    p: int,
    k: int,
    r: (bool, int),
    rows: Seq<Vec<LinkEdge>>,
)
    requires
        !t.contains_key((p, k)),
        lines_present(parents, xs, t, rows),
        forall|y: int|
            children_of(parents, p as usize)[k] < y < p ==> #[trigger] has_line(
                rows,
                y,
                line_column(parents, xs, t.insert((p, k), r), p, k),
                p,
            ),
    ensures
        lines_present(parents, xs, t.insert((p, k), r), rows),
{
    let t2 = t.insert((p, k), r);
    assert forall|q: int, kk: int, y: int| #[trigger] crosses(parents, xs, t2, q, kk, y) implies has_line(
        rows,
        y,
        line_column(parents, xs, t2, q, kk),
        q,
    ) by {
        if q == p && kk == k {
        } else {
            assert(crosses(parents, xs, t, q, kk, y));
            assert(line_column(parents, xs, t2, q, kk) == line_column(parents, xs, t, q, kk));
        }
    }
}

proof fn lemma_present_grows(
    parents: Seq<Vec<Option<usize>>>,
    xs: Seq<usize>,
    t: Routes,
    a: Seq<Vec<LinkEdge>>,
    b: Seq<Vec<LinkEdge>>,
)
    requires
        lines_present(parents, xs, t, a),
        grows(a, b),
    ensures
        lines_present(parents, xs, t, b),
{
    assert forall|q: int, kk: int, y: int| #[trigger] crosses(parents, xs, t, q, kk, y) implies has_line(
        b,
        y,
        line_column(parents, xs, t, q, kk),
        q,
    ) by {
        lemma_has_line_grows(a, b, y, line_column(parents, xs, t, q, kk), q);
    }
}

proof fn lemma_routed_mono(
    parents: Seq<Vec<Option<usize>>>,
    xs: Seq<usize>,
    has1: spec_fn(int, Edge) -> bool,
    has2: spec_fn(int, Edge) -> bool,
    p: int,
    k: int,
)
    requires
        forall|y: int, e: Edge| #[trigger] has1(y, e) ==> has2(y, e),
        routed(parents, xs, has1, p, k),
    ensures
        routed(parents, xs, has2, p, k),
{
    let c = children_of(parents, p as usize)[k] as int;
    let r = route_of(parents, xs, routes_before(parents, xs, p, k), p, k);
    if r.0 {
        assert(detour_drawn(xs[p] as int, xs[c] as int, r.1, c, p, has2));
    }
}

proof fn lemma_has_line_grows(a: Seq<Vec<LinkEdge>>, b: Seq<Vec<LinkEdge>>, y: int, x: int, q: int)
    requires
        grows(a, b),
        has_line(a, y, x, q),
    ensures
        has_line(b, y, x, q),
{
    let j = choose|j: int|
        0 <= j < a[y]@.len() && (#[trigger] a[y]@[j]).edge.edge_type == EdgeType::Vertical && a[y]@[j].edge.pos_x == x
            && a[y]@[j].parent == q;
    assert(b[y]@[j] == a[y]@[j]);
}

proof fn lemma_grows_has(a: Seq<Vec<LinkEdge>>, b: Seq<Vec<LinkEdge>>)
    requires
        grows(a, b),
    ensures
        forall|y: int, e: Edge| row_has(a, y, e) ==> #[trigger] row_has(b, y, e),
{
    assert forall|y: int, e: Edge| row_has(a, y, e) implies #[trigger] row_has(b, y, e) by {
        let j = choose|j: int| 0 <= j < a[y]@.len() && (#[trigger] a[y]@[j]).edge == e;
        assert(a[y]@.len() <= b[y]@.len());
        assert(b[y]@[j] == a[y]@[j]);
    }
}

proof fn lemma_grows_trans(a: Seq<Vec<LinkEdge>>, b: Seq<Vec<LinkEdge>>, c: Seq<Vec<LinkEdge>>)
    requires
        grows(a, b),
        grows(b, c),
    ensures
        grows(a, c),
{
    assert forall|y: int| 0 <= y < a.len() implies (#[trigger] a[y])@.len() <= c[y]@.len() by {
        assert(b[y]@.len() <= c[y]@.len());
    }
    assert forall|y: int, j: int|
        0 <= y < a.len() && 0 <= j < a[y]@.len() implies c[y]@[j] == #[trigger] a[y]@[j] by {
        assert(a[y]@.len() <= b[y]@.len());
        assert(b[y]@[j] == a[y]@[j]);
        assert(c[y]@[j] == b[y]@[j]);
    }
}

proof fn lemma_drawn_mono(
    parents: Seq<Vec<Option<usize>>>,
    xs: Seq<usize>,
    m1: int,
    m2: int,
    has1: spec_fn(int, Edge) -> bool,
    has2: spec_fn(int, Edge) -> bool,
    p: int,
    k: int,
)
    requires
        m1 <= m2,
        forall|y: int, e: Edge| #[trigger] has1(y, e) ==> has2(y, e),
        link_drawn(parents, xs, m1, has1, p, k),
    ensures
        link_drawn(parents, xs, m2, has2, p, k),
{
    let c = children_of(parents, p as usize)[k] as int;
    let px = xs[p] as int;
    let cx = xs[c] as int;
    if px == cx {
    } else if is_first_parent(parents, c as usize, p as usize) {
    } else {
        if !(forall|y: int, e: Edge| #[trigger] merge_edge(px, cx, c, p, y, e) ==> has1(y, e)) {
            let nx = choose|nx: int| px < nx <= m1 && #[trigger] detour_drawn(px, cx, nx, c, p, has1);
            assert(detour_drawn(px, cx, nx, c, p, has2));
        }
    }
}

proof fn lemma_all_drawn_grow(
    parents: Seq<Vec<Option<usize>>>,
    xs: Seq<usize>,
    m1: int,
    m2: int,
    a: Seq<Vec<LinkEdge>>,
    b: Seq<Vec<LinkEdge>>,
    sel: spec_fn(int, int) -> bool,
)
    requires
        m1 <= m2,
        grows(a, b),
        forall|q: int, kk: int|
            0 <= q < parents.len() && 0 <= kk < children_of(parents, q as usize).len() && sel(q, kk)
                ==> #[trigger] link_drawn(parents, xs, m1, rows_has(a), q, kk),
    ensures
        forall|q: int, kk: int|
            0 <= q < parents.len() && 0 <= kk < children_of(parents, q as usize).len() && sel(q, kk)
                ==> #[trigger] link_drawn(parents, xs, m2, rows_has(b), q, kk),
{
    lemma_grows_has(a, b);
    assert forall|q: int, kk: int|
        0 <= q < parents.len() && 0 <= kk < children_of(parents, q as usize).len() && sel(q, kk) implies #[trigger] link_drawn(
        parents,
        xs,
        m2,
        rows_has(b),
        q,
        kk,
    ) by {
        assert(link_drawn(parents, xs, m1, rows_has(a), q, kk));
        lemma_drawn_mono(parents, xs, m1, m2, rows_has(a), rows_has(b), q, kk);
    }
}

fn push_edge(
    rows: &mut Vec<Vec<LinkEdge>>,
    y: usize,
    e: Edge,
    parent: usize,
    Ghost(parents): Ghost<Seq<Vec<Option<usize>>>>,
    Ghost(xs): Ghost<Seq<usize>>,
    Ghost(lim): Ghost<int>,
)
    requires
        y < old(rows)@.len(),
        explained(parents, xs, y as int, e),
        e.pos_x <= lim,
        e.associated_line_pos_x <= lim,
        all_explained(parents, xs, old(rows)@),
        all_bounded(old(rows)@, lim),
    ensures
        grows(old(rows)@, final(rows)@),
        all_explained(parents, xs, final(rows)@),
        all_bounded(final(rows)@, lim),
        row_has(final(rows)@, y as int, e),
        final(rows)@.len() == old(rows)@.len(),
        forall|z: int| 0 <= z < old(rows)@.len() && z != y ==> #[trigger] final(rows)@[z] == old(rows)@[z],
        final(rows)@[y as int]@ == old(rows)@[y as int]@.push(LinkEdge { edge: e, parent }),
{
    let ghost old_rows = rows@;
    rows[y].push(LinkEdge { edge: e, parent });
    proof {
        assert(rows@[y as int]@[old_rows[y as int]@.len() as int].edge == e);
        assert forall|z: int, j: int| 0 <= z < rows@.len() && 0 <= j < rows@[z]@.len() implies explained(
            parents,
            xs,
            z,
            (#[trigger] rows@[z]@[j]).edge,
        ) by {
            if z != y || j < old_rows[z]@.len() {
                assert(rows@[z]@[j] == old_rows[z]@[j]);
            }
        }
        assert forall|z: int, j: int| 0 <= z < rows@.len() && 0 <= j < rows@[z]@.len() implies (
        #[trigger] rows@[z]@[j]).edge.pos_x <= lim && rows@[z]@[j].edge.associated_line_pos_x <= lim by {
            if z != y || j < old_rows[z]@.len() {
                assert(rows@[z]@[j] == old_rows[z]@[j]);
            }
        }
    }
}

/// Pushes `Vertical` edges of column `x` (line `a`) on rows strictly between `lo` and `hi`.
fn push_vertical_run(
    rows: &mut Vec<Vec<LinkEdge>>,
    lo: usize,
    hi: usize,
    x: usize,
    a: usize,
    parent: usize,
    Ghost(parents): Ghost<Seq<Vec<Option<usize>>>>,
    Ghost(xs): Ghost<Seq<usize>>,
    Ghost(lim): Ghost<int>,
)
    requires
        hi <= old(rows)@.len(),
        forall|y: int| lo < y < hi ==> explained(parents, xs, y, #[trigger] mk(EdgeType::Vertical, x as int, a as int)),
        x <= lim,
        a <= lim,
        all_explained(parents, xs, old(rows)@),
        all_bounded(old(rows)@, lim),
    ensures
        grows(old(rows)@, final(rows)@),
        all_explained(parents, xs, final(rows)@),
        all_bounded(final(rows)@, lim),
        forall|y: int| lo < y < hi ==> #[trigger] row_has(final(rows)@, y, mk(EdgeType::Vertical, x as int, a as int)),
        added_lines(old(rows)@, final(rows)@, parent, x as int, lo as int, hi as int),
        forall|y: int| lo < y < hi ==> #[trigger] has_line(final(rows)@, y, x as int, parent as int),
{
    let ghost r0 = rows@;
    let e = Edge::new(EdgeType::Vertical, x, a);
    if lo >= hi {
        return;
    }
    let mut y = lo + 1;
    while y < hi
        invariant
            lo < y <= hi,
            hi <= rows@.len(),
            e == mk(EdgeType::Vertical, x as int, a as int),
            forall|z: int| lo < z < hi ==> explained(parents, xs, z, #[trigger] mk(EdgeType::Vertical, x as int, a as int)),
            x <= lim,
            a <= lim,
            grows(r0, rows@),
            all_explained(parents, xs, rows@),
            all_bounded(rows@, lim),
            forall|z: int| lo < z < y ==> #[trigger] row_has(rows@, z, e),
            added_lines(r0, rows@, parent, x as int, lo as int, hi as int),
            forall|z: int| lo < z < y ==> #[trigger] has_line(rows@, z, x as int, parent as int),
        decreases hi - y,
    {
        let ghost r1 = rows@;
        push_edge(rows, y, e, parent, Ghost(parents), Ghost(xs), Ghost(lim));
        proof {
            lemma_grows_trans(r0, r1, rows@);
            lemma_grows_has(r1, rows@);
            let le = LinkEdge { edge: e, parent };
            assert(rows@[y as int]@[r1[y as int]@.len() as int] == le);
            assert(added_lines(r1, rows@, parent, x as int, lo as int, hi as int)) by {
                assert forall|z: int, j: int| 0 <= z < rows@.len() && r1[z]@.len() <= j < rows@[z]@.len() implies (
                #[trigger] rows@[z]@[j]).parent == parent && (rows@[z]@[j].edge.edge_type == EdgeType::Vertical ==> lo < z
                    < hi && rows@[z]@[j].edge.pos_x == x) by {
                    assert(z == y);
                }
            }
            lemma_added_trans(r0, r1, rows@, parent, x as int, lo as int, hi as int);
            assert forall|z: int| lo < z < y + 1 implies #[trigger] has_line(rows@, z, x as int, parent as int) by {
                if z < y {
                    lemma_has_line_grows(r1, rows@, z, x as int, parent as int);
                } else {
                    assert(rows@[z]@[r1[z]@.len() as int] == le);
                }
            }
        }
        y += 1;
    }
}

/// Pushes `Horizontal` edges of line `a` on row `y` in columns strictly between `lo` and `hi`.
fn push_horizontal_run(
    rows: &mut Vec<Vec<LinkEdge>>,
    y: usize,
    lo: usize,
    hi: usize,
    a: usize,
    parent: usize,
    Ghost(parents): Ghost<Seq<Vec<Option<usize>>>>,
    Ghost(xs): Ghost<Seq<usize>>,
    Ghost(lim): Ghost<int>,
)
    requires
        y < old(rows)@.len(),
        forall|e: Edge| #[trigger] is_horizontal(e, lo as int, hi as int, a as int) ==> explained(parents, xs, y as int, e),
        hi <= lim + 1,
        a <= lim,
        all_explained(parents, xs, old(rows)@),
        all_bounded(old(rows)@, lim),
    ensures
        grows(old(rows)@, final(rows)@),
        all_explained(parents, xs, final(rows)@),
        all_bounded(final(rows)@, lim),
        forall|e: Edge| #[trigger] is_horizontal(e, lo as int, hi as int, a as int) ==> row_has(final(rows)@, y as int, e),
        added_lines(old(rows)@, final(rows)@, parent, 0, 0, 0),
{
    let ghost r0 = rows@;
    if lo >= hi {
        return;
    }
    let mut x = lo + 1;
    while x < hi
        invariant
            lo < x <= hi,
            y < rows@.len(),
            forall|e: Edge| #[trigger] is_horizontal(e, lo as int, hi as int, a as int) ==> explained(parents, xs, y as int, e),
            hi <= lim + 1,
            a <= lim,
            grows(r0, rows@),
            all_explained(parents, xs, rows@),
            all_bounded(rows@, lim),
            forall|e: Edge| #[trigger] is_horizontal(e, lo as int, x as int, a as int) ==> row_has(rows@, y as int, e),
            added_lines(r0, rows@, parent, 0, 0, 0),
        decreases hi - x,
    {
        let ghost r1 = rows@;
        let e = Edge::new(EdgeType::Horizontal, x, a);
        assert(is_horizontal(e, lo as int, hi as int, a as int));
        push_edge(rows, y, e, parent, Ghost(parents), Ghost(xs), Ghost(lim));
        proof {
            lemma_grows_trans(r0, r1, rows@);
            lemma_grows_has(r1, rows@);
            assert(added_lines(r1, rows@, parent, 0, 0, 0)) by {
                assert forall|z: int, j: int| 0 <= z < rows@.len() && r1[z]@.len() <= j < rows@[z]@.len() implies (
                #[trigger] rows@[z]@[j]).parent == parent && (rows@[z]@[j].edge.edge_type == EdgeType::Vertical ==> 0 < z
                    < 0 && rows@[z]@[j].edge.pos_x == 0) by {
                    assert(z == y);
                    assert(rows@[z]@[j] == LinkEdge { edge: e, parent });
                }
            }
            lemma_added_trans(r0, r1, rows@, parent, 0, 0, 0);
            assert forall|e2: Edge| #[trigger] is_horizontal(e2, lo as int, x + 1, a as int) implies row_has(
                rows@,
                y as int,
                e2,
            ) by {
                if e2.pos_x < x {
                    assert(is_horizontal(e2, lo as int, x as int, a as int));
                } else {
                    assert(e2 == e);
                }
            }
        }
        x += 1;
    }
}


/// Common preconditions of the link-drawing steps: `c` is the `k`-th child of
/// `p`, and the columns involved fit under `lim`.
spec fn link_ctx(
    parents: Seq<Vec<Option<usize>>>,
    xs: Seq<usize>,
    rows: Seq<Vec<LinkEdge>>,
    p: int,
    k: int,
    c: int,
    lim: int,
) -> bool {
    &&& rows.len() == parents.len()
    &&& xs.len() == parents.len()
    &&& 0 <= p < parents.len()
    &&& 0 <= k < children_of(parents, p as usize).len()
    &&& children_of(parents, p as usize)[k] == c
    &&& 0 <= c < parents.len()
    &&& xs[p] <= lim
    &&& xs[c] <= lim
    &&& all_explained(parents, xs, rows)
    &&& all_bounded(rows, lim)
}

fn draw_straight(
    rows: &mut Vec<Vec<LinkEdge>>,
    p: usize,
    k: usize,
    c: usize,
    x: usize,
    Ghost(parents): Ghost<Seq<Vec<Option<usize>>>>,
    Ghost(xs): Ghost<Seq<usize>>,
    Ghost(lim): Ghost<int>,
)
    requires
        link_ctx(parents, xs, old(rows)@, p as int, k as int, c as int, lim),
        xs[p as int] == x,
        xs[c as int] == x,
    ensures
        grows(old(rows)@, final(rows)@),
        all_explained(parents, xs, final(rows)@),
        all_bounded(final(rows)@, lim),
        added_lines(old(rows)@, final(rows)@, p, x as int, c as int, p as int),
        forall|y: int| c < y < p ==> #[trigger] has_line(final(rows)@, y, x as int, p as int),
        link_drawn(parents, xs, lim, rows_has(final(rows)@), p as int, k as int),
{
    let ghost r0 = rows@;
    let up = Edge::new(EdgeType::Up, x, x);
    assert(link_edge(parents, xs, p as int, k as int, p as int, up));
    push_edge(rows, p, up, p, Ghost(parents), Ghost(xs), Ghost(lim));
    let ghost r1 = rows@;
    assert forall|y: int| c < y < p implies explained(parents, xs, y, #[trigger] mk(EdgeType::Vertical, x as int, x as int)) by {
        assert(link_edge(parents, xs, p as int, k as int, y, mk(EdgeType::Vertical, x as int, x as int)));
    }
    push_vertical_run(rows, c, p, x, x, p, Ghost(parents), Ghost(xs), Ghost(lim));
    let ghost r2 = rows@;
    let down = Edge::new(EdgeType::Down, x, x);
    assert(link_edge(parents, xs, p as int, k as int, c as int, down));
    push_edge(rows, c, down, p, Ghost(parents), Ghost(xs), Ghost(lim));
    proof {
        lemma_push_added(r0, r1, p as int, up, p, x as int, c as int, p as int);
        lemma_push_added(r2, rows@, c as int, down, p, x as int, c as int, p as int);
        lemma_added_trans(r0, r1, r2, p, x as int, c as int, p as int);
        lemma_added_trans(r0, r2, rows@, p, x as int, c as int, p as int);
        assert forall|y: int| c < y < p implies #[trigger] has_line(rows@, y, x as int, p as int) by {
            lemma_has_line_grows(r2, rows@, y, x as int, p as int);
        }
        lemma_grows_trans(r0, r1, r2);
        lemma_grows_trans(r0, r2, rows@);
        lemma_grows_trans(r1, r2, rows@);
        lemma_grows_has(r1, rows@);
        lemma_grows_has(r2, rows@);
        assert forall|y: int, e: Edge| #[trigger] straight_edge(x as int, c as int, p as int, y, e) implies rows_has(
            rows@,
        )(y, e) by {
            if y == p && e == up {
            } else if c < y < p && e == mk(EdgeType::Vertical, x as int, x as int) {
                assert(row_has(r2, y, e));
            } else {
            }
        }
    }
}

fn draw_branch(
    rows: &mut Vec<Vec<LinkEdge>>,
    p: usize,
    k: usize,
    c: usize,
    px: usize,
    cx: usize,
    Ghost(parents): Ghost<Seq<Vec<Option<usize>>>>,
    Ghost(xs): Ghost<Seq<usize>>,
    Ghost(lim): Ghost<int>,
)
    requires
        link_ctx(parents, xs, old(rows)@, p as int, k as int, c as int, lim),
        xs[p as int] == px,
        xs[c as int] == cx,
        px != cx,
        is_first_parent(parents, c, p),
    ensures
        grows(old(rows)@, final(rows)@),
        all_explained(parents, xs, final(rows)@),
        all_bounded(final(rows)@, lim),
        added_lines(old(rows)@, final(rows)@, p, cx as int, c as int, p as int),
        forall|y: int| c < y < p ==> #[trigger] has_line(final(rows)@, y, cx as int, p as int),
        link_drawn(parents, xs, lim, rows_has(final(rows)@), p as int, k as int),
{
    let ghost r0 = rows@;
    let (first, corner, lo, hi) = if px < cx {
        (Edge::new(EdgeType::Right, px, cx), Edge::new(EdgeType::RightBottom, cx, cx), px, cx)
    } else {
        (Edge::new(EdgeType::Left, px, cx), Edge::new(EdgeType::LeftBottom, cx, cx), cx, px)
    };
    assert(link_edge(parents, xs, p as int, k as int, p as int, first));
    push_edge(rows, p, first, p, Ghost(parents), Ghost(xs), Ghost(lim));
    let ghost r1 = rows@;
    assert forall|e: Edge| #[trigger] is_horizontal(e, lo as int, hi as int, cx as int) implies explained(
        parents,
        xs,
        p as int,
        e,
    ) by {
        assert(link_edge(parents, xs, p as int, k as int, p as int, e));
    }
    push_horizontal_run(rows, p, lo, hi, cx, p, Ghost(parents), Ghost(xs), Ghost(lim));
    let ghost r2 = rows@;
    assert(link_edge(parents, xs, p as int, k as int, p as int, corner));
    push_edge(rows, p, corner, p, Ghost(parents), Ghost(xs), Ghost(lim));
    let ghost r3 = rows@;
    assert forall|y: int| c < y < p implies explained(parents, xs, y, #[trigger] mk(EdgeType::Vertical, cx as int, cx as int)) by {
        assert(link_edge(parents, xs, p as int, k as int, y, mk(EdgeType::Vertical, cx as int, cx as int)));
    }
    push_vertical_run(rows, c, p, cx, cx, p, Ghost(parents), Ghost(xs), Ghost(lim));
    let ghost r4 = rows@;
    let down = Edge::new(EdgeType::Down, cx, cx);
    assert(link_edge(parents, xs, p as int, k as int, c as int, down));
    push_edge(rows, c, down, p, Ghost(parents), Ghost(xs), Ghost(lim));
    proof {
        lemma_push_added(r0, r1, p as int, first, p, cx as int, c as int, p as int);
        lemma_added_flat(r1, r2, p, cx as int, c as int, p as int);
        lemma_push_added(r2, r3, p as int, corner, p, cx as int, c as int, p as int);
        lemma_push_added(r4, rows@, c as int, down, p, cx as int, c as int, p as int);
        lemma_added_trans(r0, r1, r2, p, cx as int, c as int, p as int);
        lemma_added_trans(r0, r2, r3, p, cx as int, c as int, p as int);
        lemma_added_trans(r0, r3, r4, p, cx as int, c as int, p as int);
        lemma_added_trans(r0, r4, rows@, p, cx as int, c as int, p as int);
        assert forall|y: int| c < y < p implies #[trigger] has_line(rows@, y, cx as int, p as int) by {
            lemma_has_line_grows(r4, rows@, y, cx as int, p as int);
        }
        lemma_grows_trans(r0, r1, r2);
        lemma_grows_trans(r0, r2, r3);
        lemma_grows_trans(r0, r3, r4);
        lemma_grows_trans(r0, r4, rows@);
        lemma_grows_trans(r3, r4, rows@);
        lemma_grows_trans(r2, r3, rows@);
        lemma_grows_trans(r1, r2, rows@);
        lemma_grows_has(r1, rows@);
        lemma_grows_has(r2, rows@);
        lemma_grows_has(r3, rows@);
        lemma_grows_has(r4, rows@);
        assert forall|y: int, e: Edge| #[trigger] branch_edge(px as int, cx as int, c as int, p as int, y, e) implies rows_has(
            rows@,
        )(y, e) by {
            if y == p && e == first {
            } else if y == p && is_horizontal(e, lo as int, hi as int, cx as int) {
                assert(row_has(r2, y, e));
            } else if y == p && e == corner {
                assert(row_has(r3, y, e));
            } else if c < y < p && e == mk(EdgeType::Vertical, cx as int, cx as int) {
                assert(row_has(r4, y, e));
            } else {
            }
        }
    }
}


fn draw_merge(
    rows: &mut Vec<Vec<LinkEdge>>,
    p: usize,
    k: usize,
    c: usize,
    px: usize,
    cx: usize,
    Ghost(parents): Ghost<Seq<Vec<Option<usize>>>>,
    Ghost(xs): Ghost<Seq<usize>>,
    Ghost(lim): Ghost<int>,
)
    requires
        link_ctx(parents, xs, old(rows)@, p as int, k as int, c as int, lim),
        xs[p as int] == px,
        xs[c as int] == cx,
        px != cx,
        !is_first_parent(parents, c, p),
        !route_of(parents, xs, routes_before(parents, xs, p as int, k as int), p as int, k as int).0,
    ensures
        grows(old(rows)@, final(rows)@),
        all_explained(parents, xs, final(rows)@),
        all_bounded(final(rows)@, lim),
        added_lines(old(rows)@, final(rows)@, p, px as int, c as int, p as int),
        forall|y: int| c < y < p ==> #[trigger] has_line(final(rows)@, y, px as int, p as int),
        forall|y: int, e: Edge| #[trigger] merge_edge(px as int, cx as int, c as int, p as int, y, e) ==> row_has(final(rows)@, y, e),
{
    let ghost r0 = rows@;
    let up = Edge::new(EdgeType::Up, px, px);
    assert(link_edge(parents, xs, p as int, k as int, p as int, up));
    push_edge(rows, p, up, p, Ghost(parents), Ghost(xs), Ghost(lim));
    let ghost r1 = rows@;
    assert forall|y: int| c < y < p implies explained(parents, xs, y, #[trigger] mk(EdgeType::Vertical, px as int, px as int)) by {
        assert(link_edge(parents, xs, p as int, k as int, y, mk(EdgeType::Vertical, px as int, px as int)));
    }
    push_vertical_run(rows, c, p, px, px, p, Ghost(parents), Ghost(xs), Ghost(lim));
    let ghost r2 = rows@;
    let (corner, last, lo, hi) = if px < cx {
        (Edge::new(EdgeType::LeftTop, px, px), Edge::new(EdgeType::Left, cx, px), px, cx)
    } else {
        (Edge::new(EdgeType::RightTop, px, px), Edge::new(EdgeType::Right, cx, px), cx, px)
    };
    assert(link_edge(parents, xs, p as int, k as int, c as int, corner));
    push_edge(rows, c, corner, p, Ghost(parents), Ghost(xs), Ghost(lim));
    let ghost r3 = rows@;
    assert forall|e: Edge| #[trigger] is_horizontal(e, lo as int, hi as int, px as int) implies explained(
        parents,
        xs,
        c as int,
        e,
    ) by {
        assert(link_edge(parents, xs, p as int, k as int, c as int, e));
    }
    push_horizontal_run(rows, c, lo, hi, px, p, Ghost(parents), Ghost(xs), Ghost(lim));
    let ghost r4 = rows@;
    assert(link_edge(parents, xs, p as int, k as int, c as int, last));
    push_edge(rows, c, last, p, Ghost(parents), Ghost(xs), Ghost(lim));
    proof {
        lemma_push_added(r0, r1, p as int, up, p, px as int, c as int, p as int);
        lemma_push_added(r2, r3, c as int, corner, p, px as int, c as int, p as int);
        lemma_added_flat(r3, r4, p, px as int, c as int, p as int);
        lemma_push_added(r4, rows@, c as int, last, p, px as int, c as int, p as int);
        lemma_added_trans(r0, r1, r2, p, px as int, c as int, p as int);
        lemma_added_trans(r0, r2, r3, p, px as int, c as int, p as int);
        lemma_added_trans(r0, r3, r4, p, px as int, c as int, p as int);
        lemma_added_trans(r0, r4, rows@, p, px as int, c as int, p as int);
        assert forall|y: int| c < y < p implies #[trigger] has_line(rows@, y, px as int, p as int) by {
            lemma_has_line_grows(r2, r3, y, px as int, p as int);
            lemma_has_line_grows(r3, r4, y, px as int, p as int);
            lemma_has_line_grows(r4, rows@, y, px as int, p as int);
        }
        lemma_grows_trans(r0, r1, r2);
        lemma_grows_trans(r0, r2, r3);
        lemma_grows_trans(r0, r3, r4);
        lemma_grows_trans(r0, r4, rows@);
        lemma_grows_trans(r3, r4, rows@);
        lemma_grows_trans(r2, r3, rows@);
        lemma_grows_trans(r1, r2, rows@);
        lemma_grows_has(r1, rows@);
        lemma_grows_has(r2, rows@);
        lemma_grows_has(r3, rows@);
        lemma_grows_has(r4, rows@);
        assert forall|y: int, e: Edge| #[trigger] merge_edge(px as int, cx as int, c as int, p as int, y, e) implies row_has(
            rows@,
            y,
            e,
        ) by {
            if y == p && e == up {
            } else if c < y < p && e == mk(EdgeType::Vertical, px as int, px as int) {
                assert(row_has(r2, y, e));
            } else if y == c && e == corner {
                assert(row_has(r3, y, e));
            } else if y == c && is_horizontal(e, lo as int, hi as int, px as int) {
                assert(row_has(r4, y, e));
            } else {
            }
        }
    }
}

fn draw_detour(
    rows: &mut Vec<Vec<LinkEdge>>,
    p: usize,
    k: usize,
    c: usize,
    px: usize,
    cx: usize,
    nx: usize,
    Ghost(parents): Ghost<Seq<Vec<Option<usize>>>>,
    Ghost(xs): Ghost<Seq<usize>>,
    Ghost(lim): Ghost<int>,
)
    requires
        link_ctx(parents, xs, old(rows)@, p as int, k as int, c as int, lim),
        xs[p as int] == px,
        xs[c as int] == cx,
        px != cx,
        !is_first_parent(parents, c, p),
        px < nx <= lim,
        route_of(parents, xs, routes_before(parents, xs, p as int, k as int), p as int, k as int) == (true, nx as int),
    ensures
        grows(old(rows)@, final(rows)@),
        all_explained(parents, xs, final(rows)@),
        all_bounded(final(rows)@, lim),
        added_lines(old(rows)@, final(rows)@, p, nx as int, c as int, p as int),
        forall|y: int| c < y < p ==> #[trigger] has_line(final(rows)@, y, nx as int, p as int),
        detour_drawn(px as int, cx as int, nx as int, c as int, p as int, rows_has(final(rows)@)),
{
    let ghost r0 = rows@;
    let right = Edge::new(EdgeType::Right, px, px);
    assert(detour_edge(px as int, cx as int, nx as int, c as int, p as int, p as int, right));
    assert(link_edge(parents, xs, p as int, k as int, p as int, right));
    push_edge(rows, p, right, p, Ghost(parents), Ghost(xs), Ghost(lim));
    let ghost r1 = rows@;
    assert forall|e: Edge| #[trigger] is_horizontal(e, px as int, nx as int, px as int) implies explained(
        parents,
        xs,
        p as int,
        e,
    ) by {
        assert(detour_edge(px as int, cx as int, nx as int, c as int, p as int, p as int, e));
        assert(link_edge(parents, xs, p as int, k as int, p as int, e));
    }
    push_horizontal_run(rows, p, px, nx, px, p, Ghost(parents), Ghost(xs), Ghost(lim));
    let ghost r2 = rows@;
    let rb = Edge::new(EdgeType::RightBottom, nx, px);
    assert(detour_edge(px as int, cx as int, nx as int, c as int, p as int, p as int, rb));
    assert(link_edge(parents, xs, p as int, k as int, p as int, rb));
    push_edge(rows, p, rb, p, Ghost(parents), Ghost(xs), Ghost(lim));
    let ghost r3 = rows@;
    assert forall|y: int| c < y < p implies explained(parents, xs, y, #[trigger] mk(EdgeType::Vertical, nx as int, px as int)) by {
        assert(detour_edge(px as int, cx as int, nx as int, c as int, p as int, y, mk(EdgeType::Vertical, nx as int, px as int)));
        assert(link_edge(parents, xs, p as int, k as int, y, mk(EdgeType::Vertical, nx as int, px as int)));
    }
    push_vertical_run(rows, c, p, nx, px, p, Ghost(parents), Ghost(xs), Ghost(lim));
    let ghost r4 = rows@;
    let rt = Edge::new(EdgeType::RightTop, nx, px);
    assert(detour_edge(px as int, cx as int, nx as int, c as int, p as int, c as int, rt));
    assert(link_edge(parents, xs, p as int, k as int, c as int, rt));
    push_edge(rows, c, rt, p, Ghost(parents), Ghost(xs), Ghost(lim));
    let ghost r5 = rows@;
    assert forall|e: Edge| #[trigger] is_horizontal(e, cx as int, nx as int, px as int) implies explained(
        parents,
        xs,
        c as int,
        e,
    ) by {
        assert(detour_edge(px as int, cx as int, nx as int, c as int, p as int, c as int, e));
        assert(link_edge(parents, xs, p as int, k as int, c as int, e));
    }
    push_horizontal_run(rows, c, cx, nx, px, p, Ghost(parents), Ghost(xs), Ghost(lim));
    let ghost r6 = rows@;
    let last = Edge::new(EdgeType::Right, cx, px);
    assert(detour_edge(px as int, cx as int, nx as int, c as int, p as int, c as int, last));
    assert(link_edge(parents, xs, p as int, k as int, c as int, last));
    push_edge(rows, c, last, p, Ghost(parents), Ghost(xs), Ghost(lim));
    proof {
        lemma_push_added(r0, r1, p as int, right, p, nx as int, c as int, p as int);
        lemma_added_flat(r1, r2, p, nx as int, c as int, p as int);
        lemma_push_added(r2, r3, p as int, rb, p, nx as int, c as int, p as int);
        lemma_push_added(r4, r5, c as int, rt, p, nx as int, c as int, p as int);
        lemma_added_flat(r5, r6, p, nx as int, c as int, p as int);
        lemma_push_added(r6, rows@, c as int, last, p, nx as int, c as int, p as int);
        lemma_added_trans(r0, r1, r2, p, nx as int, c as int, p as int);
        lemma_added_trans(r0, r2, r3, p, nx as int, c as int, p as int);
        lemma_added_trans(r0, r3, r4, p, nx as int, c as int, p as int);
        lemma_added_trans(r0, r4, r5, p, nx as int, c as int, p as int);
        lemma_added_trans(r0, r5, r6, p, nx as int, c as int, p as int);
        lemma_added_trans(r0, r6, rows@, p, nx as int, c as int, p as int);
        assert forall|y: int| c < y < p implies #[trigger] has_line(rows@, y, nx as int, p as int) by {
            lemma_has_line_grows(r4, r5, y, nx as int, p as int);
            lemma_has_line_grows(r5, r6, y, nx as int, p as int);
            lemma_has_line_grows(r6, rows@, y, nx as int, p as int);
        }
        lemma_grows_trans(r0, r1, r2);
        lemma_grows_trans(r0, r2, r3);
        lemma_grows_trans(r0, r3, r4);
        lemma_grows_trans(r0, r4, r5);
        lemma_grows_trans(r0, r5, r6);
        lemma_grows_trans(r0, r6, rows@);
        lemma_grows_trans(r5, r6, rows@);
        lemma_grows_trans(r4, r5, rows@);
        lemma_grows_trans(r3, r4, rows@);
        lemma_grows_trans(r2, r3, rows@);
        lemma_grows_trans(r1, r2, rows@);
        lemma_grows_has(r1, rows@);
        lemma_grows_has(r2, rows@);
        lemma_grows_has(r3, rows@);
        lemma_grows_has(r4, rows@);
        lemma_grows_has(r5, rows@);
        lemma_grows_has(r6, rows@);
        assert forall|y: int, e: Edge| #[trigger] detour_edge(px as int, cx as int, nx as int, c as int, p as int, y, e) implies rows_has(
            rows@,
        )(y, e) by {
            if y == p && e == right {
            } else if y == p && is_horizontal(e, px as int, nx as int, px as int) {
                assert(row_has(r2, y, e));
            } else if y == p && e == rb {
                assert(row_has(r3, y, e));
            } else if c < y < p && e == mk(EdgeType::Vertical, nx as int, px as int) {
                assert(row_has(r4, y, e));
            } else if y == c && e == rt {
                assert(row_has(r5, y, e));
            } else if y == c && is_horizontal(e, cx as int, nx as int, px as int) {
                assert(row_has(r6, y, e));
            } else {
            }
        }
    }
}

/// A vertical line on row `row` at column `px` that belongs to another
/// parent than `p`.
spec fn row_blocks(row: Seq<LinkEdge>, p: usize, px: usize) -> bool {
    exists|j: int|
        0 <= j < row.len() && (#[trigger] row[j]).edge.pos_x == px && row[j].edge.edge_type == EdgeType::Vertical
            && row[j].parent != p
}

/// A merge from the parent on row `p` (column `px`) into the child on row
/// `c` meets, on a row between, a commit in its column or another parent's
/// vertical line.
spec fn merge_blocked(rows: Seq<Vec<LinkEdge>>, xs: Seq<usize>, c: int, p: usize, px: usize) -> bool {
    exists|y: int| c < y < p && #[trigger] blocks_at(rows, xs, y, p, px)
}

/// Row `y` has a commit in column `px` or a vertical line there of a parent
/// other than `p`.
spec fn blocks_at(rows: Seq<Vec<LinkEdge>>, xs: Seq<usize>, y: int, p: usize, px: usize) -> bool {
    xs[y] == px || row_blocks(rows[y]@, p, px)
}

/// The detour after passing a foreign vertical line `e`: a line at or right
/// of the detour column pushes it just right of the line.
spec fn edge_step(e: LinkEdge, p: usize, st: (bool, int)) -> (bool, int) {
    if e.edge.pos_x >= st.1 && e.parent != p && e.edge.edge_type == EdgeType::Vertical {
        (true, e.edge.pos_x + 1)
    } else {
        st
    }
}

/// The detour after the first `j` edges of a row.
spec fn row_fold(row: Seq<LinkEdge>, p: usize, j: int, st: (bool, int)) -> (bool, int)
    decreases j,
{
    if j <= 0 {
        st
    } else {
        edge_step(row[j - 1], p, row_fold(row, p, j - 1, st))
    }
}

/// The detour after passing a commit in column `pcx`: a commit in the
/// detour column pushes it one column right.
pub open spec fn commit_step(pcx: usize, st: (bool, int)) -> (bool, int) {
    if pcx == st.1 {
        (true, pcx + 1)
    } else {
        st
    }
}

/// Whether a detour was needed and its column, after the rows strictly
/// between `c` and `y`, starting from `st`.
spec fn detour_fold(rows: Seq<Vec<LinkEdge>>, xs: Seq<usize>, p: usize, c: int, y: int, st: (bool, int)) -> (bool, int)
    decreases y - c,
{
    if y <= c + 1 {
        st
    } else {
        let prev = detour_fold(rows, xs, p, c, y - 1, st);
        row_fold(rows[y - 1]@, p, rows[y - 1]@.len() as int, commit_step(xs[y - 1], prev))
    }
}

/// Whether the merge from the parent on row `p` (column `px`) into the child
/// on row `c` is blocked on some row between.
fn merge_is_blocked(rows: &Vec<Vec<LinkEdge>>, xs: &Vec<usize>, c: usize, p: usize, px: usize) -> (b: bool)
    requires
        rows@.len() == xs@.len(),
        c < xs@.len(),
        p < xs@.len(),
    ensures
        b == merge_blocked(rows@, xs@, c as int, p, px),
{
    let n0 = xs.len();
    assert(c < n0);
    let mut needs_check = false;
    let mut y = c + 1;
    while y < p && !needs_check
        invariant
            c < y <= p || (y == c + 1 && y >= p),
            p < xs@.len(),
            rows@.len() == xs@.len(),
            needs_check ==> merge_blocked(rows@, xs@, c as int, p, px),
            !needs_check ==> forall|z: int| c < z < y ==> !#[trigger] blocks_at(rows@, xs@, z, p, px),
        decreases p - y, (if needs_check { 0int } else { 1int }),
    {
        if xs[y] == px {
            needs_check = true;
            assert(blocks_at(rows@, xs@, y as int, p, px));
        } else {
            let row = &rows[y];
            let mut j: usize = 0;
            let mut found = false;
            while j < row.len() && !found
                invariant
                    j <= row@.len(),
                    y < rows@.len(),
                    c < y < p,
                    rows@.len() == xs@.len(),
                    row == &rows@[y as int],
                    forall|z: int| c < z < y ==> !#[trigger] blocks_at(rows@, xs@, z, p, px),
                    found ==> row_blocks(row@, p, px),
                    !found ==> forall|k: int|
                        0 <= k < j ==> !((#[trigger] row@[k]).edge.pos_x == px && row@[k].edge.edge_type
                            == EdgeType::Vertical && row@[k].parent != p),
                decreases row@.len() - j, (if found { 0int } else { 1int }),
            {
                let e = row[j];
                if e.edge.pos_x == px && e.edge.edge_type == EdgeType::Vertical && e.parent != p {
                    found = true;
                    assert(row@[j as int] == e);
                } else {
                    j += 1;
                }
            }
            if found {
                needs_check = true;
                assert(c < y < p && blocks_at(rows@, xs@, y as int, p, px));
            } else {
                proof {
                    if row_blocks(rows@[y as int]@, p, px) {
                        let k = choose|k: int|
                            0 <= k < row@.len() && (#[trigger] row@[k]).edge.pos_x == px && row@[k].edge.edge_type
                                == EdgeType::Vertical && row@[k].parent != p;
                        assert(false);
                    }
                    assert(!blocks_at(rows@, xs@, y as int, p, px));
                }
                y += 1;
            }
        }
    }
    proof {
        if !needs_check && merge_blocked(rows@, xs@, c as int, p, px) {
            let z = choose|z: int| c < z < p && #[trigger] blocks_at(rows@, xs@, z, p, px);
            assert(c < z < y);
        }
    }
    needs_check
}

/// The rightmost column, at or right of `s`, of the foreign vertical lines
/// among the first `j` entries of a row.
spec fn line_max(row: Seq<LinkEdge>, p: usize, j: int, s: int) -> Option<int>
    decreases j,
{
    if j <= 0 {
        None
    } else {
        let prev = line_max(row, p, j - 1, s);
        let e = row[j - 1];
        if e.parent != p && e.edge.edge_type == EdgeType::Vertical && e.edge.pos_x >= s {
            match prev {
                Some(m) => Some(if m < e.edge.pos_x { e.edge.pos_x as int } else { m }),
                None => Some(e.edge.pos_x as int),
            }
        } else {
            prev
        }
    }
}

spec fn foreign_entry(e: LinkEdge, p: usize, s: int) -> bool {
    e.parent != p && e.edge.edge_type == EdgeType::Vertical && e.edge.pos_x >= s
}

proof fn lemma_line_max(row: Seq<LinkEdge>, p: usize, j: int, st: (bool, int))
    requires
        0 <= j <= row.len(),
    ensures
        row_fold(row, p, j, st) == match line_max(row, p, j, st.1) {
            Some(m) => (true, m + 1),
            None => st,
        },
        line_max(row, p, j, st.1) matches Some(m) ==> (exists|i: int|
            0 <= i < j && #[trigger] foreign_entry(row[i], p, st.1) && row[i].edge.pos_x == m) && (forall|i: int|
            0 <= i < j && #[trigger] foreign_entry(row[i], p, st.1) ==> row[i].edge.pos_x <= m),
        line_max(row, p, j, st.1) is None ==> forall|i: int| 0 <= i < j ==> !#[trigger] foreign_entry(row[i], p, st.1),
    decreases j,
{
    if j > 0 {
        lemma_line_max(row, p, j - 1, st);
        let e = row[j - 1];
        if foreign_entry(e, p, st.1) {
            assert(foreign_entry(row[j - 1], p, st.1));
        }
        match line_max(row, p, j - 1, st.1) {
            Some(m) => {
                let i0 = choose|i: int| 0 <= i < j - 1 && #[trigger] foreign_entry(row[i], p, st.1) && row[i].edge.pos_x == m;
                assert(foreign_entry(row[i0], p, st.1));
            },
            None => {},
        }
    }
}

/// The foreign vertical lines a row holds are those the drawn links put there.
proof fn lemma_row_step(
    parents: Seq<Vec<Option<usize>>>,
    xs: Seq<usize>,
    t: Routes,
    rows: Seq<Vec<LinkEdge>>,
    p: usize,
    y: int,
    st: (bool, int),
)
    requires
        0 <= y < rows.len(),
        lines_known(parents, xs, t, rows),
        lines_present(parents, xs, t, rows),
    ensures
        row_fold(rows[y]@, p, rows[y]@.len() as int, st) == line_step(parents, xs, t, p as int, y, st),
{
    let row = rows[y]@;
    let n = row.len() as int;
    lemma_line_max(row, p, n, st);
    // Every foreign line of the row stands as a foreign entry.
    assert forall|x: int| #[trigger] foreign_line(parents, xs, t, p as int, y, x) && x >= st.1 implies exists|i: int|
        0 <= i < n && #[trigger] foreign_entry(row[i], p, st.1) && row[i].edge.pos_x == x by {
        let q = choose|q: int| q != p && #[trigger] line_of(parents, xs, t, q, y, x);
        let kk = choose|kk: int|
            #[trigger] link_done(parents, xs, t, q, kk) && children_of(parents, q as usize)[kk] < y < q && line_column(
                parents,
                xs,
                t,
                q,
                kk,
            ) == x;
        assert(crosses(parents, xs, t, q, kk, y));
        assert(has_line(rows, y, x, q));
        let i = choose|i: int|
            0 <= i < rows[y]@.len() && (#[trigger] rows[y]@[i]).edge.edge_type == EdgeType::Vertical
                && rows[y]@[i].edge.pos_x == x && rows[y]@[i].parent == q;
        assert(foreign_entry(row[i], p, st.1));
    }
    match line_max(row, p, n, st.1) {
        Some(m) => {
            let i0 = choose|i: int| 0 <= i < n && #[trigger] foreign_entry(row[i], p, st.1) && row[i].edge.pos_x == m;
            assert(row[i0] == rows[y]@[i0]);
            assert(line_of(parents, xs, t, row[i0].parent as int, y, m));
            assert(foreign_line(parents, xs, t, p as int, y, m));
            assert forall|x: int| #[trigger] foreign_line(parents, xs, t, p as int, y, x) && x >= st.1 implies x <= m by {
                let i = choose|i: int| 0 <= i < n && #[trigger] foreign_entry(row[i], p, st.1) && row[i].edge.pos_x == x;
            }
            let mm = choose|mm: int|
                #[trigger] foreign_line(parents, xs, t, p as int, y, mm) && mm >= st.1 && forall|x: int|
                    #[trigger] foreign_line(parents, xs, t, p as int, y, x) && x >= st.1 ==> x <= mm;
            assert(m <= mm);
            assert(mm <= m);
        },
        None => {
            assert forall|x: int| #[trigger] foreign_line(parents, xs, t, p as int, y, x) implies x < st.1 by {
                if x >= st.1 {
                    let i = choose|i: int| 0 <= i < n && #[trigger] foreign_entry(row[i], p, st.1) && row[i].edge.pos_x == x;
                }
            }
        },
    }
}

proof fn lemma_route_fold(
    parents: Seq<Vec<Option<usize>>>,
    xs: Seq<usize>,
    t: Routes,
    rows: Seq<Vec<LinkEdge>>,
    p: usize,
    c: int,
    y: int,
    st: (bool, int),
)
    requires
        y <= rows.len(),
        0 <= c,
        lines_known(parents, xs, t, rows),
        lines_present(parents, xs, t, rows),
    ensures
        detour_fold(rows, xs, p, c, y, st) == route_fold(parents, xs, t, p as int, c, y, st),
    decreases y - c,
{
    if y > c + 1 {
        lemma_route_fold(parents, xs, t, rows, p, c, y - 1, st);
        let prev = detour_fold(rows, xs, p, c, y - 1, st);
        lemma_row_step(parents, xs, t, rows, p, y - 1, commit_step(xs[y - 1], prev));
    }
}

proof fn lemma_route_blocked(
    parents: Seq<Vec<Option<usize>>>,
    xs: Seq<usize>,
    t: Routes,
    rows: Seq<Vec<LinkEdge>>,
    p: usize,
    c: int,
)
    requires
        p < rows.len(),
        rows.len() == xs.len(),
        0 <= c,
        lines_known(parents, xs, t, rows),
        lines_present(parents, xs, t, rows),
    ensures
        merge_blocked(rows, xs, c, p, xs[p as int]) == route_blocked(parents, xs, t, p as int, c),
{
    let px = xs[p as int];
    assert forall|y: int| c < y < p implies #[trigger] blocks_at(rows, xs, y, p, px) == route_blocked_at(
        parents,
        xs,
        t,
        p as int,
        y,
    ) by {
        let row = rows[y]@;
        if row_blocks(row, p, px) {
            let j = choose|j: int|
                0 <= j < row.len() && (#[trigger] row[j]).edge.pos_x == px && row[j].edge.edge_type == EdgeType::Vertical
                    && row[j].parent != p;
            assert(rows[y]@[j] == row[j]);
            assert(line_of(parents, xs, t, row[j].parent as int, y, px as int));
            assert(foreign_line(parents, xs, t, p as int, y, px as int));
        }
        if foreign_line(parents, xs, t, p as int, y, px as int) {
            let q = choose|q: int| q != p && #[trigger] line_of(parents, xs, t, q, y, px as int);
            let kk = choose|kk: int|
                #[trigger] link_done(parents, xs, t, q, kk) && children_of(parents, q as usize)[kk] < y < q
                    && line_column(parents, xs, t, q, kk) == px;
            assert(crosses(parents, xs, t, q, kk, y));
            assert(has_line(rows, y, px as int, q));
            let i = choose|i: int|
                0 <= i < rows[y]@.len() && (#[trigger] rows[y]@[i]).edge.edge_type == EdgeType::Vertical
                    && rows[y]@[i].edge.pos_x == px && rows[y]@[i].parent == q;
            assert(row[i].edge.pos_x == px);
        }
    }
    if merge_blocked(rows, xs, c, p, px) {
        let y = choose|y: int| c < y < p && #[trigger] blocks_at(rows, xs, y, p, px);
        assert(route_blocked_at(parents, xs, t, p as int, y));
    }
    if route_blocked(parents, xs, t, p as int, c) {
        let y = choose|y: int| c < y < p && #[trigger] route_blocked_at(parents, xs, t, p as int, y);
        assert(blocks_at(rows, xs, y, p, px));
    }
}

/// Decides whether a merge from the parent on row `p` (column `px`) into the
/// child on row `c` must detour, and through which column: the merge detours
/// when a commit or another parent's vertical line stands in its way on the
/// rows between, and then moves right of every commit and foreign vertical line
/// it would cross.
fn detour_column(
    rows: &Vec<Vec<LinkEdge>>,
    xs: &Vec<usize>,
    c: usize,
    p: usize,
    px: usize,
    Ghost(lim): Ghost<int>,
) -> (r: (bool, usize))
    requires
        rows@.len() == xs@.len(),
        c < xs@.len(),
        p < xs@.len(),
        px <= lim,
        lim < usize::MAX,
        forall|i: int| 0 <= i < xs@.len() ==> xs@[i] <= lim,
        all_bounded(rows@, lim),
    ensures
        r.0 ==> px < r.1 <= lim + 1,
        merge_blocked(rows@, xs@, c as int, p, px) ==> (r.0, r.1 as int) == detour_fold(
            rows@,
            xs@,
            p,
            c as int,
            p as int,
            (false, px as int),
        ),
        !merge_blocked(rows@, xs@, c as int, p, px) ==> r == (false, px),
{
    let needs_check = merge_is_blocked(rows, xs, c, p, px);
    let mut overlap = false;
    let mut nx = px;
    if needs_check {
        let n = xs.len();
        assert(c < n);
        let mut y = c + 1;
        while y < p
            invariant
                c < y <= p || (y == c + 1 && y >= p),
                p < xs@.len(),
                rows@.len() == xs@.len(),
                px <= nx <= lim + 1,
                lim < usize::MAX,
                forall|i: int| 0 <= i < xs@.len() ==> xs@[i] <= lim,
                all_bounded(rows@, lim),
                overlap ==> px < nx,
                (overlap, nx as int) == detour_fold(rows@, xs@, p, c as int, y as int, (false, px as int)),
            decreases p - y,
        {
            let ghost before = detour_fold(rows@, xs@, p, c as int, y as int, (false, px as int));
            let pcx = xs[y];
            if pcx == nx {
                overlap = true;
                if nx < pcx + 1 {
                    nx = pcx + 1;
                }
            }
            let ghost start = commit_step(xs@[y as int], before);
            assert((overlap, nx as int) == start);
            let row = &rows[y];
            let mut j: usize = 0;
            while j < row.len()
                invariant
                    j <= row@.len(),
                    y < rows@.len(),
                    row == &rows@[y as int],
                    px <= nx <= lim + 1,
                    lim < usize::MAX,
                    all_bounded(rows@, lim),
                    overlap ==> px < nx,
                    (overlap, nx as int) == row_fold(row@, p, j as int, start),
                decreases row@.len() - j,
            {
                let e = row[j];
                assert(rows@[y as int]@[j as int] == e);
                if e.edge.pos_x >= nx && e.parent != p && e.edge.edge_type == EdgeType::Vertical {
                    overlap = true;
                    if nx < e.edge.pos_x + 1 {
                        nx = e.edge.pos_x + 1;
                    }
                }
                j += 1;
            }
            y += 1;
        }
    }
    (overlap, nx)
}

proof fn lemma_max_column(xs: Seq<usize>, n: int)
    requires
        0 <= n <= xs.len(),
    ensures
        forall|i: int| 0 <= i < n ==> xs[i] <= max_column(xs, n),
        n > 0 ==> exists|i: int| 0 <= i < n && xs[i] == max_column(xs, n),
        n == 0 ==> max_column(xs, n) == 0,
        max_column(xs, n) >= 0,
    decreases n,
{
    if n > 0 {
        lemma_max_column(xs, n - 1);
        if n > 1 && max_column(xs, n - 1) >= xs[n - 1] {
            let i = choose|i: int| 0 <= i < n - 1 && xs[i] == max_column(xs, n - 1);
            assert(xs[i] == max_column(xs, n));
        } else {
            assert(xs[n - 1] == max_column(xs, n));
        }
    }
}

/// First pass: draws every straight link and every branch link.
fn first_pass(
    parents: &Vec<Vec<Option<usize>>>,
    children: &Vec<Vec<usize>>,
    xs: &Vec<usize>,
) -> (r: (Vec<Vec<LinkEdge>>, usize))
    requires
        parents_well_formed(parents@),
        children@.len() == parents@.len(),
        forall|p: int| 0 <= p < parents@.len() ==> #[trigger] children@[p]@ == children_of(parents@, p as usize),
        forall|p: int, j: int|
            0 <= p < parents@.len() && 0 <= j < children@[p]@.len() ==> #[trigger] children@[p]@[j] < parents@.len(),
        xs@.len() == parents@.len(),
        forall|i: int| 0 <= i < xs@.len() ==> (#[trigger] xs@[i]) < xs@.len(),
    ensures
        r.0@.len() == parents@.len(),
        r.1 == max_column(xs@, parents@.len() as int),
        all_explained(parents@, xs@, r.0@),
        all_bounded(r.0@, r.1 as int),
        forall|q: int, kk: int|
            0 <= q < parents@.len() && 0 <= kk < children_of(parents@, q as usize).len() && !is_merge(
                parents@,
                xs@,
                q,
                kk,
            ) ==> #[trigger] link_drawn(parents@, xs@, r.1 as int, rows_has(r.0@), q, kk),
        lines_known(parents@, xs@, Map::empty(), r.0@),
        lines_present(parents@, xs@, Map::empty(), r.0@),
{
    let n = parents.len();
    let ghost m = max_column(xs@, n as int);
    proof {
        lemma_max_column(xs@, n as int);
    }
    let mut rows: Vec<Vec<LinkEdge>> = Vec::new();
    let mut i: usize = 0;
    while i < n
        invariant
            i <= n,
            rows@.len() == i,
            forall|y: int| 0 <= y < i ==> (#[trigger] rows@[y])@.len() == 0,
        decreases n - i,
    {
        rows.push(Vec::new());
        i += 1;
    }
    let mut max_pos_x: usize = 0;
    let mut p: usize = 0;
    while p < n
        invariant
            p <= n,
            n == parents@.len(),
            parents_well_formed(parents@),
            children@.len() == n,
            forall|q: int| 0 <= q < n ==> #[trigger] children@[q]@ == children_of(parents@, q as usize),
            forall|q: int, j: int| 0 <= q < n && 0 <= j < children@[q]@.len() ==> #[trigger] children@[q]@[j] < n,
            xs@.len() == n,
            forall|i: int| 0 <= i < n ==> (#[trigger] xs@[i]) <= m,
            m == max_column(xs@, n as int),
            max_pos_x == max_column(xs@, p as int),
            rows@.len() == n,
            all_explained(parents@, xs@, rows@),
            all_bounded(rows@, m),
            forall|q: int, kk: int|
                0 <= q < n && 0 <= kk < children_of(parents@, q as usize).len() && q < p && !is_merge(
                    parents@,
                    xs@,
                    q,
                    kk,
                ) ==> #[trigger] link_drawn(parents@, xs@, m, rows_has(rows@), q, kk),
            lines_known(parents@, xs@, Map::empty(), rows@),
            lines_present_upto(parents@, xs@, Map::empty(), rows@, p as int, 0),
        decreases n - p,
    {
        let px = xs[p];
        let ch = &children[p];
        let mut k: usize = 0;
        while k < ch.len()
            invariant
                k <= ch@.len(),
                p < n,
                ch@ == children_of(parents@, p as usize),
                n == parents@.len(),
                parents_well_formed(parents@),
                forall|j: int| 0 <= j < ch@.len() ==> #[trigger] ch@[j] < n,
                xs@.len() == n,
                px == xs@[p as int],
                forall|i: int| 0 <= i < n ==> (#[trigger] xs@[i]) <= m,
                rows@.len() == n,
                all_explained(parents@, xs@, rows@),
                all_bounded(rows@, m),
                forall|q: int, kk: int|
                    0 <= q < n && 0 <= kk < children_of(parents@, q as usize).len() && (q < p || (q == p
                        && kk < k)) && !is_merge(parents@, xs@, q, kk) ==> #[trigger] link_drawn(
                        parents@,
                        xs@,
                        m,
                        rows_has(rows@),
                        q,
                        kk,
                    ),
                lines_known(parents@, xs@, Map::empty(), rows@),
                lines_present_upto(parents@, xs@, Map::empty(), rows@, p as int, k as int),
            decreases ch@.len() - k,
        {
            let c = ch[k];
            assert(ch@[k as int] < n);
            let cx = xs[c];
            let ghost r0 = rows@;
            let ghost sel = |q: int, kk: int| (q < p || (q == p && kk < k)) && !is_merge(parents@, xs@, q, kk);
            let ghost e0 = Map::<(int, int), (bool, int)>::empty();
            if px == cx {
                draw_straight(&mut rows, p, k, c, px, Ghost(parents@), Ghost(xs@), Ghost(m));
                proof {
                    lemma_all_drawn_grow(parents@, xs@, m, m, r0, rows@, sel);
                    lemma_lines_step(parents@, xs@, e0, r0, rows@, p, k as int);
                    lemma_present_step(parents@, xs@, e0, r0, rows@, p as int, k as int);
                }
            } else if parents[c].len() > 0 && parents[c][0] == Some(p) {
                draw_branch(&mut rows, p, k, c, px, cx, Ghost(parents@), Ghost(xs@), Ghost(m));
                proof {
                    lemma_all_drawn_grow(parents@, xs@, m, m, r0, rows@, sel);
                    lemma_lines_step(parents@, xs@, e0, r0, rows@, p, k as int);
                    lemma_present_step(parents@, xs@, e0, r0, rows@, p as int, k as int);
                }
            } else {
                assert(is_merge(parents@, xs@, p as int, k as int));
                proof {
                    lemma_present_step(parents@, xs@, e0, r0, rows@, p as int, k as int);
                }
            }
            k += 1;
        }
        if max_pos_x < px {
            max_pos_x = px;
        }
        proof {
            assert forall|q: int, kk: int, y: int|
                #[trigger] crosses(parents@, xs@, Map::empty(), q, kk, y) && (q < p + 1 || (q == p + 1 && kk < 0))
                    implies has_line(rows@, y, line_column(parents@, xs@, Map::empty(), q, kk), q) by {
                assert(crosses(parents@, xs@, Map::empty(), q, kk, y) && (q < p || (q == p && kk < k)));
            }
        }
        p += 1;
    }
    proof {
        assert forall|q: int, kk: int, y: int| #[trigger] crosses(parents@, xs@, Map::empty(), q, kk, y) implies has_line(
            rows@,
            y,
            line_column(parents@, xs@, Map::empty(), q, kk),
            q,
        ) by {
            assert(crosses(parents@, xs@, Map::empty(), q, kk, y) && (q < p || (q == p && kk < 0)));
        }
        assert forall|q: int, kk: int|
            0 <= q < n && 0 <= kk < children_of(parents@, q as usize).len() && !is_merge(parents@, xs@, q, kk)
                implies #[trigger] link_drawn(parents@, xs@, max_pos_x as int, rows_has(rows@), q, kk) by {
            assert(link_drawn(parents@, xs@, m, rows_has(rows@), q, kk));
        }
    }
    (rows, max_pos_x)
}


proof fn lemma_bounded_mono(rows: Seq<Vec<LinkEdge>>, a: int, b: int)
    requires
        a <= b,
        all_bounded(rows, a),
    ensures
        all_bounded(rows, b),
{
}

proof fn lemma_tight_grows(a: Seq<Vec<LinkEdge>>, b: Seq<Vec<LinkEdge>>, x: int)
    requires
        grows(a, b),
        exists|y: int, j: int| 0 <= y < a.len() && 0 <= j < a[y]@.len() && (#[trigger] a[y]@[j]).edge.pos_x == x,
    ensures
        exists|y: int, j: int| 0 <= y < b.len() && 0 <= j < b[y]@.len() && (#[trigger] b[y]@[j]).edge.pos_x == x,
{
    let (y, j) = choose|y: int, j: int| 0 <= y < a.len() && 0 <= j < a[y]@.len() && (#[trigger] a[y]@[j]).edge.pos_x == x;
    assert(a[y]@.len() <= b[y]@.len());
    assert(b[y]@[j] == a[y]@[j]);
}

/// Second pass: draws every merge link, detouring where lines would cross.
fn second_pass(
    parents: &Vec<Vec<Option<usize>>>,
    children: &Vec<Vec<usize>>,
    xs: &Vec<usize>,
    rows: &mut Vec<Vec<LinkEdge>>,
    max_in: usize,
) -> (max_x: usize)
    requires
        parents_well_formed(parents@),
        parents@.len() + link_count(parents@, parents@.len() as int) < usize::MAX,
        children@.len() == parents@.len(),
        forall|p: int| 0 <= p < parents@.len() ==> #[trigger] children@[p]@ == children_of(parents@, p as usize),
        forall|p: int, j: int|
            0 <= p < parents@.len() && 0 <= j < children@[p]@.len() ==> #[trigger] children@[p]@[j] < parents@.len(),
        child_count(children@, parents@.len() as int) <= link_count(parents@, parents@.len() as int),
        xs@.len() == parents@.len(),
        forall|i: int| 0 <= i < xs@.len() ==> (#[trigger] xs@[i]) < xs@.len(),
        old(rows)@.len() == parents@.len(),
        max_in == max_column(xs@, parents@.len() as int),
        all_explained(parents@, xs@, old(rows)@),
        all_bounded(old(rows)@, max_in as int),
        forall|q: int, kk: int|
            0 <= q < parents@.len() && 0 <= kk < children_of(parents@, q as usize).len() && !is_merge(
                parents@,
                xs@,
                q,
                kk,
            ) ==> #[trigger] link_drawn(parents@, xs@, max_in as int, rows_has(old(rows)@), q, kk),
        lines_known(parents@, xs@, Map::empty(), old(rows)@),
        lines_present(parents@, xs@, Map::empty(), old(rows)@),
    ensures
        final(rows)@.len() == parents@.len(),
        max_x >= max_in,
        max_x == max_in || exists|y: int, j: int|
            0 <= y < final(rows)@.len() && 0 <= j < final(rows)@[y]@.len() && (#[trigger] final(rows)@[y]@[j]).edge.pos_x
                == max_x,
        all_explained(parents@, xs@, final(rows)@),
        all_bounded(final(rows)@, max_x as int),
        forall|q: int, kk: int|
            0 <= q < parents@.len() && 0 <= kk < children_of(parents@, q as usize).len() ==> #[trigger] link_drawn(
                parents@,
                xs@,
                max_x as int,
                rows_has(final(rows)@),
                q,
                kk,
            ),
        forall|q: int, kk: int|
            0 <= q < parents@.len() && 0 <= kk < children_of(parents@, q as usize).len() && is_merge(parents@, xs@, q, kk)
                ==> #[trigger] routed(parents@, xs@, rows_has(final(rows)@), q, kk),
{
    let n = parents.len();
    let ghost m = max_in as int;
    proof {
        lemma_max_column(xs@, n as int);
        lemma_child_count_mono(children@, 0, n as int);
    }
    let mut max_pos_x = max_in;
    let mut p: usize = 0;
    while p < n
        invariant
            p <= n,
            n == parents@.len(),
            n + link_count(parents@, n as int) < usize::MAX,
            parents_well_formed(parents@),
            children@.len() == n,
            forall|q: int| 0 <= q < n ==> #[trigger] children@[q]@ == children_of(parents@, q as usize),
            forall|q: int, j: int| 0 <= q < n && 0 <= j < children@[q]@.len() ==> #[trigger] children@[q]@[j] < n,
            child_count(children@, n as int) <= link_count(parents@, n as int),
            xs@.len() == n,
            forall|i: int| 0 <= i < n ==> (#[trigger] xs@[i]) <= m,
            m < n || n == 0,
            m == max_in,
            m <= max_pos_x <= m + child_count(children@, p as int),
            max_pos_x == m || exists|y: int, j: int|
                0 <= y < rows@.len() && 0 <= j < rows@[y]@.len() && (#[trigger] rows@[y]@[j]).edge.pos_x == max_pos_x,
            rows@.len() == n,
            all_explained(parents@, xs@, rows@),
            all_bounded(rows@, max_pos_x as int),
            forall|q: int, kk: int|
                0 <= q < n && 0 <= kk < children_of(parents@, q as usize).len() && (q < p || !is_merge(
                    parents@,
                    xs@,
                    q,
                    kk,
                )) ==> #[trigger] link_drawn(parents@, xs@, max_pos_x as int, rows_has(rows@), q, kk),
            lines_known(parents@, xs@, routes_before(parents@, xs@, p as int, 0), rows@),
            lines_present(parents@, xs@, routes_before(parents@, xs@, p as int, 0), rows@),
            forall|q: int, kk: int|
                0 <= q < n && 0 <= kk < children_of(parents@, q as usize).len() && is_merge(parents@, xs@, q, kk) && q < p
                    ==> #[trigger] routed(parents@, xs@, rows_has(rows@), q, kk),
        decreases n - p,
    {
        proof {
            lemma_child_count_mono(children@, p + 1, n as int);
            assert(child_count(children@, p + 1) == child_count(children@, p as int) + children@[p as int]@.len());
        }
        let px = xs[p];
        let ch = &children[p];
        let mut k: usize = 0;
        while k < ch.len()
            invariant
                k <= ch@.len(),
                p < n,
                ch@ == children_of(parents@, p as usize),
                ch == &children@[p as int],
                n == parents@.len(),
                n + link_count(parents@, n as int) < usize::MAX,
                parents_well_formed(parents@),
                forall|j: int| 0 <= j < ch@.len() ==> #[trigger] ch@[j] < n,
                child_count(children@, p as int) + ch@.len() <= link_count(parents@, n as int),
                xs@.len() == n,
                px == xs@[p as int],
                forall|i: int| 0 <= i < n ==> (#[trigger] xs@[i]) <= m,
                m < n,
                m <= max_pos_x <= m + child_count(children@, p as int) + k,
                max_pos_x == m || exists|y: int, j: int|
                    0 <= y < rows@.len() && 0 <= j < rows@[y]@.len() && (#[trigger] rows@[y]@[j]).edge.pos_x
                        == max_pos_x,
                rows@.len() == n,
                all_explained(parents@, xs@, rows@),
                all_bounded(rows@, max_pos_x as int),
                forall|q: int, kk: int|
                    0 <= q < n && 0 <= kk < children_of(parents@, q as usize).len() && (q < p || (q == p
                        && kk < k) || !is_merge(parents@, xs@, q, kk)) ==> #[trigger] link_drawn(
                        parents@,
                        xs@,
                        max_pos_x as int,
                        rows_has(rows@),
                        q,
                        kk,
                    ),
                lines_known(parents@, xs@, routes_before(parents@, xs@, p as int, k as int), rows@),
                lines_present(parents@, xs@, routes_before(parents@, xs@, p as int, k as int), rows@),
                forall|q: int, kk: int|
                    0 <= q < n && 0 <= kk < children_of(parents@, q as usize).len() && is_merge(parents@, xs@, q, kk) && (q
                        < p || (q == p && kk < k)) ==> #[trigger] routed(parents@, xs@, rows_has(rows@), q, kk),
            decreases ch@.len() - k,
        {
            let c = ch[k];
            assert(ch@[k as int] < n);
            let cx = xs[c];
            let ghost r0 = rows@;
            let ghost m0 = max_pos_x as int;
            let ghost t = routes_before(parents@, xs@, p as int, k as int);
            proof {
                lemma_routes_dom(parents@, xs@, p as int, k as int);
            }
            let ghost sel = |q: int, kk: int| (q < p || (q == p && kk < k) || !is_merge(parents@, xs@, q, kk));
            if px == cx {
                proof {
                    assert(routes_before(parents@, xs@, p as int, k + 1) == t);
                }
            } else if parents[c].len() > 0 && parents[c][0] == Some(p) {
                proof {
                    assert(routes_before(parents@, xs@, p as int, k + 1) == t);
                }
            } else {
                proof {
                    lemma_route_blocked(parents@, xs@, t, rows@, p, c as int);
                    lemma_route_fold(parents@, xs@, t, rows@, p, c as int, p as int, (false, px as int));
                }
                let (overlap, nx) = detour_column(rows, xs, c, p, px, Ghost(max_pos_x as int));
                let ghost route = route_of(parents@, xs@, t, p as int, k as int);
                let ghost t2 = t.insert((p as int, k as int), route);
                assert((overlap, nx as int) == route);
                proof {
                    assert(routes_before(parents@, xs@, p as int, k + 1) == t2);
                    lemma_known_extend(parents@, xs@, t, p as int, k as int, route, r0);
                }
                if overlap {
                    if max_pos_x < nx {
                        max_pos_x = nx;
                    }
                    proof {
                        lemma_bounded_mono(rows@, m0, max_pos_x as int);
                    }
                    draw_detour(rows, p, k, c, px, cx, nx, Ghost(parents@), Ghost(xs@), Ghost(max_pos_x as int));
                    proof {
                        lemma_all_drawn_grow(parents@, xs@, m0, max_pos_x as int, r0, rows@, sel);
                        assert(detour_drawn(px as int, cx as int, nx as int, c as int, p as int, rows_has(rows@)));
                        assert(link_drawn(parents@, xs@, max_pos_x as int, rows_has(rows@), p as int, k as int));
                        if max_pos_x != m0 {
                            let e = mk(EdgeType::RightBottom, nx as int, px as int);
                            assert(detour_edge(px as int, cx as int, nx as int, c as int, p as int, p as int, e));
                            assert(row_has(rows@, p as int, e));
                            let j = choose|j: int| 0 <= j < rows@[p as int]@.len() && (#[trigger] rows@[p as int]@[j]).edge == e;
                            assert(rows@[p as int]@[j].edge.pos_x == max_pos_x);
                        } else if max_pos_x != m {
                            lemma_tight_grows(r0, rows@, max_pos_x as int);
                        }
                    }
                    proof {
                        lemma_lines_step(parents@, xs@, t2, r0, rows@, p, k as int);
                        lemma_present_grows(parents@, xs@, t, r0, rows@);
                        lemma_present_extend(parents@, xs@, t, p as int, k as int, route, rows@);
                        assert(routed(parents@, xs@, rows_has(rows@), p as int, k as int));
                        lemma_grows_has(r0, rows@);
                        assert forall|q: int, kk: int|
                            0 <= q < n && 0 <= kk < children_of(parents@, q as usize).len() && is_merge(parents@, xs@, q, kk)
                                && (q < p || (q == p && kk < k + 1)) implies #[trigger] routed(
                            parents@,
                            xs@,
                            rows_has(rows@),
                            q,
                            kk,
                        ) by {
                            if q != p || kk != k {
                                lemma_routed_mono(parents@, xs@, rows_has(r0), rows_has(rows@), q, kk);
                            }
                        }
                    }
                } else {
                    draw_merge(rows, p, k, c, px, cx, Ghost(parents@), Ghost(xs@), Ghost(max_pos_x as int));
                    proof {
                        lemma_all_drawn_grow(parents@, xs@, m0, m0, r0, rows@, sel);
                        assert(link_drawn(parents@, xs@, max_pos_x as int, rows_has(rows@), p as int, k as int));
                        if max_pos_x != m {
                            lemma_tight_grows(r0, rows@, max_pos_x as int);
                        }
                    }
                    proof {
                        lemma_lines_step(parents@, xs@, t2, r0, rows@, p, k as int);
                        lemma_present_grows(parents@, xs@, t, r0, rows@);
                        lemma_present_extend(parents@, xs@, t, p as int, k as int, route, rows@);
                        assert(routed(parents@, xs@, rows_has(rows@), p as int, k as int));
                        lemma_grows_has(r0, rows@);
                        assert forall|q: int, kk: int|
                            0 <= q < n && 0 <= kk < children_of(parents@, q as usize).len() && is_merge(parents@, xs@, q, kk)
                                && (q < p || (q == p && kk < k + 1)) implies #[trigger] routed(
                            parents@,
                            xs@,
                            rows_has(rows@),
                            q,
                            kk,
                        ) by {
                            if q != p || kk != k {
                                lemma_routed_mono(parents@, xs@, rows_has(r0), rows_has(rows@), q, kk);
                            }
                        }
                    }
                }
            }
            k += 1;
        }
        if max_pos_x < px {
            max_pos_x = px;
        }
        proof {
            assert(routes_before(parents@, xs@, p + 1, 0) == routes_before(parents@, xs@, p as int, k as int));
        }
        p += 1;
    }
    max_pos_x
}


proof fn lemma_edge_order(a: Edge, b: Edge)
    ensures
        !edge_lt(a, a),
        a != b ==> edge_lt(a, b) || edge_lt(b, a),
        !(edge_lt(a, b) && edge_lt(b, a)),
{
    if a != b && a.associated_line_pos_x == b.associated_line_pos_x && a.pos_x == b.pos_x {
        assert(a.edge_type != b.edge_type);
        assert(type_rank(a.edge_type) != type_rank(b.edge_type)) by {
            reveal_with_fuel(type_rank, 1);
        }
    }
}

proof fn lemma_edge_lt_trans(a: Edge, b: Edge, c: Edge)
    requires
        edge_lt(a, b),
        edge_lt(b, c),
    ensures
        edge_lt(a, c),
{
}

/// Sorts a row by line column, column and shape, dropping duplicates.
fn finish_row(row: &Vec<LinkEdge>) -> (out: Vec<Edge>)
    ensures
        strictly_sorted(out@),
        forall|e: Edge| out@.contains(e) <==> exists|j: int| 0 <= j < row@.len() && (#[trigger] row@[j]).edge == e,
{
    let mut out: Vec<Edge> = Vec::new();
    let mut i: usize = 0;
    while i < row.len()
        invariant
            i <= row@.len(),
            strictly_sorted(out@),
            forall|e: Edge| out@.contains(e) <==> exists|j: int| 0 <= j < i && (#[trigger] row@[j]).edge == e,
        decreases row@.len() - i,
    {
        let e = row[i].edge;
        let mut pos: usize = 0;
        while pos < out.len() && edge_less(&out[pos], &e)
            invariant
                pos <= out@.len(),
                forall|t: int| 0 <= t < pos ==> edge_lt(#[trigger] out@[t], e),
            decreases out@.len() - pos,
        {
            pos += 1;
        }
        let ghost old_out = out@;
        if pos < out.len() && out[pos] == e {
            proof {
                assert forall|e2: Edge| out@.contains(e2) <==> exists|j: int| 0 <= j < i + 1 && (#[trigger] row@[j]).edge == e2 by {
                    if e2 == e {
                        assert(row@[i as int].edge == e);
                        assert(out@[pos as int] == e);
                    }
                    if exists|j: int| 0 <= j < i + 1 && (#[trigger] row@[j]).edge == e2 {
                        let j = choose|j: int| 0 <= j < i + 1 && (#[trigger] row@[j]).edge == e2;
                        if j < i {
                        }
                    }
                }
            }
        } else {
            proof {
                if pos < out@.len() {
                    lemma_edge_order(out@[pos as int], e);
                }
            }
            out.insert(pos, e);
            proof {
                assert forall|a: int, b: int| 0 <= a < b < out@.len() implies edge_lt(#[trigger] out@[a], #[trigger] out@[b]) by {
                    if b < pos {
                        assert(out@[a] == old_out[a] && out@[b] == old_out[b]);
                    } else if b == pos {
                        assert(out@[a] == old_out[a]);
                    } else if a == pos {
                        assert(out@[b] == old_out[b - 1]);
                        if b - 1 > pos {
                            lemma_edge_lt_trans(e, old_out[pos as int], old_out[b - 1]);
                        }
                    } else if a < pos {
                        assert(out@[a] == old_out[a] && out@[b] == old_out[b - 1]);
                    } else {
                        assert(out@[a] == old_out[a - 1] && out@[b] == old_out[b - 1]);
                    }
                }
                assert forall|e2: Edge| out@.contains(e2) <==> exists|j: int| 0 <= j < i + 1 && (#[trigger] row@[j]).edge == e2 by {
                    if out@.contains(e2) {
                        let t = choose|t: int| 0 <= t < out@.len() && out@[t] == e2;
                        if t < pos {
                            assert(old_out[t] == e2);
                            assert(old_out.contains(e2));
                        } else if t > pos {
                            assert(old_out[t - 1] == e2);
                            assert(old_out.contains(e2));
                        } else {
                            assert(row@[i as int].edge == e2);
                        }
                    }
                    if exists|j: int| 0 <= j < i + 1 && (#[trigger] row@[j]).edge == e2 {
                        let j = choose|j: int| 0 <= j < i + 1 && (#[trigger] row@[j]).edge == e2;
                        if j < i {
                            assert(old_out.contains(e2));
                            let t = choose|t: int| 0 <= t < old_out.len() && old_out[t] == e2;
                            if t < pos {
                                assert(out@[t] == e2);
                            } else {
                                assert(out@[t + 1] == e2);
                            }
                        } else {
                            assert(out@[pos as int] == e2);
                        }
                    }
                }
            }
        }
        i += 1;
    }
    out
}


/// The laid-out commit graph: the column of each commit (its row is its
/// index), the edges drawn on each row, and the rightmost column in use.
pub struct Graph {
    pub columns: Vec<usize>,
    pub edges: Vec<Vec<Edge>>,
    pub max_pos_x: usize,
}

/// Computes the edges of every row from the commit columns: straight lines for
/// commits that continue their parent's column, corners for branches, and
/// merge lines that detour to the right where they would cross other lines.
pub fn calc_edges(
    parents: &Vec<Vec<Option<usize>>>,
    children: &Vec<Vec<usize>>,
    xs: &Vec<usize>,
) -> (r: (Vec<Vec<Edge>>, usize))
    requires
        parents_well_formed(parents@),
        parents@.len() + link_count(parents@, parents@.len() as int) < usize::MAX,
        children@.len() == parents@.len(),
        forall|p: int| 0 <= p < parents@.len() ==> #[trigger] children@[p]@ == children_of(parents@, p as usize),
        forall|p: int, j: int|
            0 <= p < parents@.len() && 0 <= j < children@[p]@.len() ==> #[trigger] children@[p]@[j] < parents@.len(),
        child_count(children@, parents@.len() as int) <= link_count(parents@, parents@.len() as int),
        xs@.len() == parents@.len(),
        forall|i: int| 0 <= i < xs@.len() ==> (#[trigger] xs@[i]) < xs@.len(),
    ensures
        edges_spec(parents@, xs@, r.0@, r.1 as int),
{
    let n = parents.len();
    let (mut rows, max0) = first_pass(parents, children, xs);
    let max_pos_x = second_pass(parents, children, xs, &mut rows, max0);
    let mut edges: Vec<Vec<Edge>> = Vec::new();
    let mut y: usize = 0;
    while y < n
        invariant
            y <= n,
            rows@.len() == n,
            edges@.len() == y,
            forall|z: int| 0 <= z < y ==> strictly_sorted(#[trigger] edges@[z]@),
            forall|z: int, e: Edge| 0 <= z < y ==> (#[trigger] edges@[z]@.contains(e) <==> row_has(rows@, z, e)),
        decreases n - y,
    {
        let out = finish_row(&rows[y]);
        edges.push(out);
        proof {
            assert forall|z: int, e: Edge| 0 <= z < y + 1 implies (#[trigger] edges@[z]@.contains(e) <==> row_has(rows@, z, e)) by {
                if z == y {
                    if row_has(rows@, z, e) {
                        let j = choose|j: int| 0 <= j < rows@[z]@.len() && (#[trigger] rows@[z]@[j]).edge == e;
                    }
                }
            }
        }
        y += 1;
    }
    proof {
        lemma_max_column(xs@, n as int);
        let has_e = edges_has(edges@);
        let has_r = rows_has(rows@);
        assert forall|yy: int, e: Edge| #[trigger] has_r(yy, e) implies has_e(yy, e) by {
            assert(edges@[yy]@.contains(e));
        }
        assert forall|p: int, k: int|
            0 <= p < n && 0 <= k < children_of(parents@, p as usize).len() implies #[trigger] link_drawn(
            parents@,
            xs@,
            max_pos_x as int,
            edges_has(edges@),
            p,
            k,
        ) by {
            lemma_drawn_mono(parents@, xs@, max_pos_x as int, max_pos_x as int, has_r, has_e, p, k);
        }
        assert forall|p: int, k: int|
            0 <= p < n && 0 <= k < children_of(parents@, p as usize).len() && is_merge(parents@, xs@, p, k) implies #[trigger] routed(
            parents@,
            xs@,
            edges_has(edges@),
            p,
            k,
        ) by {
            lemma_routed_mono(parents@, xs@, has_r, has_e, p, k);
        }
        assert forall|yy: int, j: int| 0 <= yy < n && 0 <= j < edges@[yy]@.len() implies (#[trigger] edges@[yy]@[j]).pos_x
            <= max_pos_x && edges@[yy]@[j].associated_line_pos_x <= max_pos_x && explained(
            parents@,
            xs@,
            yy,
            edges@[yy]@[j],
        ) by {
            assert(edges@[yy]@.contains(edges@[yy]@[j]));
            assert(row_has(rows@, yy, edges@[yy]@[j]));
            let t = choose|t: int| 0 <= t < rows@[yy]@.len() && (#[trigger] rows@[yy]@[t]).edge == edges@[yy]@[j];
        }
        if n > 0 && max_pos_x != max0 {
            let (yy, t) = choose|yy: int, t: int|
                0 <= yy < rows@.len() && 0 <= t < rows@[yy]@.len() && (#[trigger] rows@[yy]@[t]).edge.pos_x == max_pos_x;
            let e = rows@[yy]@[t].edge;
            assert(row_has(rows@, yy, e));
            assert(edges@[yy]@.contains(e));
            let j = choose|j: int| 0 <= j < edges@[yy]@.len() && edges@[yy]@[j] == e;
            assert(edges@[yy]@[j].pos_x == max_pos_x);
        }
    }
    (edges, max_pos_x)
}

/// Lays out the commit graph for commits listed newest first, where
/// `parents[c]` names the rows of the parents of commit `c` (`None` for a
/// parent that is not listed).
pub fn calc_graph(parents: &Vec<Vec<Option<usize>>>) -> (g: Graph)
    requires
        parents_well_formed(parents@),
        parents@.len() + link_count(parents@, parents@.len() as int) < usize::MAX,
    ensures
        g.columns@ == columns(parents@),
        edges_spec(parents@, g.columns@, g.edges@, g.max_pos_x as int),
{
    let children = build_children(parents);
    let columns = calc_commit_positions(parents, &children);
    let (edges, max_pos_x) = calc_edges(parents, &children, &columns);
    Graph { columns, edges, max_pos_x }
}

} // verus!
