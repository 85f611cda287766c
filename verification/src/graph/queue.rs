use vstd::prelude::*;

use crate::git::Commit;

verus! {

broadcast use vstd::seq_lib::group_to_multiset_ensures;

/// `a` was committed no later than `b` (by seconds, then nanoseconds).
pub open spec fn committed_no_later(a: Commit, b: Commit) -> bool {
    a.committer_date.timestamp < b.committer_date.timestamp || (a.committer_date.timestamp
        == b.committer_date.timestamp && a.committer_date.nanos <= b.committer_date.nanos)
}

/// Commits waiting to be visited, taken out oldest committer date first.
pub struct PriorityQueue<'a> {
    items: Vec<&'a Commit>,
}

impl<'a> PriorityQueue<'a> {
    /// The commits in the queue.
    pub closed spec fn contents(&self) -> vstd::multiset::Multiset<&'a Commit> {
        self.items@.to_multiset()
    }

    pub fn new() -> (q: PriorityQueue<'a>)
        ensures
            q.contents() =~= vstd::multiset::Multiset::<&'a Commit>::empty(),
    {
        PriorityQueue { items: Vec::new() }
    }

    /// Adds `c` to the queue.
    pub fn enqueue(&mut self, c: &'a Commit)
        ensures
            final(self).contents() =~= old(self).contents().insert(c),
    {
        self.items.push(c);
    }

    /// Takes out a commit with the oldest committer date (which of several
    /// commits with that date is not said); nothing when the queue is empty.
    pub fn dequeue(&mut self) -> (r: Option<&'a Commit>)
        ensures
            old(self).contents().len() == 0 ==> r is None && final(self).contents() =~= old(self).contents(),
            old(self).contents().len() > 0 ==> (r matches Some(c) && old(self).contents().contains(c) && (forall|d: &'a Commit|
                #[trigger] old(self).contents().contains(d) ==> committed_no_later(*c, *d))
                && final(self).contents() =~= old(self).contents().remove(c)),
    {
        let n = self.items.len();
        if n == 0 {
            return None;
        }
        let mut m: usize = 0;
        let mut i: usize = 1;
        while i < n
            invariant
                n == self.items@.len(),
                m < n,
                1 <= i <= n,
                forall|j: int| 0 <= j < i ==> committed_no_later(*self.items@[m as int], *#[trigger] self.items@[j]),
            decreases n - i,
        {
            let a = self.items[i];
            let b = self.items[m];
            if a.committer_date.timestamp < b.committer_date.timestamp || (a.committer_date.timestamp
                == b.committer_date.timestamp && a.committer_date.nanos < b.committer_date.nanos) {
                m = i;
            }
            i += 1;
        }
        let ghost before = self.items@;
        proof {
            assert forall|d: &'a Commit| #[trigger] before.to_multiset().contains(d) implies committed_no_later(
                *before[m as int],
                *d,
            ) by {
                assert(before.contains(d));
                let j = choose|j: int| 0 <= j < before.len() && before[j] == d;
                assert(committed_no_later(*before[m as int], *before[j]));
            }
        }
        let c = self.items.remove(m);
        proof {
            assert(before.contains(c));
        }
        Some(c)
    }
}

} // verus!
