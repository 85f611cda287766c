use vstd::prelude::*;

verus! {

/// Which part of a commit a search query is matched against.
#[derive(Debug, Clone, Copy, PartialEq, Eq, Structural)]
pub enum SearchTarget {
    All,
    Subject,
    Author,
    Ref,
    Hash,
}

pub open spec fn next_target(t: SearchTarget) -> SearchTarget {
    match t {
        SearchTarget::All => SearchTarget::Subject,
        SearchTarget::Subject => SearchTarget::Author,
        SearchTarget::Author => SearchTarget::Ref,
        SearchTarget::Ref => SearchTarget::Hash,
        SearchTarget::Hash => SearchTarget::All,
    }
}

pub open spec fn target_name(t: SearchTarget) -> Seq<char> {
    match t {
        SearchTarget::All => "all"@,
        SearchTarget::Subject => "subject"@,
        SearchTarget::Author => "author"@,
        SearchTarget::Ref => "ref"@,
        SearchTarget::Hash => "hash"@,
    }
}

/// `next` applied `k` times.
pub open spec fn next_target_n(t: SearchTarget, k: nat) -> SearchTarget
    decreases k,
{
    if k == 0 {
        t
    } else {
        next_target(next_target_n(t, (k - 1) as nat))
    }
}

impl Default for SearchTarget {
    fn default() -> (t: SearchTarget)
        ensures
            t == SearchTarget::All,
    {
        SearchTarget::All
    }
}

impl SearchTarget {
    /// The following target, cycling back to `All` after `Hash`.
    pub fn next(self) -> (t: SearchTarget)
        ensures
            t == next_target(self),
    {
        match self {
            SearchTarget::All => SearchTarget::Subject,
            SearchTarget::Subject => SearchTarget::Author,
            SearchTarget::Author => SearchTarget::Ref,
            SearchTarget::Ref => SearchTarget::Hash,
            SearchTarget::Hash => SearchTarget::All,
        }
    }

    /// The lower-case name of the target.
    pub fn as_str(self) -> (s: &'static str)
        ensures
            s@ == target_name(self),
    {
        match self {
            SearchTarget::All => "all",
            SearchTarget::Subject => "subject",
            SearchTarget::Author => "author",
            SearchTarget::Ref => "ref",
            SearchTarget::Hash => "hash",
        }
    }
}

/// Cycling through the targets returns to the start after five steps and
/// meets five different targets on the way, i.e. every target.
pub proof fn lemma_next_target_cycles(t: SearchTarget)
    ensures
        next_target_n(t, 5) == t,
        forall|i: nat, j: nat| i < j < 5 ==> #[trigger] next_target_n(t, i) != #[trigger] next_target_n(t, j),
{
    reveal_with_fuel(next_target_n, 6);
}

/// The options a search runs with.
#[derive(Debug, Clone, Copy, PartialEq, Eq, Structural)]
pub struct SearchOptions {
    pub target: SearchTarget,
    pub ignore_case: bool,
    pub fuzzy: bool,
}

impl Default for SearchOptions {
    fn default() -> (o: SearchOptions)
        ensures
            o == (SearchOptions { target: SearchTarget::All, ignore_case: false, fuzzy: false }),
    {
        SearchOptions { target: SearchTarget::All, ignore_case: false, fuzzy: false }
    }
}

pub open spec fn status_text(o: SearchOptions) -> Seq<char> {
    "["@ + target_name(o.target) + "] ["@ + (if o.ignore_case {
        "ignore-case"@
    } else {
        "case-sensitive"@
    }) + "] ["@ + (if o.fuzzy {
        "fuzzy"@
    } else {
        "substring"@
    }) + "]"@
}

impl SearchOptions {
    /// A summary such as `[author] [ignore-case] [fuzzy]`.
    pub fn status_string(&self) -> (s: String)
        ensures
            s@ == status_text(*self),
    {
        let case = if self.ignore_case {
            "ignore-case"
        } else {
            "case-sensitive"
        };
        let matcher = if self.fuzzy {
            "fuzzy"
        } else {
            "substring"
        };
        let mut s = String::from_str("[");
        s.append(self.target.as_str());
        s.append("] [");
        s.append(case);
        s.append("] [");
        s.append(matcher);
        s.append("]");
        s
    }
}

} // verus!
