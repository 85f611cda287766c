use vstd::prelude::*;

use crate::color::TermColor;
use crate::git::{
    ref_lt, ref_name, refs_sorted, sort_refs, Commit, CommitHash, Head, Ref,
};
use crate::text::{chars_of, decimal, decimal_string, find_bytes, is_first_byte_occurrence, str_eq};
use vstd::string::StringExecFns;
use vstd::utf8::encode_utf8;

verus! {

broadcast use vstd::seq_lib::group_to_multiset_ensures;

/// One row of the commit list: the commit, its refs (kept in listing order)
/// and the colour of its graph column.
#[derive(Debug)]
pub struct CommitInfo {
    commit: Commit,
    refs: Vec<Ref>,
    graph_color: TermColor,
}

impl CommitInfo {
    pub closed spec fn commit_spec(&self) -> Commit {
        self.commit
    }

    pub closed spec fn refs_spec(&self) -> Seq<Ref> {
        self.refs@
    }

    pub closed spec fn color_spec(&self) -> TermColor {
        self.graph_color
    }

    pub fn new(commit: Commit, refs: Vec<Ref>, graph_color: TermColor) -> (c: CommitInfo)
        ensures
            c.commit_spec() == commit,
            c.refs_spec() == refs@,
            c.color_spec() == graph_color,
    {
        CommitInfo { commit, refs, graph_color }
    }

    pub fn commit_hash(&self) -> (h: &CommitHash)
        ensures
            *h == self.commit_spec().commit_hash,
    {
        &self.commit.commit_hash
    }

    pub fn commit(&self) -> (c: &Commit)
        ensures
            *c == self.commit_spec(),
    {
        &self.commit
    }

    pub fn refs(&self) -> (r: &Vec<Ref>)
        ensures
            r@ == self.refs_spec(),
    {
        &self.refs
    }

    /// The colour of the commit's graph column.
    pub fn graph_color(&self) -> (c: TermColor)
        ensures
            c == self.color_spec(),
    {
        self.graph_color
    }

    /// Adds a ref and puts the refs back in listing order.
    fn add_ref(&mut self, r: Ref)
        ensures
            final(self).commit_spec() == old(self).commit_spec(),
            refs_sorted(final(self).refs_spec()),
            final(self).refs_spec().to_multiset() == old(self).refs_spec().push(r).to_multiset(),
    {
        self.refs.push(r);
        self.refs = sort_refs(&self.refs);
    }

    /// Drops every ref called `name`.
    fn remove_ref(&mut self, name: &str)
        ensures
            final(self).commit_spec() == old(self).commit_spec(),
            final(self).refs_spec() == old(self).refs_spec().filter(|r: Ref| ref_name(r) != name@),
    {
        let ghost old_refs = self.refs@;
        let mut kept: Vec<Ref> = Vec::new();
        let mut i: usize = 0;
        while i < self.refs.len()
            invariant
                i <= self.refs@.len(),
                self.refs@ == old_refs,
                kept@ == old_refs.take(i as int).filter(|r: Ref| ref_name(r) != name@),
            decreases self.refs@.len() - i,
        {
            proof {
                reveal(Seq::filter);
                assert(old_refs.take(i + 1).drop_last() == old_refs.take(i as int));
            }
            if !str_eq(self.refs[i].name(), name) {
                kept.push(self.refs[i].clone());
            }
            i += 1;
        }
        proof {
            assert(old_refs.take(i as int) == old_refs);
        }
        self.refs = kept;
    }

    /// A copy of the refs.
    pub fn refs_to_vec(&self) -> (r: Vec<Ref>)
        ensures
            r@ == self.refs_spec(),
    {
        let r = self.refs.clone();
        proof {
            assert(r@ =~= self.refs@);
        }
        r
    }
}

// ---------------------------------------------------------------------------
// Searching
// ---------------------------------------------------------------------------

/// What `str::to_lowercase` makes of a text.
pub uninterp spec fn lowercase(s: Seq<char>) -> Seq<char>;

/// Lower-cases a text with `str::to_lowercase`. Trusted: the result is what
/// std computes, named by `lowercase`.
#[verifier::external_body]
fn to_lowercase(s: &str) -> (r: String)
    ensures
        r@ == lowercase(s@),
{
    s.to_lowercase()
}

/// The character positions that the skim fuzzy matcher (case respected)
/// picks in `choice` for `pattern`, or nothing when `pattern` does not match.
pub uninterp spec fn skim_fuzzy_indices(choice: Seq<char>, pattern: Seq<char>) -> Option<Seq<usize>>;

/// Runs `SkimMatcherV2::default().respect_case().fuzzy_indices` and keeps the
/// matched positions. Trusted: the result is what fuzzy-matcher computes,
/// named by `skim_fuzzy_indices`; an empty pattern matches with no
/// positions, as its source shows.
#[verifier::external_body]
fn fuzzy_indices(choice: &str, pattern: &str) -> (r: Option<Vec<usize>>)
    ensures
        r is Some <==> skim_fuzzy_indices(choice@, pattern@) is Some,
        r is Some ==> r->0@ == skim_fuzzy_indices(choice@, pattern@)->0,
        pattern@.len() == 0 ==> r is Some && r->0@.len() == 0,
{
    let matcher = fuzzy_matcher::skim::SkimMatcherV2::default().respect_case();
    fuzzy_matcher::FuzzyMatcher::fuzzy_indices(&matcher, choice, pattern).map(|(_, indices)| indices)
}

/// The text a query is matched against: lower-cased when case is ignored.
pub open spec fn text_for(s: Seq<char>, ignore_case: bool) -> Seq<char> {
    if ignore_case {
        lowercase(s)
    } else {
        s
    }
}

/// The byte positions `p .. p + n`.
pub open spec fn byte_range(p: int, n: int) -> Seq<usize> {
    Seq::new(n as nat, |i: int| (p + i) as usize)
}

/// Where `query` matches in `s`: the fuzzy matcher's character positions, or
/// the bytes of the first occurrence of the query in the UTF-8 text (as
/// `str::find` reports them); nothing when it does not match.
pub open spec fn match_positions(query: Seq<char>, ignore_case: bool, fuzzy: bool, s: Seq<char>) -> Option<Seq<usize>> {
    let text = text_for(s, ignore_case);
    if fuzzy {
        skim_fuzzy_indices(text, query)
    } else {
        let hb = encode_utf8(text);
        let qb = encode_utf8(query);
        if exists|p: usize| is_first_byte_occurrence(hb, qb, Some(p)) {
            let p = choose|p: usize| is_first_byte_occurrence(hb, qb, Some(p));
            Some(byte_range(p as int, qb.len() as int))
        } else {
            None
        }
    }
}

/// The bytes `n` occur in `h` at position `p`.
pub open spec fn occurs_at(h: Seq<u8>, n: Seq<u8>, p: int) -> bool {
    0 <= p && p + n.len() <= h.len() && h.subrange(p, p + n.len()) == n
}

proof fn lemma_first_occurrence(h: Seq<u8>, n: Seq<u8>, r: int)
    requires
        occurs_at(h, n, r),
    ensures
        exists|p: int| p <= r && #[trigger] occurs_at(h, n, p) && forall|q: int| 0 <= q < p ==> !#[trigger] occurs_at(h, n, q),
    decreases r,
{
    if exists|q: int| 0 <= q < r && #[trigger] occurs_at(h, n, q) {
        let q = choose|q: int| 0 <= q < r && #[trigger] occurs_at(h, n, q);
        lemma_first_occurrence(h, n, q);
    } else {
        assert(occurs_at(h, n, r));
    }
}

/// A search that respects case and is not fuzzy matches the text exactly
/// as written: it reports the bytes of the first occurrence of the query in
/// the UTF-8 text, and reports nothing exactly when the query does not
/// occur (so a query that occurs only with other letter cases does not match).
pub proof fn lemma_case_sensitive_search(query: Seq<char>, s: Seq<char>)
    requires
        encode_utf8(s).len() <= usize::MAX,
    ensures
        ({
            let h = encode_utf8(s);
            let n = encode_utf8(query);
            match match_positions(query, false, false, s) {
                Some(v) => exists|p: int|
                    #[trigger] occurs_at(h, n, p) && (forall|q: int| 0 <= q < p ==> !#[trigger] occurs_at(h, n, q))
                        && v == Seq::new(n.len(), |i: int| (p + i) as usize),
                None => forall|q: int| !#[trigger] occurs_at(h, n, q),
            }
        }),
{
    let h = encode_utf8(s);
    let n = encode_utf8(query);
    assert(text_for(s, false) == s);
    if exists|p: usize| is_first_byte_occurrence(h, n, Some(p)) {
        let p = choose|p: usize| is_first_byte_occurrence(h, n, Some(p));
        assert(occurs_at(h, n, p as int));
        assert forall|q: int| 0 <= q < p implies !#[trigger] occurs_at(h, n, q) by {
            assert(h.subrange(q, q + n.len()) != n);
        }
        assert(byte_range(p as int, n.len() as int) == Seq::new(n.len(), |i: int| (p + i) as usize));
    } else {
        assert forall|q: int| !#[trigger] occurs_at(h, n, q) by {
            if occurs_at(h, n, q) {
                lemma_first_occurrence(h, n, q);
                let p = choose|p: int| p <= q && #[trigger] occurs_at(h, n, p) && forall|r: int| 0 <= r < p ==> !#[trigger] occurs_at(h, n, r);
                assert forall|r: int| 0 <= r < p implies #[trigger] h.subrange(r, r + n.len()) != n by {
                    assert(!occurs_at(h, n, r));
                }
                assert(is_first_byte_occurrence(h, n, Some(p as usize)));
            }
        }
    }
}

/// The positions of a match in a text.
#[derive(Debug)]
pub struct SearchMatchPosition {
    pub matched_indices: Vec<usize>,
}

impl SearchMatchPosition {
    pub fn new(matched_indices: Vec<usize>) -> (p: SearchMatchPosition)
        ensures
            p.matched_indices == matched_indices,
    {
        SearchMatchPosition { matched_indices }
    }
}

/// The positions a match holds, if any.
pub open spec fn positions_of(p: Option<SearchMatchPosition>) -> Option<Seq<usize>> {
    match p {
        Some(q) => Some(q.matched_indices@),
        None => None,
    }
}

/// A query prepared for matching: lower-cased when case is ignored.
pub struct SearchMatcher {
    query: String,
    ignore_case: bool,
    fuzzy: bool,
}

impl SearchMatcher {
    pub closed spec fn query(&self) -> Seq<char> {
        self.query@
    }

    pub closed spec fn ignore_case(&self) -> bool {
        self.ignore_case
    }

    pub closed spec fn fuzzy(&self) -> bool {
        self.fuzzy
    }

    pub fn new(query: &str, ignore_case: bool, fuzzy: bool) -> (m: SearchMatcher)
        ensures
            m.query() == text_for(query@, ignore_case),
            m.ignore_case() == ignore_case,
            m.fuzzy() == fuzzy,
    {
        let query = if ignore_case {
            to_lowercase(query)
        } else {
            query.to_owned()
        };
        SearchMatcher { query, ignore_case, fuzzy }
    }

    /// Where the query matches in `s`.
    pub fn matched_position(&self, s: &str) -> (r: Option<SearchMatchPosition>)
        ensures
            positions_of(r) == match_positions(self.query(), self.ignore_case(), self.fuzzy(), s@),
    {
        let text = if self.ignore_case {
            to_lowercase(s)
        } else {
            s.to_owned()
        };
        if self.fuzzy {
            match fuzzy_indices(text.as_str(), self.query.as_str()) {
                Some(indices) => Some(SearchMatchPosition::new(indices)),
                None => None,
            }
        } else {
            let hb = text.as_str().as_bytes();
            let qb = self.query.as_str().as_bytes();
            let found = find_bytes(hb, qb);
            proof {
                let ghost h = encode_utf8(text_for(s@, self.ignore_case));
                let ghost q = encode_utf8(self.query@);
                assert(hb@ == h);
                assert(qb@ == q);
            }
            match found {
                Some(p) => {
                    let n = qb.len();
                    let hl = hb.len();
                    let mut v: Vec<usize> = Vec::new();
                    let mut i: usize = 0;
                    while i < n
                        invariant
                            i <= n,
                            p + n <= hl,
                            v@ == byte_range(p as int, i as int),
                        decreases n - i,
                    {
                        v.push(p + i);
                        proof {
                            assert(v@ =~= byte_range(p as int, i + 1));
                        }
                        i += 1;
                    }
                    proof {
                        let hb_s = encode_utf8(text_for(s@, self.ignore_case));
                        let qb_s = encode_utf8(self.query@);
                        assert(is_first_byte_occurrence(hb_s, qb_s, Some(p)));
                        let c = choose|c: usize| is_first_byte_occurrence(hb_s, qb_s, Some(c));
                        if c < p {
                            assert(hb_s.subrange(c as int, c + qb_s.len()) != qb_s);
                        } else if c > p {
                            assert(hb_s.subrange(p as int, p + qb_s.len()) != qb_s);
                        }
                    }
                    Some(SearchMatchPosition::new(v))
                },
                None => {
                    proof {
                        let hb_s = encode_utf8(text_for(s@, self.ignore_case));
                        let qb_s = encode_utf8(self.query@);
                        if exists|c: usize| is_first_byte_occurrence(hb_s, qb_s, Some(c)) {
                            let c = choose|c: usize| is_first_byte_occurrence(hb_s, qb_s, Some(c));
                            assert(hb_s.subrange(c as int, c + qb_s.len()) == qb_s);
                        }
                    }
                    None
                },
            }
        }
    }
}

/// The matches of the query in one commit's refs, subject, author and
/// abbreviated hash, and its 1-based number among the matching commits.
#[derive(Debug)]
pub struct SearchMatch {
    pub refs: Vec<(String, SearchMatchPosition)>,
    pub subject: Option<SearchMatchPosition>,
    pub author_name: Option<SearchMatchPosition>,
    pub commit_hash: Option<SearchMatchPosition>,
    pub match_index: usize,
}

impl Default for SearchMatch {
    fn default() -> (m: Self)
        ensures
            m.refs@.len() == 0,
            m.subject is None,
            m.author_name is None,
            m.commit_hash is None,
            m.match_index == 0,
    {
        SearchMatch { refs: Vec::new(), subject: None, author_name: None, commit_hash: None, match_index: 0 }
    }
}

/// The matched ref names with their positions, for the first `n` refs:
/// stashes are not searched.
pub open spec fn ref_matches(refs: Seq<Ref>, query: Seq<char>, ignore_case: bool, fuzzy: bool, n: int) -> Seq<(Seq<char>, Seq<usize>)>
    decreases n,
{
    if n <= 0 {
        Seq::empty()
    } else {
        let prev = ref_matches(refs, query, ignore_case, fuzzy, n - 1);
        let r = refs[n - 1];
        if !(r is Stash) && match_positions(query, ignore_case, fuzzy, ref_name(r)) is Some {
            prev.push((ref_name(r), match_positions(query, ignore_case, fuzzy, ref_name(r))->0))
        } else {
            prev
        }
    }
}

/// The names and positions of the ref matches.
pub open spec fn ref_match_views(v: Seq<(String, SearchMatchPosition)>) -> Seq<(Seq<char>, Seq<usize>)> {
    v.map_values(|e: (String, SearchMatchPosition)| (e.0@, e.1.matched_indices@))
}

/// `m` is what searching `query` in commit `c` with refs `refs` finds.
pub open spec fn is_search_match_of(m: SearchMatch, c: Commit, refs: Seq<Ref>, query: Seq<char>, ignore_case: bool, fuzzy: bool) -> bool {
    let q = text_for(query, ignore_case);
    &&& ref_match_views(m.refs@) == ref_matches(refs, q, ignore_case, fuzzy, refs.len() as int)
    &&& positions_of(m.subject) == match_positions(q, ignore_case, fuzzy, c.subject@)
    &&& positions_of(m.author_name) == match_positions(q, ignore_case, fuzzy, c.author_name@)
    &&& positions_of(m.commit_hash) == match_positions(
        q,
        ignore_case,
        fuzzy,
        crate::git::prefix_upto(c.commit_hash@, 7),
    )
}

/// The commit matched somewhere.
pub open spec fn search_matched(m: SearchMatch) -> bool {
    m.refs@.len() > 0 || m.subject is Some || m.author_name is Some || m.commit_hash is Some
}

impl SearchMatch {
    /// Searches `q` in a commit and its refs.
    pub fn new(c: &Commit, refs: &Vec<Ref>, q: &str, ignore_case: bool, fuzzy: bool) -> (m: SearchMatch)
        ensures
            is_search_match_of(m, *c, refs@, q@, ignore_case, fuzzy),
            m.match_index == 0,
    {
        let matcher = SearchMatcher::new(q, ignore_case, fuzzy);
        let ghost qq = text_for(q@, ignore_case);
        let mut found: Vec<(String, SearchMatchPosition)> = Vec::new();
        let mut i: usize = 0;
        while i < refs.len()
            invariant
                i <= refs@.len(),
                matcher.query() == qq,
                matcher.ignore_case() == ignore_case,
                matcher.fuzzy() == fuzzy,
                ref_match_views(found@) == ref_matches(refs@, qq, ignore_case, fuzzy, i as int),
            decreases refs@.len() - i,
        {
            let r = &refs[i];
            let stash = match r {
                Ref::Stash { .. } => true,
                _ => false,
            };
            if !stash {
                match matcher.matched_position(r.name()) {
                    Some(pos) => {
                        let name = r.name().to_owned();
                        found.push((name, pos));
                        proof {
                            assert(ref_match_views(found@) =~= ref_match_views(found@.drop_last()).push(
                                (found@.last().0@, found@.last().1.matched_indices@),
                            ));
                            assert(found@.drop_last() =~= found@.take(found@.len() - 1));
                        }
                    },
                    None => {},
                }
            }
            i += 1;
        }
        let subject = matcher.matched_position(c.subject.as_str());
        let author_name = matcher.matched_position(c.author_name.as_str());
        let short = c.commit_hash.as_short_hash();
        let commit_hash = matcher.matched_position(short.as_str());
        SearchMatch { refs: found, subject, author_name, commit_hash, match_index: 0 }
    }

    pub fn matched(&self) -> (r: bool)
        ensures
            r == search_matched(*self),
    {
        self.refs.len() > 0 || self.subject.is_some() || self.author_name.is_some() || self.commit_hash.is_some()
    }

    /// Forgets the matches (the match number is kept).
    pub fn clear(&mut self)
        ensures
            final(self).refs@.len() == 0,
            final(self).subject is None,
            final(self).author_name is None,
            final(self).commit_hash is None,
            final(self).match_index == old(self).match_index,
    {
        self.refs = Vec::new();
        self.subject = None;
        self.author_name = None;
        self.commit_hash = None;
    }
}

/// A short notice shown while searching, after a search option changed.
#[derive(Debug, Clone, Copy, PartialEq, Eq, Structural)]
pub enum TransientMessage {
    Nothing,
    IgnoreCaseOff,
    IgnoreCaseOn,
    FuzzyOff,
    FuzzyOn,
}

/// Where the incremental search stands.
#[derive(Debug, Clone, Copy, PartialEq, Eq, Structural)]
pub enum SearchState {
    Inactive,
    Searching {
        start_index: usize,
        match_index: usize,
        ignore_case: bool,
        fuzzy: bool,
        transient_message: TransientMessage,
    },
    Applied { match_index: usize, total_match: usize },
}

/// The state with its match number replaced (an inactive search has none).
pub open spec fn with_match_index(s: SearchState, index: usize) -> SearchState {
    match s {
        SearchState::Searching { start_index, ignore_case, fuzzy, transient_message, .. } => SearchState::Searching {
            start_index,
            match_index: index,
            ignore_case,
            fuzzy,
            transient_message,
        },
        SearchState::Applied { total_match, .. } => SearchState::Applied { match_index: index, total_match },
        SearchState::Inactive => SearchState::Inactive,
    }
}

impl SearchState {
    pub fn update_match_index(&mut self, index: usize)
        ensures
            *final(self) == with_match_index(*old(self), index),
    {
        match self {
            SearchState::Searching { match_index, .. } => {
                *match_index = index;
            },
            SearchState::Applied { match_index, .. } => {
                *match_index = index;
            },
            _ => {},
        }
    }
}

/// The commit list: its rows, the selection (a row `selected` within the
/// visible window that starts at row `offset` and is `height` rows tall) and
/// the search.
#[derive(Debug)]
pub struct CommitListState {
    commits: Vec<CommitInfo>,
    graph_cell_width: u16,
    head: Head,
    ref_name_to_commit_index_map: Vec<(String, usize)>,
    search_state: SearchState,
    search_query: String,
    search_matches: Vec<SearchMatch>,
    selected: usize,
    offset: usize,
    total: usize,
    height: usize,
    default_ignore_case: bool,
    default_fuzzy: bool,
}

/// A position in the list: the selected row within the window and the first
/// row of the window.
pub type Pos = (usize, usize);

/// `n` applications of `f`, starting from `p`.
pub open spec fn iterate(f: spec_fn(Pos) -> Pos, p: Pos, n: nat) -> Pos
    decreases n,
{
    if n == 0 {
        p
    } else {
        f(iterate(f, p, (n - 1) as nat))
    }
}

/// The position one row down: the selection moves within the window, else
/// the window moves, else nothing moves (at the last row).
pub open spec fn next_pos(p: Pos, total: usize, height: usize) -> Pos {
    if p.0 < crate::padding::min_int(total - 1, height - 1) {
        ((p.0 + 1) as usize, p.1)
    } else if p.0 + p.1 < total - 1 {
        (p.0, (p.1 + 1) as usize)
    } else {
        p
    }
}

/// The position one row up.
pub open spec fn prev_pos(p: Pos) -> Pos {
    if p.0 > 0 {
        ((p.0 - 1) as usize, p.1)
    } else if p.1 > 0 {
        (p.0, (p.1 - 1) as usize)
    } else {
        p
    }
}

/// The position after scrolling the window one row down, the selection
/// staying on its commit where it can.
pub open spec fn scroll_down_pos(p: Pos, total: usize, height: usize) -> Pos {
    if p.1 + height < total {
        (crate::padding::sat_sub(p.0 as int, 1) as usize, (p.1 + 1) as usize)
    } else {
        p
    }
}

/// The position after scrolling the window one row up.
pub open spec fn scroll_up_pos(p: Pos, height: usize) -> Pos {
    if p.1 > 0 {
        (if p.0 < height - 1 { (p.0 + 1) as usize } else { p.0 }, (p.1 - 1) as usize)
    } else {
        p
    }
}

/// The position after scrolling `h` rows down: the window moves by `h`
/// while it can, else it stops at the last screenful and the selection moves
/// on by what is left (up to the last row).
pub open spec fn scroll_down_by(p: Pos, total: usize, height: usize, h: int) -> Pos {
    let size = crate::padding::min_int(height as int, total as int);
    if p.1 + height + h < total {
        (p.0, (p.1 + h) as usize)
    } else {
        let moved = total - size - p.1;
        (crate::padding::min_int(p.0 + h - moved, size - 1) as usize, (total - size) as usize)
    }
}

/// The position after scrolling `h` rows up.
pub open spec fn scroll_up_by(p: Pos, h: int) -> Pos {
    if p.1 > h {
        (p.0, (p.1 - h) as usize)
    } else {
        (crate::padding::sat_sub(p.0 as int, h - p.1) as usize, 0usize)
    }
}

/// Moving one row down, as a function of the position.
pub open spec fn next_fn(total: usize, height: usize) -> spec_fn(Pos) -> Pos {
    |q: Pos| next_pos(q, total, height)
}

/// The hash of each row.
pub open spec fn row_hashes(commits: Seq<CommitInfo>) -> Seq<Seq<char>> {
    commits.map_values(|c: CommitInfo| c.commit_spec().commit_hash@)
}

/// The first row from `k` on whose hash is `h`.
pub open spec fn find_from(hs: Seq<Seq<char>>, h: Seq<char>, k: int) -> Option<int>
    decreases hs.len() - k,
{
    if k < 0 || k >= hs.len() {
        None
    } else if hs[k] == h {
        Some(k)
    } else {
        find_from(hs, h, k + 1)
    }
}

/// The position after moving to the first parent of the selected commit:
/// one row down at a time, until the first row from the selection on that
/// holds the parent; no move when there is no parent or it is not listed
/// there.
pub open spec fn parent_pos(commits: Seq<CommitInfo>, total: usize, height: usize, p: Pos) -> Pos {
    let idx = p.0 + p.1;
    let ps = commits[idx].commit_spec().parent_commit_hashes@;
    if ps.len() > 0 {
        match find_from(row_hashes(commits), ps[0]@, idx) {
            Some(k) => iterate(next_fn(total, height), p, (k - idx) as nat),
            None => p,
        }
    } else {
        p
    }
}

/// Moving one row up, as a function of the position.
pub open spec fn prev_fn() -> spec_fn(Pos) -> Pos {
    |q: Pos| prev_pos(q)
}

/// Scrolling one row down, as a function of the position.
pub open spec fn scroll_down_fn(total: usize, height: usize) -> spec_fn(Pos) -> Pos {
    |q: Pos| scroll_down_pos(q, total, height)
}

/// Scrolling one row up, as a function of the position.
pub open spec fn scroll_up_fn(height: usize) -> spec_fn(Pos) -> Pos {
    |q: Pos| scroll_up_pos(q, height)
}

/// Scrolling `h` rows down, as a function of the position.
pub open spec fn scroll_down_by_fn(total: usize, height: usize, h: int) -> spec_fn(Pos) -> Pos {
    |q: Pos| scroll_down_by(q, total, height, h)
}

/// Scrolling `h` rows up, as a function of the position.
pub open spec fn scroll_up_by_fn(h: int) -> spec_fn(Pos) -> Pos {
    |q: Pos| scroll_up_by(q, h)
}

/// Moving to the first parent, as a function of the position.
pub open spec fn parent_fn(commits: Seq<CommitInfo>, total: usize, height: usize) -> spec_fn(Pos) -> Pos {
    |q: Pos| parent_pos(commits, total, height, q)
}


/// The window is on screen and holds the selection: the selection is inside
/// the window and on a listed commit, and the window does not run past the
/// end of a list longer than itself (a shorter list is shown from its
/// start).
pub open spec fn pos_ok(p: Pos, total: usize, height: usize) -> bool {
    &&& height > 0
    &&& p.0 < height
    &&& p.0 + p.1 < total
    &&& total > height ==> p.1 + height <= total
    &&& total <= height ==> p.1 == 0
}

/// Moving down a row and back up returns to the same commit, and so does
/// moving up and back down; both keep the window valid. At the last row
/// moving down changes nothing, at the first moving up changes nothing.
pub proof fn lemma_next_prev_round_trip(p: Pos, total: usize, height: usize)
    requires
        pos_ok(p, total, height),
    ensures
        p.0 + p.1 < total - 1 ==> ({
            let q = next_pos(p, total, height);
            &&& q.0 + q.1 == p.0 + p.1 + 1
            &&& pos_ok(q, total, height)
            &&& prev_pos(q).0 + prev_pos(q).1 == p.0 + p.1
        }),
        p.0 + p.1 == total - 1 ==> next_pos(p, total, height) == p,
        p.0 + p.1 > 0 ==> ({
            let q = prev_pos(p);
            &&& q.0 + q.1 == p.0 + p.1 - 1
            &&& pos_ok(q, total, height)
            &&& next_pos(q, total, height).0 + next_pos(q, total, height).1 == p.0 + p.1
        }),
        p.0 + p.1 == 0 ==> prev_pos(p) == p,
{
}

/// The row each ref name leads to; a later entry for a name replaces an
/// earlier one.
pub open spec fn ref_index_map(v: Seq<(String, usize)>) -> Map<Seq<char>, usize>
    decreases v.len(),
{
    if v.len() == 0 {
        Map::empty()
    } else {
        ref_index_map(v.drop_last()).insert(v.last().0@, v.last().1)
    }
}

impl CommitListState {
    pub closed spec fn commits_spec(&self) -> Seq<CommitInfo> {
        self.commits@
    }

    pub closed spec fn selected(&self) -> usize {
        self.selected
    }

    pub closed spec fn offset(&self) -> usize {
        self.offset
    }

    pub closed spec fn total(&self) -> usize {
        self.total
    }

    pub closed spec fn height(&self) -> usize {
        self.height
    }

    pub closed spec fn search(&self) -> SearchState {
        self.search_state
    }

    pub closed spec fn query(&self) -> Seq<char> {
        self.search_query@
    }

    pub closed spec fn matches(&self) -> Seq<SearchMatch> {
        self.search_matches@
    }

    pub closed spec fn ref_rows(&self) -> Map<Seq<char>, usize> {
        ref_index_map(self.ref_name_to_commit_index_map@)
    }

    pub closed spec fn head_spec(&self) -> Head {
        self.head
    }

    pub closed spec fn ref_entries(&self) -> Seq<(String, usize)> {
        self.ref_name_to_commit_index_map@
    }

    pub closed spec fn graph_cell_width(&self) -> u16 {
        self.graph_cell_width
    }

    pub closed spec fn default_ignore_case(&self) -> bool {
        self.default_ignore_case
    }

    pub closed spec fn default_fuzzy(&self) -> bool {
        self.default_fuzzy
    }

    /// One row of matches per commit.
    pub open spec fn wf(&self) -> bool {
        &&& self.total() == self.commits_spec().len()
        &&& self.matches().len() == self.total()
        &&& self.total() < usize::MAX
        &&& self.search() matches SearchState::Searching { start_index, .. } ==> start_index < self.total()
    }

    /// The row of the selected commit.
    pub open spec fn index(&self) -> int {
        self.offset() + self.selected()
    }

    /// The selection and the window, as a position.
    pub open spec fn pos(&self) -> Pos {
        (self.selected(), self.offset())
    }

    /// The window is on screen and holds the selection (see `pos_ok`).
    pub open spec fn nav_ok(&self) -> bool {
        pos_ok(self.pos(), self.total(), self.height())
    }

    /// Everything but the window and the selection is as in `other`.
    pub open spec fn same_but_selection(&self, other: &Self) -> bool {
        &&& self.commits_spec() == other.commits_spec()
        &&& self.graph_cell_width() == other.graph_cell_width()
        &&& self.head_spec() == other.head_spec()
        &&& self.ref_entries() == other.ref_entries()
        &&& self.search() == other.search()
        &&& self.query() == other.query()
        &&& self.matches() == other.matches()
        &&& self.total() == other.total()
        &&& self.height() == other.height()
        &&& self.default_ignore_case() == other.default_ignore_case()
        &&& self.default_fuzzy() == other.default_fuzzy()
    }

    /// A list of `commits`, the first one selected, no search running.
    pub fn new(
        commits: Vec<CommitInfo>,
        graph_cell_width: u16,
        head: Head,
        ref_name_to_commit_index_map: Vec<(String, usize)>,
        default_ignore_case: bool,
        default_fuzzy: bool,
    ) -> (s: CommitListState)
        requires
            commits@.len() < usize::MAX,
        ensures
            s.wf(),
            s.commits_spec() == commits@,
            s.total() == commits@.len(),
            s.selected() == 0,
            s.offset() == 0,
            s.height() == 0,
            s.search() == SearchState::Inactive,
            s.query().len() == 0,
            forall|i: int| 0 <= i < s.matches().len() ==> !search_matched(#[trigger] s.matches()[i]),
            s.ref_rows() == ref_index_map(ref_name_to_commit_index_map@),
            s.graph_cell_width() == graph_cell_width,
            s.default_ignore_case() == default_ignore_case,
            s.default_fuzzy() == default_fuzzy,
    {
        let total = commits.len();
        let mut search_matches: Vec<SearchMatch> = Vec::new();
        while search_matches.len() < total
            invariant
                search_matches@.len() <= total,
                forall|i: int| 0 <= i < search_matches@.len() ==> !search_matched(#[trigger] search_matches@[i]),
            decreases total - search_matches@.len(),
        {
            search_matches.push(SearchMatch::default());
        }
        CommitListState {
            commits,
            graph_cell_width,
            head,
            ref_name_to_commit_index_map,
            search_state: SearchState::Inactive,
            search_query: String::new(),
            search_matches,
            selected: 0,
            offset: 0,
            total,
            height: 0,
            default_ignore_case,
            default_fuzzy,
        }
    }

    /// The width of the graph column, with one cell of padding on the right.
    pub fn graph_area_cell_width(&self) -> (w: u16)
        requires
            self.graph_cell_width() < u16::MAX,
        ensures
            w == self.graph_cell_width() + 1,
    {
        self.graph_cell_width + 1
    }

    pub fn select_next(&mut self)
        requires
            old(self).total() > 0,
            old(self).height() > 0,
        ensures
            final(self).same_but_selection(old(self)),
            final(self).pos() == next_pos(old(self).pos(), old(self).total(), old(self).height()),
            old(self).nav_ok() ==> final(self).nav_ok(),
    {
        let t = self.total - 1;
        let h = self.height - 1;
        let limit = if t < h { t } else { h };
        if self.selected < limit {
            self.selected += 1;
        } else if self.selected < t && self.offset < t - self.selected {
            self.offset += 1;
        }
    }

    pub fn select_prev(&mut self)
        ensures
            final(self).same_but_selection(old(self)),
            final(self).pos() == prev_pos(old(self).pos()),
            old(self).nav_ok() ==> final(self).nav_ok(),
    {
        if self.selected > 0 {
            self.selected -= 1;
        } else if self.offset > 0 {
            self.offset -= 1;
        }
    }

    pub fn select_first(&mut self)
        ensures
            final(self).same_but_selection(old(self)),
            final(self).selected() == 0,
            final(self).offset() == 0,
            old(self).nav_ok() ==> final(self).nav_ok(),
    {
        self.selected = 0;
        self.offset = 0;
    }

    pub fn select_last(&mut self)
        requires
            old(self).total() > 0,
            old(self).height() > 0,
        ensures
            final(self).same_but_selection(old(self)),
            final(self).selected() == crate::padding::min_int(old(self).height() - 1, old(self).total() - 1),
            final(self).offset() == if old(self).height() < old(self).total() {
                old(self).total() - old(self).height()
            } else {
                old(self).offset() as int
            },
            old(self).nav_ok() ==> final(self).nav_ok(),
    {
        let h = self.height - 1;
        let t = self.total - 1;
        self.selected = if h < t { h } else { t };
        if self.height < self.total {
            self.offset = self.total - self.height;
        }
    }

    pub fn scroll_down(&mut self)
        requires
            old(self).offset() + old(self).height() <= usize::MAX,
        ensures
            final(self).same_but_selection(old(self)),
            final(self).pos() == scroll_down_pos(old(self).pos(), old(self).total(), old(self).height()),
            old(self).nav_ok() ==> final(self).nav_ok(),
    {
        if self.offset + self.height < self.total {
            self.offset += 1;
            if self.selected > 0 {
                self.selected -= 1;
            }
        }
    }

    pub fn scroll_up(&mut self)
        requires
            old(self).offset() > 0 ==> old(self).height() > 0,
        ensures
            final(self).same_but_selection(old(self)),
            final(self).pos() == scroll_up_pos(old(self).pos(), old(self).height()),
            old(self).nav_ok() ==> final(self).nav_ok(),
    {
        if self.offset > 0 {
            self.offset -= 1;
            if self.selected < self.height - 1 {
                self.selected += 1;
            }
        }
    }

    /// `scroll_down_height` runs without overflow or underflow.
    pub open spec fn scroll_down_defined(&self, h: int) -> bool {
        let size = crate::padding::min_int(self.height() as int, self.total() as int);
        &&& self.offset() + self.height() + h <= usize::MAX
        &&& self.offset() + self.height() + h >= self.total() ==> {
            &&& size >= 1
            &&& self.offset() <= self.total() - size
            &&& self.total() - size - self.offset() <= h
            &&& self.selected() + h - (self.total() - size - self.offset()) <= usize::MAX
        }
    }

    fn scroll_down_height(&mut self, scroll_height: usize)
        requires
            old(self).scroll_down_defined(scroll_height as int),
        ensures
            final(self).same_but_selection(old(self)),
            final(self).pos() == scroll_down_by(old(self).pos(), old(self).total(), old(self).height(), scroll_height as int),
            old(self).nav_ok() && scroll_height <= old(self).height() ==> final(self).nav_ok(),
    {
        if self.offset + self.height + scroll_height < self.total {
            self.offset += scroll_height;
        } else {
            let old_offset = self.offset;
            let size = if self.height < self.total { self.height } else { self.total };
            self.offset = self.total - size;
            self.selected += scroll_height - (self.offset - old_offset);
            if self.selected >= size {
                self.selected = size - 1;
            }
        }
    }

    fn scroll_up_height(&mut self, scroll_height: usize)
        ensures
            final(self).same_but_selection(old(self)),
            final(self).pos() == scroll_up_by(old(self).pos(), scroll_height as int),
            old(self).nav_ok() ==> final(self).nav_ok(),
    {
        if self.offset > scroll_height {
            self.offset -= scroll_height;
        } else {
            let old_offset = self.offset;
            self.offset = 0;
            self.selected = self.selected.saturating_sub(scroll_height - old_offset);
        }
    }

    pub fn scroll_down_page(&mut self)
        requires
            old(self).scroll_down_defined(old(self).height() as int),
        ensures
            final(self).same_but_selection(old(self)),
            final(self).pos() == scroll_down_by(old(self).pos(), old(self).total(), old(self).height(), old(self).height() as int),
            old(self).nav_ok() ==> final(self).nav_ok(),
    {
        let h = self.height;
        self.scroll_down_height(h);
    }

    pub fn scroll_up_page(&mut self)
        ensures
            final(self).same_but_selection(old(self)),
            final(self).pos() == scroll_up_by(old(self).pos(), old(self).height() as int),
            old(self).nav_ok() ==> final(self).nav_ok(),
    {
        let h = self.height;
        self.scroll_up_height(h);
    }

    pub fn scroll_down_half(&mut self)
        requires
            old(self).scroll_down_defined(old(self).height() as int / 2),
        ensures
            final(self).same_but_selection(old(self)),
            final(self).pos() == scroll_down_by(old(self).pos(), old(self).total(), old(self).height(), old(self).height() as int / 2),
            old(self).nav_ok() ==> final(self).nav_ok(),
    {
        let h = self.height / 2;
        self.scroll_down_height(h);
    }

    pub fn scroll_up_half(&mut self)
        ensures
            final(self).same_but_selection(old(self)),
            final(self).pos() == scroll_up_by(old(self).pos(), old(self).height() as int / 2),
            old(self).nav_ok() ==> final(self).nav_ok(),
    {
        let h = self.height / 2;
        self.scroll_up_height(h);
    }

    pub fn select_high(&mut self)
        ensures
            final(self).same_but_selection(old(self)),
            final(self).selected() == 0,
            final(self).offset() == old(self).offset(),
            old(self).nav_ok() ==> final(self).nav_ok(),
    {
        self.selected = 0;
    }

    pub fn select_middle(&mut self)
        ensures
            final(self).same_but_selection(old(self)),
            final(self).selected() == if old(self).total() > old(self).height() {
                old(self).height() / 2
            } else {
                old(self).total() / 2
            },
            final(self).offset() == old(self).offset(),
            old(self).nav_ok() ==> final(self).nav_ok(),
    {
        if self.total > self.height {
            self.selected = self.height / 2;
        } else {
            self.selected = self.total / 2;
        }
    }

    pub fn select_low(&mut self)
        requires
            old(self).total() > old(self).height() ==> old(self).height() > 0,
            old(self).total() <= old(self).height() ==> old(self).total() > 0,
        ensures
            final(self).same_but_selection(old(self)),
            final(self).selected() == if old(self).total() > old(self).height() {
                old(self).height() - 1
            } else {
                old(self).total() - 1
            },
            final(self).offset() == old(self).offset(),
            old(self).nav_ok() ==> final(self).nav_ok(),
    {
        if self.total > self.height {
            self.selected = self.height - 1;
        } else {
            self.selected = self.total - 1;
        }
    }

    /// The window that shows row `index`: at the top of the window when the
    /// list is longer than the window, else in place.
    pub open spec fn jumped_to(&self, f: Self, index: int) -> bool {
        if self.total() > self.height() {
            f.selected() == 0 && f.offset() == index
        } else {
            f.selected() == index && f.offset() == self.offset()
        }
    }

    /// Selects row `index` when it exists.
    pub fn select_index(&mut self, index: usize)
        ensures
            final(self).same_but_selection(old(self)),
            index < old(self).total() ==> old(self).jumped_to(*final(self), index as int),
            index >= old(self).total() ==> final(self).selected() == old(self).selected() && final(self).offset()
                == old(self).offset(),
            old(self).nav_ok() && index < old(self).total() ==> final(self).index() < final(self).total(),
            old(self).nav_ok() && index < old(self).total() && final(self).total() <= final(self).height() ==> final(self).offset() == 0,
    {
        if index < self.total {
            if self.total > self.height {
                self.selected = 0;
                self.offset = index;
            } else {
                self.selected = index;
            }
        }
    }

    /// The row of the selected commit.
    pub fn current_selected_index(&self) -> (i: usize)
        requires
            self.index() <= usize::MAX,
        ensures
            i == self.index(),
    {
        self.offset + self.selected
    }

    /// The hash of the selected commit.
    pub fn selected_commit_hash(&self) -> (h: &CommitHash)
        requires
            self.wf(),
            self.index() < self.total(),
        ensures
            *h == self.commits_spec()[self.index()].commit_spec().commit_hash,
    {
        &self.commits[self.offset + self.selected].commit.commit_hash
    }

    /// The refs of the selected commit.
    pub fn selected_commit_refs(&self) -> (r: Vec<Ref>)
        requires
            self.wf(),
            self.index() < self.total(),
        ensures
            r@ == self.commits_spec()[self.index()].refs_spec(),
    {
        self.commits[self.offset + self.selected].refs_to_vec()
    }

    /// The first parent of the selected commit.
    pub fn selected_commit_parent_hash(&self) -> (h: Option<&CommitHash>)
        requires
            self.wf(),
            self.index() < self.total(),
        ensures
            ({
                let ps = self.commits_spec()[self.index()].commit_spec().parent_commit_hashes@;
                &&& h is Some <==> ps.len() > 0
                &&& h is Some ==> *h->0 == ps[0]
            }),
    {
        let ps = &self.commits[self.offset + self.selected].commit.parent_commit_hashes;
        if ps.len() > 0 {
            Some(&ps[0])
        } else {
            None
        }
    }

    /// The hash of row `i`.
    pub open spec fn hash_at(&self, i: int) -> Seq<char> {
        self.commits_spec()[i].commit_spec().commit_hash@
    }

    /// Moves the selection down to the first parent of the selected commit:
    /// to the first row from the selection on that holds it. Nothing moves
    /// when the commit has no parent or the parent is not listed below.
    pub fn select_parent(&mut self)
        requires
            old(self).wf(),
            old(self).index() < old(self).total(),
            old(self).height() > 0,
        ensures
            final(self).same_but_selection(old(self)),
            final(self).pos() == parent_pos(old(self).commits_spec(), old(self).total(), old(self).height(), old(self).pos()),
            old(self).nav_ok() ==> final(self).nav_ok(),
    {
        let ghost hs = row_hashes(self.commits@);
        let target = match self.selected_commit_parent_hash() {
            Some(h) => h.clone(),
            None => {
                return;
            },
        };
        let start = self.offset + self.selected;
        let n = self.total;
        let mut k: usize = start;
        proof {
            assert(hs.len() == n);
        }
        while k < n && !self.commits[k].commit.commit_hash.same_as(&target)
            invariant
                self.wf(),
                *self == *old(self),
                hs == row_hashes(self.commits@),
                hs.len() == n,
                start <= k <= n,
                n == self.total(),
                find_from(hs, target@, start as int) == find_from(hs, target@, k as int),
            decreases n - k,
        {
            assert(hs[k as int] == self.commits@[k as int].commit_spec().commit_hash@);
            k += 1;
        }
        if k == n {
            return;
        }
        assert(hs[k as int] == target@);
        let ghost o = *self;
        let ghost f = next_fn(o.total(), o.height());
        while self.offset + self.selected < k
            invariant
                self.wf(),
                self.same_but_selection(&o),
                o.index() <= self.index() <= k,
                k < self.total(),
                self.total() > 0,
                self.height() > 0,
                f == next_fn(o.total(), o.height()),
                self.pos() == iterate(f, o.pos(), (self.index() - o.index()) as nat),
                o.nav_ok() ==> self.nav_ok(),
            decreases k - self.index(),
        {
            let ghost before = self.pos();
            self.select_next();
            proof {
                assert(self.pos() == f(before));
            }
        }
    }

    /// Selects the commit that the ref `ref_name` points at, if the name is
    /// known.
    pub fn select_ref(&mut self, ref_name: &str)
        ensures
            final(self).same_but_selection(old(self)),
            old(self).ref_rows().contains_key(ref_name@) ==> old(self).jumped_to(
                *final(self),
                old(self).ref_rows()[ref_name@] as int,
            ),
            !old(self).ref_rows().contains_key(ref_name@) ==> final(self).selected() == old(self).selected()
                && final(self).offset() == old(self).offset(),
    {
        match lookup_ref_row(&self.ref_name_to_commit_index_map, ref_name) {
            Some(index) => {
                if self.total > self.height {
                    self.selected = 0;
                    self.offset = index;
                } else {
                    self.selected = index;
                }
            },
            None => {},
        }
    }

    /// Selects the first commit with hash `commit_hash`, if one is listed.
    pub fn select_commit_hash(&mut self, commit_hash: &CommitHash)
        requires
            old(self).wf(),
        ensures
            final(self).same_but_selection(old(self)),
            ({
                let o = *old(self);
                let f = *final(self);
                if exists|i: int| 0 <= i < o.total() && o.hash_at(i) == commit_hash@ {
                    exists|i: int|
                        0 <= i < o.total() && o.hash_at(i) == commit_hash@ && (forall|j: int|
                            0 <= j < i ==> o.hash_at(j) != commit_hash@) && o.jumped_to(f, i)
                } else {
                    f.selected() == o.selected() && f.offset() == o.offset()
                }
            }),
    {
        let n = self.commits.len();
        let mut i: usize = 0;
        while i < n
            invariant
                self.wf(),
                *self == *old(self),
                n == self.total(),
                i <= n,
                forall|j: int| 0 <= j < i ==> self.hash_at(j) != commit_hash@,
            decreases n - i,
        {
            if self.commits[i].commit.commit_hash.same_as(commit_hash) {
                let ghost o = *self;
                if self.total > self.height {
                    self.selected = 0;
                    self.offset = i;
                } else {
                    self.selected = i;
                }
                assert(o.jumped_to(*self, i as int));
                assert(0 <= i < o.total() && o.hash_at(i as int) == commit_hash@ && (forall|j: int|
                    0 <= j < i ==> o.hash_at(j) != commit_hash@) && o.jumped_to(*self, i as int));
                return;
            }
            i += 1;
        }
    }

    /// Records a new ref on the first commit with hash `commit_hash`.
    pub fn add_ref_to_commit(&mut self, commit_hash: &CommitHash, new_ref: Ref)
        requires
            old(self).wf(),
        ensures
            ref_added(*old(self), *final(self), commit_hash@, new_ref),
    {
        let n = self.commits.len();
        let mut i: usize = 0;
        while i < n
            invariant
                self.wf(),
                *self == *old(self),
                n == self.total(),
                i <= n,
                forall|j: int| 0 <= j < i ==> self.hash_at(j) != commit_hash@,
            decreases n - i,
        {
            if self.commits[i].commit.commit_hash.same_as(commit_hash) {
                let ghost o = *self;
                let name = new_ref.name().to_owned();
                self.ref_name_to_commit_index_map.push((name, i));
                let mut info = self.commits.remove(i);
                info.add_ref(new_ref);
                self.commits.insert(i, info);
                proof {
                    assert(self.ref_name_to_commit_index_map@.drop_last() == o.ref_name_to_commit_index_map@);
                    assert forall|j: int| 0 <= j < o.total() && j != i implies self.commits_spec()[j] == o.commits_spec()[j] by {
                        if j < i {
                        } else {
                        }
                    }
                    let f = *self;
                    assert(f.ref_rows() == o.ref_rows().insert(ref_name(new_ref), i as usize));
                    assert(0 <= i < o.total() && o.hash_at(i as int) == commit_hash@ && (forall|j: int|
                        0 <= j < i ==> o.hash_at(j) != commit_hash@) && f.ref_rows() == o.ref_rows().insert(
                        ref_name(new_ref),
                        i as usize,
                    ) && f.commits_spec().len() == o.commits_spec().len() && (forall|j: int|
                        0 <= j < o.total() && j != i ==> f.commits_spec()[j] == o.commits_spec()[j])
                        && f.commits_spec()[i as int].commit_spec() == o.commits_spec()[i as int].commit_spec()
                        && refs_sorted(f.commits_spec()[i as int].refs_spec()) && f.commits_spec()[i as int].refs_spec().to_multiset()
                        == o.commits_spec()[i as int].refs_spec().push(new_ref).to_multiset());
                }
                return;
            }
            i += 1;
        }
    }

    /// Drops the ref `tag_name` from the first commit with hash
    /// `commit_hash`, and forgets the name.
    pub fn remove_ref_from_commit(&mut self, commit_hash: &CommitHash, tag_name: &str)
        requires
            old(self).wf(),
        ensures
            ref_removed(*old(self), *final(self), commit_hash@, tag_name@),
    {
        let n = self.commits.len();
        let mut i: usize = 0;
        while i < n
            invariant
                self.wf(),
                *self == *old(self),
                n == self.total(),
                i <= n,
                forall|j: int| 0 <= j < i ==> self.hash_at(j) != commit_hash@,
            decreases n - i,
        {
            if self.commits[i].commit.commit_hash.same_as(commit_hash) {
                let ghost o = *self;
                self.ref_name_to_commit_index_map = remove_ref_row(&self.ref_name_to_commit_index_map, tag_name);
                let mut info = self.commits.remove(i);
                info.remove_ref(tag_name);
                self.commits.insert(i, info);
                proof {
                    assert forall|j: int| 0 <= j < o.total() && j != i implies self.commits_spec()[j] == o.commits_spec()[j] by {
                        if j < i {
                        } else {
                        }
                    }
                    let f = *self;
                    assert(0 <= i < o.total() && o.hash_at(i as int) == commit_hash@ && (forall|j: int|
                        0 <= j < i ==> o.hash_at(j) != commit_hash@) && f.ref_rows() == o.ref_rows().remove(
                        tag_name@,
                    ) && f.commits_spec().len() == o.commits_spec().len() && (forall|j: int|
                        0 <= j < o.total() && j != i ==> f.commits_spec()[j] == o.commits_spec()[j])
                        && f.commits_spec()[i as int].commit_spec() == o.commits_spec()[i as int].commit_spec()
                        && f.commits_spec()[i as int].refs_spec() == o.commits_spec()[i as int].refs_spec().filter(
                        |r: Ref| ref_name(r) != tag_name@,
                    ));
                }
                return;
            }
            i += 1;
        }
    }

    /// Fits the window to a new height: the window is moved back so that it
    /// does not run past the end of the list, and forward so that it holds
    /// the selection, keeping the selected row.
    pub fn update_state(&mut self, height: usize)
        requires
            height > 0,
            old(self).index() <= usize::MAX,
        ensures
            final(self).same_but_height_and_selection(old(self)),
            final(self).height() == height,
            final(self).index() == old(self).index(),
            ({
                let o = *old(self);
                let shift = if o.total() > height && o.total() - height < o.offset() {
                    o.offset() - (o.total() - height)
                } else {
                    0
                };
                let sel1 = o.selected() + shift;
                let off1 = o.offset() - shift;
                if sel1 >= height {
                    final(self).selected() == height - 1 && final(self).offset() == off1 + (sel1 - height + 1)
                } else {
                    final(self).selected() == sel1 && final(self).offset() == off1
                }
            }),
            old(self).index() < old(self).total() && (old(self).total() <= height ==> old(self).offset()
                == 0) ==> final(self).nav_ok(),
    {
        self.height = height;
        if self.total > self.height && self.total - self.height < self.offset {
            let diff = self.offset - (self.total - self.height);
            self.selected += diff;
            self.offset -= diff;
        }
        if self.selected >= self.height {
            let diff = self.selected - self.height + 1;
            self.selected -= diff;
            self.offset += diff;
        }
    }

    /// Everything but the height, the window and the selection is as in
    /// `other`.
    pub open spec fn same_but_height_and_selection(&self, other: &Self) -> bool {
        &&& self.commits_spec() == other.commits_spec()
        &&& self.graph_cell_width() == other.graph_cell_width()
        &&& self.head_spec() == other.head_spec()
        &&& self.ref_entries() == other.ref_entries()
        &&& self.search() == other.search()
        &&& self.query() == other.query()
        &&& self.matches() == other.matches()
        &&& self.total() == other.total()
        &&& self.default_ignore_case() == other.default_ignore_case()
        &&& self.default_fuzzy() == other.default_fuzzy()
    }
}

/// The row recorded last for `name`.
fn lookup_ref_row(v: &Vec<(String, usize)>, name: &str) -> (r: Option<usize>)
    ensures
        r is Some <==> ref_index_map(v@).contains_key(name@),
        r is Some ==> r->0 == ref_index_map(v@)[name@],
    decreases v@.len(),
{
    let mut i: usize = v.len();
    proof {
        assert(v@.take(i as int) == v@);
    }
    while i > 0
        invariant
            i <= v@.len(),
            forall|j: int| i <= j < v@.len() ==> v@[j].0@ != name@,
            ref_index_map(v@).contains_key(name@) <==> ref_index_map(v@.take(i as int)).contains_key(name@),
            ref_index_map(v@).contains_key(name@) ==> ref_index_map(v@)[name@] == ref_index_map(
                v@.take(i as int),
            )[name@],
        decreases i,
    {
        proof {
            assert(v@.take(i as int).drop_last() == v@.take(i - 1));
        }
        if str_eq(v[i - 1].0.as_str(), name) {
            return Some(v[i - 1].1);
        }
        i -= 1;
    }
    proof {
        assert(v@.take(0) == Seq::<(String, usize)>::empty());
    }
    None
}

/// The ref rows without any entry for `name`.
fn remove_ref_row(v: &Vec<(String, usize)>, name: &str) -> (r: Vec<(String, usize)>)
    ensures
        ref_index_map(r@) == ref_index_map(v@).remove(name@),
{
    let mut out: Vec<(String, usize)> = Vec::new();
    let mut i: usize = 0;
    while i < v.len()
        invariant
            i <= v@.len(),
            ref_index_map(out@) == ref_index_map(v@.take(i as int)).remove(name@),
        decreases v@.len() - i,
    {
        proof {
            assert(v@.take(i + 1).drop_last() == v@.take(i as int));
        }
        if !str_eq(v[i].0.as_str(), name) {
            let e = (v[i].0.clone(), v[i].1);
            let ghost prev = out@;
            out.push(e);
            proof {
                assert(out@.drop_last() == prev);
                assert(ref_index_map(out@) =~= ref_index_map(v@.take(i + 1)).remove(name@));
            }
        } else {
            proof {
                assert(ref_index_map(out@) =~= ref_index_map(v@.take(i + 1)).remove(name@));
            }
        }
        i += 1;
    }
    proof {
        assert(v@.take(i as int) == v@);
    }
    out
}

/// The widths of the graph, marker, name, hash and date columns for a list
/// `width` cells wide: the name, then the date, then the hash column are
/// dropped while the row would not fit.
pub fn calc_cell_widths(graph_cell_width: u16, width: u16, subject_min_width: u16, name_width: u16, date_width: u16) -> (r: (u16, u16, u16, u16, u16))
    requires
        graph_cell_width + 1 + (name_width + 2) + 9 + (date_width + 2) + subject_min_width <= u16::MAX,
    ensures
        ({
            let name0 = name_width + 2;
            let date0 = date_width + 2;
            let t0 = graph_cell_width + 1 + 9 + name0 + date0 + subject_min_width;
            let t1 = if t0 > width { t0 - name0 } else { t0 };
            let t2 = if t1 > width { t1 - date0 } else { t1 };
            &&& r.0 == graph_cell_width
            &&& r.1 == 1
            &&& r.2 == if t0 > width { 0int } else { name0 }
            &&& r.4 == if t1 > width { 0int } else { date0 }
            &&& r.3 == if t2 > width { 0int } else { 9int }
        }),
{
    let pad: u16 = 2;
    let marker_cell_width: u16 = 1;
    let mut name_cell_width = name_width + pad;
    let mut hash_cell_width: u16 = 7 + pad;
    let mut date_cell_width = date_width + pad;
    let mut total_width = graph_cell_width + marker_cell_width + hash_cell_width + name_cell_width + date_cell_width
        + subject_min_width;
    if total_width > width {
        total_width = total_width - name_cell_width;
        name_cell_width = 0;
    }
    if total_width > width {
        total_width = total_width - date_cell_width;
        date_cell_width = 0;
    }
    if total_width > width {
        hash_cell_width = 0;
    }
    (graph_cell_width, marker_cell_width, name_cell_width, hash_cell_width, date_cell_width)
}

// ---------------------------------------------------------------------------
// The search state machine
// ---------------------------------------------------------------------------

/// How many of the first `n` rows matched.
pub open spec fn count_matched(ms: Seq<SearchMatch>, n: int) -> int
    decreases n,
{
    if n <= 0 {
        0
    } else {
        count_matched(ms, n - 1) + if search_matched(ms[n - 1]) { 1int } else { 0int }
    }
}

/// `ms` holds, row by row, what searching `query` finds in `commits`, and
/// numbers the matching rows from 1 in order.
pub open spec fn fresh_matches(commits: Seq<CommitInfo>, query: Seq<char>, ignore_case: bool, fuzzy: bool, ms: Seq<SearchMatch>) -> bool {
    &&& ms.len() == commits.len()
    &&& forall|i: int|
        0 <= i < ms.len() ==> is_search_match_of(
            #[trigger] ms[i],
            commits[i].commit_spec(),
            commits[i].refs_spec(),
            query,
            ignore_case,
            fuzzy,
        ) && ms[i].match_index == if search_matched(ms[i]) {
            count_matched(ms, i) + 1
        } else {
            0
        }
}

/// `ms` is `old` with every match forgotten and the numbers kept.
pub open spec fn cleared_matches(old: Seq<SearchMatch>, ms: Seq<SearchMatch>) -> bool {
    &&& ms.len() == old.len()
    &&& forall|i: int| 0 <= i < ms.len() ==> !search_matched(#[trigger] ms[i]) && ms[i].match_index == old[i].match_index
}

/// Row `k` steps after `current`, wrapping around a list of `total` rows.
pub open spec fn step_forward(current: int, k: int, total: int) -> int {
    if current + k < total {
        current + k
    } else {
        current + k - total
    }
}

/// Row `k` steps before `current`, wrapping around.
pub open spec fn step_back(current: int, k: int, total: int) -> int {
    if current >= k {
        current - k
    } else {
        current + total - k
    }
}

/// The first matching row found going forward from `current` (wrapping,
/// `current` itself excluded), trying steps `k` onwards.
pub open spec fn next_match_from(ms: Seq<SearchMatch>, total: int, current: int, k: int) -> Option<int>
    decreases total - k,
{
    if k >= total || k < 1 {
        None
    } else if search_matched(ms[step_forward(current, k, total)]) {
        Some(step_forward(current, k, total))
    } else {
        next_match_from(ms, total, current, k + 1)
    }
}

/// The first matching row found going backward from `current` (wrapping,
/// `current` itself excluded), trying steps `k` onwards.
pub open spec fn prev_match_from(ms: Seq<SearchMatch>, total: int, current: int, k: int) -> Option<int>
    decreases total - k,
{
    if k >= total || k < 1 {
        None
    } else if search_matched(ms[step_back(current, k, total)]) {
        Some(step_back(current, k, total))
    } else {
        prev_match_from(ms, total, current, k + 1)
    }
}

impl CommitListState {
    /// The selection moved to `target` as `select_index` moves it, and the
    /// search state took that row's match number; nothing when no row.
    pub open spec fn moved_to_match(&self, f: Self, target: Option<int>) -> bool {
        match target {
            Some(j) => self.jumped_to(f, j) && f.search() == with_match_index(self.search(), self.matches()[j].match_index),
            None => f.selected() == self.selected() && f.offset() == self.offset() && f.search() == self.search(),
        }
    }

    /// Everything but the selection and the search state is as in `other`.
    pub open spec fn same_but_selection_and_search(&self, other: &Self) -> bool {
        &&& self.commits_spec() == other.commits_spec()
        &&& self.graph_cell_width() == other.graph_cell_width()
        &&& self.head_spec() == other.head_spec()
        &&& self.ref_entries() == other.ref_entries()
        &&& self.query() == other.query()
        &&& self.matches() == other.matches()
        &&& self.total() == other.total()
        &&& self.height() == other.height()
        &&& self.default_ignore_case() == other.default_ignore_case()
        &&& self.default_fuzzy() == other.default_fuzzy()
    }

    pub fn search_state(&self) -> (s: SearchState)
        ensures
            s == self.search(),
    {
        self.search_state
    }

    fn select_next_match_index(&mut self, current_index: usize)
        requires
            old(self).wf(),
            current_index < old(self).total(),
        ensures
            final(self).wf(),
            final(self).same_but_selection_and_search(old(self)),
            old(self).moved_to_match(
                *final(self),
                next_match_from(old(self).matches(), old(self).total() as int, current_index as int, 1),
            ),
    {
        let total = self.total;
        let mut i: usize = if current_index + 1 < total { current_index + 1 } else { 0 };
        let ghost mut k: int = 1;
        while i != current_index
            invariant
                self.wf(),
                *self == *old(self),
                total == self.total(),
                current_index < total,
                1 <= k <= total,
                i == step_forward(current_index as int, k, total as int) || (k == total && i == current_index),
                k < total ==> i < total,
                i != current_index ==> k < total,
                next_match_from(self.matches(), total as int, current_index as int, 1) == next_match_from(
                    self.matches(),
                    total as int,
                    current_index as int,
                    k,
                ),
            decreases total - k,
        {
            if self.search_matches[i].matched() {
                let mi = self.search_matches[i].match_index;
                self.select_index(i);
                self.search_state.update_match_index(mi);
                return;
            }
            i = if i == total - 1 { 0 } else { i + 1 };
            proof {
                k = k + 1;
            }
        }
    }

    fn select_prev_match_index(&mut self, current_index: usize)
        requires
            old(self).wf(),
            current_index < old(self).total(),
        ensures
            final(self).wf(),
            final(self).same_but_selection_and_search(old(self)),
            old(self).moved_to_match(
                *final(self),
                prev_match_from(old(self).matches(), old(self).total() as int, current_index as int, 1),
            ),
    {
        let total = self.total;
        let mut i: usize = if current_index > 0 { current_index - 1 } else { total - 1 };
        let ghost mut k: int = 1;
        while i != current_index
            invariant
                self.wf(),
                *self == *old(self),
                total == self.total(),
                current_index < total,
                1 <= k <= total,
                i == step_back(current_index as int, k, total as int) || (k == total && i == current_index),
                k < total ==> i < total,
                i != current_index ==> k < total,
                prev_match_from(self.matches(), total as int, current_index as int, 1) == prev_match_from(
                    self.matches(),
                    total as int,
                    current_index as int,
                    k,
                ),
            decreases total - k,
        {
            if self.search_matches[i].matched() {
                let mi = self.search_matches[i].match_index;
                self.select_index(i);
                self.search_state.update_match_index(mi);
                return;
            }
            i = if i == 0 { total - 1 } else { i - 1 };
            proof {
                k = k + 1;
            }
        }
    }

    /// Moves to the next matching commit after the selected one.
    pub fn select_next_match(&mut self)
        requires
            old(self).wf(),
            old(self).index() < old(self).total(),
        ensures
            select_next_match_step(*old(self), *final(self)),
    {
        let current = self.offset + self.selected;
        self.select_next_match_index(current);
    }

    /// Moves to the previous matching commit before the selected one.
    pub fn select_prev_match(&mut self)
        requires
            old(self).wf(),
            old(self).index() < old(self).total(),
        ensures
            select_prev_match_step(*old(self), *final(self)),
    {
        let current = self.offset + self.selected;
        self.select_prev_match_index(current);
    }

    /// Stays on `current_index` when it matches, else moves to the next match.
    fn select_current_or_next_match_index(&mut self, current_index: usize)
        requires
            old(self).wf(),
            current_index < old(self).total(),
        ensures
            final(self).wf(),
            final(self).same_but_selection_and_search(old(self)),
            old(self).moved_to_match(
                *final(self),
                if search_matched(old(self).matches()[current_index as int]) {
                    Some(current_index as int)
                } else {
                    next_match_from(old(self).matches(), old(self).total() as int, current_index as int, 1)
                },
            ),
    {
        if self.search_matches[current_index].matched() {
            let mi = self.search_matches[current_index].match_index;
            self.select_index(current_index);
            self.search_state.update_match_index(mi);
        } else {
            self.select_next_match_index(current_index);
        }
    }
}

/// What `start_search` does to the list.
pub open spec fn start_search_step(o: CommitListState, f: CommitListState) -> bool {
    &&& (f.wf())
    &&& (f.same_but_search(&o))
    &&& (o.search() is Searching ==> f == o)
   
        &&& (!(o.search() is Searching) ==> {
        &&& f.search() == SearchState::Searching { start_index: o.index() as usize, match_index: 0, ignore_case: o.default_ignore_case(), fuzzy: o.default_fuzzy(), transient_message: TransientMessage::Nothing, }
        &&& f.query().len() == 0
        &&& cleared_matches(o.matches(), f.matches()) })
}

/// What `handle_search_input` does to the list.
pub open spec fn handle_search_input_step(o: CommitListState, f: CommitListState, query: Seq<char>) -> bool {
    &&& (f.wf())
    &&& (f.same_rows(&o))
   
        &&& (match o.search() { SearchState::Searching { start_index, match_index, ignore_case, fuzzy, .. } => { let cleared = SearchState::Searching { start_index, match_index, ignore_case, fuzzy, transient_message: TransientMessage::Nothing, }; let ms = f.matches();
        &&& f.query() == query
        &&& fresh_matches(f.commits_spec(), query, ignore_case, fuzzy, ms)
        &&& ({ let target = if search_matched(ms[start_index as int]) { Some(start_index as int) } else { next_match_from(ms, f.total() as int, start_index as int, 1) }; match target { Some(j) => o.jumped_to(f, j) && f.search() == with_match_index(cleared, ms[j].match_index), None => f.selected() == o.selected() && f.offset() == o.offset() && f.search() == cleared, } }) }, _ => f == o, })
}

/// What `apply_search` does to the list.
pub open spec fn apply_search_step(o: CommitListState, f: CommitListState) -> bool {
    &&& (f.wf())
    &&& (f.same_but_search(&o))
    &&& (f.query() == o.query())
    &&& (f.matches() == o.matches())
   
        &&& (match o.search() { SearchState::Searching { match_index, .. } => if o.query().len() == 0 { f.search() == SearchState::Inactive } else { f.search() == SearchState::Applied { match_index, total_match: count_matched(o.matches(), o.total() as int) as usize, } }, _ => f.search() == o.search(), })
}

/// What `cancel_search` does to the list.
pub open spec fn cancel_search_step(o: CommitListState, f: CommitListState) -> bool {
    &&& (f.wf())
    &&& (f.same_but_search(&o))
    &&& (o.search() is Inactive ==> f == o)
   
        &&& (!(o.search() is Inactive) ==> {
        &&& f.search() == SearchState::Inactive
        &&& f.query().len() == 0
        &&& cleared_matches(o.matches(), f.matches()) })
}

/// What `toggle_ignore_case` does to the list.
pub open spec fn toggle_ignore_case_step(o: CommitListState, f: CommitListState) -> bool {
    &&& (f.wf())
    &&& (f.same_rows(&o))
    &&& (f.query() == o.query())
   
        &&& (match o.search() { SearchState::Searching { start_index, match_index, ignore_case, fuzzy, .. } => { let toggled = SearchState::Searching { start_index, match_index, ignore_case: !ignore_case, fuzzy, transient_message: if !ignore_case { TransientMessage::IgnoreCaseOn } else { TransientMessage::IgnoreCaseOff }, }; let ms = f.matches();
        &&& fresh_matches(f.commits_spec(), o.query(), !ignore_case, fuzzy, ms)
        &&& ({ let target = if search_matched(ms[start_index as int]) { Some(start_index as int) } else { next_match_from(ms, f.total() as int, start_index as int, 1) }; match target { Some(j) => o.jumped_to(f, j) && f.search() == with_match_index(toggled, ms[j].match_index), None => f.selected() == o.selected() && f.offset() == o.offset() && f.search() == toggled, } }) }, _ => f == o, })
}

/// What `toggle_fuzzy` does to the list.
pub open spec fn toggle_fuzzy_step(o: CommitListState, f: CommitListState) -> bool {
    &&& (f.wf())
    &&& (f.same_rows(&o))
    &&& (f.query() == o.query())
   
        &&& (match o.search() { SearchState::Searching { start_index, match_index, ignore_case, fuzzy, .. } => { let toggled = SearchState::Searching { start_index, match_index, ignore_case, fuzzy: !fuzzy, transient_message: if !fuzzy { TransientMessage::FuzzyOn } else { TransientMessage::FuzzyOff }, }; let ms = f.matches();
        &&& fresh_matches(f.commits_spec(), o.query(), ignore_case, !fuzzy, ms)
        &&& ({ let target = if search_matched(ms[start_index as int]) { Some(start_index as int) } else { next_match_from(ms, f.total() as int, start_index as int, 1) }; match target { Some(j) => o.jumped_to(f, j) && f.search() == with_match_index(toggled, ms[j].match_index), None => f.selected() == o.selected() && f.offset() == o.offset() && f.search() == toggled, } }) }, _ => f == o, })
}

/// What `select_next_match` does to the list.
pub open spec fn select_next_match_step(o: CommitListState, f: CommitListState) -> bool {
    &&& (f.wf())
    &&& (f.same_but_selection_and_search(&o))
    &&& (o.moved_to_match( f, next_match_from(o.matches(), o.total() as int, o.index(), 1), ))
}

/// What `select_prev_match` does to the list.
pub open spec fn select_prev_match_step(o: CommitListState, f: CommitListState) -> bool {
    &&& (f.wf())
    &&& (f.same_but_selection_and_search(&o))
    &&& (o.moved_to_match( f, prev_match_from(o.matches(), o.total() as int, o.index(), 1), ))
}

/// The count of matching rows depends only on the rows counted.
proof fn lemma_count_matched_prefix(a: Seq<SearchMatch>, b: Seq<SearchMatch>, n: int)
    requires
        0 <= n <= a.len(),
        n <= b.len(),
        forall|i: int| 0 <= i < n ==> a[i] == b[i],
    ensures
        count_matched(a, n) == count_matched(b, n),
    decreases n,
{
    if n > 0 {
        lemma_count_matched_prefix(a, b, n - 1);
    }
}

proof fn lemma_count_matched_bound(a: Seq<SearchMatch>, n: int)
    requires
        0 <= n,
    ensures
        0 <= count_matched(a, n) <= n,
    decreases n,
{
    if n > 0 {
        lemma_count_matched_bound(a, n - 1);
    }
}

/// The message shown after a search was applied.
pub open spec fn applied_message(match_index: usize, total_match: usize, query: Seq<char>) -> (Seq<char>, bool) {
    if total_match == 0 {
        ("No matches found (query: \""@ + query + "\")"@, false)
    } else {
        ("Match "@ + decimal(match_index as nat) + " of "@ + decimal(total_match as nat) + " (query: \""@ + query
            + "\")"@, true)
    }
}

/// The notice a transient message shows.
pub open spec fn transient_text(m: TransientMessage) -> Option<Seq<char>> {
    match m {
        TransientMessage::Nothing => None,
        TransientMessage::IgnoreCaseOn => Some("Ignore case: ON "@),
        TransientMessage::IgnoreCaseOff => Some("Ignore case: OFF"@),
        TransientMessage::FuzzyOn => Some("Fuzzy match: ON "@),
        TransientMessage::FuzzyOff => Some("Fuzzy match: OFF"@),
    }
}

impl CommitListState {
    /// Everything but the search state, the query and the matches is as in
    /// `other`.
    pub open spec fn same_but_search(&self, other: &Self) -> bool {
        &&& self.commits_spec() == other.commits_spec()
        &&& self.graph_cell_width() == other.graph_cell_width()
        &&& self.head_spec() == other.head_spec()
        &&& self.ref_entries() == other.ref_entries()
        &&& self.total() == other.total()
        &&& self.height() == other.height()
        &&& self.selected() == other.selected()
        &&& self.offset() == other.offset()
        &&& self.default_ignore_case() == other.default_ignore_case()
        &&& self.default_fuzzy() == other.default_fuzzy()
    }

    /// Everything but the selection, the search state, the query and the
    /// matches is as in `other`.
    pub open spec fn same_rows(&self, other: &Self) -> bool {
        &&& self.commits_spec() == other.commits_spec()
        &&& self.graph_cell_width() == other.graph_cell_width()
        &&& self.head_spec() == other.head_spec()
        &&& self.ref_entries() == other.ref_entries()
        &&& self.total() == other.total()
        &&& self.height() == other.height()
        &&& self.default_ignore_case() == other.default_ignore_case()
        &&& self.default_fuzzy() == other.default_fuzzy()
    }

    /// Searches the query in every commit and numbers the matches.
    fn update_search_matches(&mut self, ignore_case: bool, fuzzy: bool)
        requires
            old(self).wf(),
        ensures
            final(self).wf(),
            final(self).same_but_search(old(self)),
            final(self).search() == old(self).search(),
            final(self).query() == old(self).query(),
            fresh_matches(final(self).commits_spec(), final(self).query(), ignore_case, fuzzy, final(self).matches()),
    {
        let n = self.commits.len();
        let mut out: Vec<SearchMatch> = Vec::new();
        let mut counter: usize = 1;
        let mut i: usize = 0;
        while i < n
            invariant
                self.wf(),
                *self == *old(self),
                n == self.total(),
                i <= n,
                out@.len() == i,
                counter == count_matched(out@, i as int) + 1,
                forall|j: int|
                    0 <= j < i ==> is_search_match_of(
                        #[trigger] out@[j],
                        self.commits_spec()[j].commit_spec(),
                        self.commits_spec()[j].refs_spec(),
                        self.query(),
                        ignore_case,
                        fuzzy,
                    ) && out@[j].match_index == if search_matched(out@[j]) {
                        count_matched(out@, j) + 1
                    } else {
                        0
                    },
            decreases n - i,
        {
            let info = &self.commits[i];
            let mut m = SearchMatch::new(&info.commit, &info.refs, self.search_query.as_str(), ignore_case, fuzzy);
            proof {
                lemma_count_matched_bound(out@, i as int);
            }
            if m.matched() {
                m.match_index = counter;
                counter += 1;
            }
            let ghost prev = out@;
            out.push(m);
            proof {
                assert forall|j: int| 0 <= j <= i implies count_matched(out@, j) == count_matched(prev, j) by {
                    lemma_count_matched_prefix(out@, prev, j);
                }
                assert(count_matched(out@, i + 1) == count_matched(prev, i as int) + if search_matched(m) { 1int } else { 0int });
                assert forall|j: int| 0 <= j < i + 1 implies is_search_match_of(
                    #[trigger] out@[j],
                    self.commits_spec()[j].commit_spec(),
                    self.commits_spec()[j].refs_spec(),
                    self.query(),
                    ignore_case,
                    fuzzy,
                ) && out@[j].match_index == if search_matched(out@[j]) {
                    count_matched(out@, j) + 1
                } else {
                    0
                } by {
                    if j < i {
                        assert(out@[j] == prev[j]);
                    }
                }
            }
            i += 1;
        }
        self.search_matches = out;
    }

    /// Forgets every match.
    fn clear_search_matches(&mut self)
        requires
            old(self).wf(),
        ensures
            final(self).wf(),
            final(self).same_but_search(old(self)),
            final(self).search() == old(self).search(),
            final(self).query() == old(self).query(),
            cleared_matches(old(self).matches(), final(self).matches()),
    {
        let n = self.search_matches.len();
        let mut out: Vec<SearchMatch> = Vec::new();
        let mut i: usize = 0;
        while i < n
            invariant
                self.wf(),
                *self == *old(self),
                n == self.matches().len(),
                i <= n,
                out@.len() == i,
                forall|j: int| 0 <= j < i ==> !search_matched(#[trigger] out@[j]) && out@[j].match_index == self.matches()[j].match_index,
            decreases n - i,
        {
            let mut m = SearchMatch::default();
            m.match_index = self.search_matches[i].match_index;
            out.push(m);
            i += 1;
        }
        self.search_matches = out;
    }

    /// Starts a new search from the selected commit, unless one is being
    /// typed.
    pub fn start_search(&mut self)
        requires
            old(self).wf(),
            old(self).index() < old(self).total(),
        ensures
            start_search_step(*old(self), *final(self)),
    {
        match self.search_state {
            SearchState::Searching { .. } => {},
            _ => {
                self.search_state = SearchState::Searching {
                    start_index: self.offset + self.selected,
                    match_index: 0,
                    ignore_case: self.default_ignore_case,
                    fuzzy: self.default_fuzzy,
                    transient_message: TransientMessage::Nothing,
                };
                self.search_query = String::new();
                self.clear_search_matches();
            },
        }
    }

    /// Takes the query as typed so far: searches it and moves to the first
    /// match from where the search started.
    pub fn handle_search_input(&mut self, query: &str)
        requires
            old(self).wf(),
        ensures
            handle_search_input_step(*old(self), *final(self), query@),
    {
        match self.search_state {
            SearchState::Searching { start_index, match_index, ignore_case, fuzzy, .. } => {
                self.search_state = SearchState::Searching {
                    start_index,
                    match_index,
                    ignore_case,
                    fuzzy,
                    transient_message: TransientMessage::Nothing,
                };
                self.search_query = query.to_owned();
                self.update_search_matches(ignore_case, fuzzy);
                self.select_current_or_next_match_index(start_index);
            },
            _ => {},
        }
    }

    /// Ends typing: an empty query ends the search, else the matches stay
    /// and their count is kept.
    pub fn apply_search(&mut self)
        requires
            old(self).wf(),
        ensures
            apply_search_step(*old(self), *final(self)),
    {
        match self.search_state {
            SearchState::Searching { match_index, .. } => {
                if self.search_query.as_str().is_empty() {
                    self.search_state = SearchState::Inactive;
                } else {
                    let n = self.search_matches.len();
                    let mut total_match: usize = 0;
                    let mut i: usize = 0;
                    while i < n
                        invariant
                            n == self.matches().len(),
                            i <= n,
                            total_match == count_matched(self.matches(), i as int),
                        decreases n - i,
                    {
                        proof {
                            lemma_count_matched_bound(self.matches(), i as int);
                        }
                        if self.search_matches[i].matched() {
                            total_match += 1;
                        }
                        i += 1;
                    }
                    self.search_state = SearchState::Applied { match_index, total_match };
                }
            },
            _ => {},
        }
    }

    /// Leaves the search: no query, no matches.
    pub fn cancel_search(&mut self)
        requires
            old(self).wf(),
        ensures
            cancel_search_step(*old(self), *final(self)),
    {
        match self.search_state {
            SearchState::Inactive => {},
            _ => {
                self.search_state = SearchState::Inactive;
                self.search_query = String::new();
                self.clear_search_matches();
            },
        }
    }

    /// The query line shown while typing: `/` and the query.
    pub fn search_query_string(&self) -> (r: Option<String>)
        ensures
            self.search() is Searching ==> r is Some && r->0@ == seq!['/'] + self.query(),
            !(self.search() is Searching) ==> r is None,
    {
        match self.search_state {
            SearchState::Searching { .. } => {
                let mut s = String::new();
                s.append("/");
                s.append(self.search_query.as_str());
                proof {
                    reveal_strlit("/");
                }
                Some(s)
            },
            _ => None,
        }
    }

    /// The status shown once a search is applied, and whether anything
    /// matched.
    pub fn matched_query_string(&self) -> (r: Option<(String, bool)>)
        ensures
            match self.search() {
                SearchState::Applied { match_index, total_match } => r is Some && (r->0).0@ == applied_message(
                    match_index,
                    total_match,
                    self.query(),
                ).0 && (r->0).1 == applied_message(match_index, total_match, self.query()).1,
                _ => r is None,
            },
    {
        match self.search_state {
            SearchState::Applied { match_index, total_match } => {
                let mut s = String::new();
                if total_match == 0 {
                    s.append("No matches found (query: \"");
                    s.append(self.search_query.as_str());
                    s.append("\")");
                    Some((s, false))
                } else {
                    s.append("Match ");
                    s.append(decimal_string(match_index as u64).as_str());
                    s.append(" of ");
                    s.append(decimal_string(total_match as u64).as_str());
                    s.append(" (query: \"");
                    s.append(self.search_query.as_str());
                    s.append("\")");
                    Some((s, true))
                }
            },
            _ => None,
        }
    }

    /// The notice left by the last change of a search option.
    pub fn transient_message_string(&self) -> (r: Option<String>)
        ensures
            match self.search() {
                SearchState::Searching { transient_message, .. } => match transient_text(transient_message) {
                    Some(t) => r is Some && r->0@ == t,
                    None => r is None,
                },
                _ => r is None,
            },
    {
        match self.search_state {
            SearchState::Searching { transient_message, .. } => match transient_message {
                TransientMessage::Nothing => None,
                TransientMessage::IgnoreCaseOn => Some("Ignore case: ON ".to_owned()),
                TransientMessage::IgnoreCaseOff => Some("Ignore case: OFF".to_owned()),
                TransientMessage::FuzzyOn => Some("Fuzzy match: ON ".to_owned()),
                TransientMessage::FuzzyOff => Some("Fuzzy match: OFF".to_owned()),
            },
            _ => None,
        }
    }
}

impl CommitListState {
    /// Flips case sensitivity of the running search, notes it, searches again and
    /// moves to the first match from where the search started.
    pub fn toggle_ignore_case(&mut self)
        requires
            old(self).wf(),
        ensures
            toggle_ignore_case_step(*old(self), *final(self)),
    {
        match self.search_state {
            SearchState::Searching { start_index, match_index, ignore_case, fuzzy, .. } => {
                let flipped = !ignore_case;
                self.search_state = SearchState::Searching {
                    start_index,
                    match_index,
                    ignore_case: flipped,
                    fuzzy,
                    transient_message: if flipped {
                        TransientMessage::IgnoreCaseOn
                    } else {
                        TransientMessage::IgnoreCaseOff
                    },
                };
                self.update_search_matches(flipped, fuzzy);
                self.select_current_or_next_match_index(start_index);
            },
            _ => {},
        }
    }
}

impl CommitListState {
    /// Flips fuzzy matching of the running search, notes it, searches again and
    /// moves to the first match from where the search started.
    pub fn toggle_fuzzy(&mut self)
        requires
            old(self).wf(),
        ensures
            toggle_fuzzy_step(*old(self), *final(self)),
    {
        match self.search_state {
            SearchState::Searching { start_index, match_index, ignore_case, fuzzy, .. } => {
                let flipped = !fuzzy;
                self.search_state = SearchState::Searching {
                    start_index,
                    match_index,
                    ignore_case,
                    fuzzy: flipped,
                    transient_message: if flipped {
                        TransientMessage::FuzzyOn
                    } else {
                        TransientMessage::FuzzyOff
                    },
                };
                self.update_search_matches(ignore_case, flipped);
                self.select_current_or_next_match_index(start_index);
            },
            _ => {},
        }
    }
}

impl CommitListState {
    /// The rows of the list.
    pub fn commit_infos(&self) -> (r: &Vec<CommitInfo>)
        ensures
            r@ == self.commits_spec(),
    {
        &self.commits
    }

    /// The search result of each row.
    pub fn search_matches(&self) -> (r: &Vec<SearchMatch>)
        ensures
            r@ == self.matches(),
    {
        &self.search_matches
    }

    /// Where HEAD points.
    pub fn head(&self) -> (h: &Head)
        ensures
            *h == self.head_spec(),
    {
        &self.head
    }

    /// The query typed so far.
    pub fn search_query(&self) -> (r: &str)
        ensures
            r@ == self.query(),
    {
        self.search_query.as_str()
    }

    /// The selected row within the window.
    pub fn selected_in_window(&self) -> (r: usize)
        ensures
            r == self.selected(),
    {
        self.selected
    }

    /// The first row of the window.
    pub fn window_offset(&self) -> (r: usize)
        ensures
            r == self.offset(),
    {
        self.offset
    }

    /// The height of the window.
    pub fn window_height(&self) -> (r: usize)
        ensures
            r == self.height(),
    {
        self.height
    }

    /// The number of rows.
    pub fn total_rows(&self) -> (r: usize)
        ensures
            r == self.total(),
    {
        self.total
    }
}

/// The list state `f` is `o` with `new_ref` recorded on the first commit
/// whose hash is `h`: that commit keeps its data and gains the ref among its
/// sorted refs, the ref's name now leads to its row, and the rest of the list,
/// the window and the search stay as they were. Where no commit has hash `h`,
/// nothing changes.
pub open spec fn ref_added(o: CommitListState, f: CommitListState, h: Seq<char>, new_ref: Ref) -> bool {
    &&& f.wf()
    &&& f.total() == o.total()
    &&& f.selected() == o.selected()
    &&& f.offset() == o.offset()
    &&& f.height() == o.height()
    &&& f.search() == o.search()
    &&& f.matches() == o.matches()
    &&& if exists|i: int| 0 <= i < o.total() && o.hash_at(i) == h {
        exists|i: int|
            0 <= i < o.total() && o.hash_at(i) == h && (forall|j: int| 0 <= j < i ==> o.hash_at(j) != h)
                && f.ref_rows() == o.ref_rows().insert(ref_name(new_ref), i as usize)
                && f.commits_spec().len() == o.commits_spec().len() && (forall|j: int|
                0 <= j < o.total() && j != i ==> f.commits_spec()[j] == o.commits_spec()[j])
                && f.commits_spec()[i].commit_spec() == o.commits_spec()[i].commit_spec()
                && refs_sorted(f.commits_spec()[i].refs_spec())
                && f.commits_spec()[i].refs_spec().to_multiset() == o.commits_spec()[i].refs_spec().push(
                new_ref,
            ).to_multiset()
    } else {
        f.ref_rows() == o.ref_rows() && f.commits_spec() == o.commits_spec()
    }
}

/// The list state `f` is `o` with every ref named `name` dropped from the
/// first commit whose hash is `h`, and the name forgotten; the rest of the
/// list, the window and the search stay as they were. Where no commit has
/// hash `h`, nothing changes.
pub open spec fn ref_removed(o: CommitListState, f: CommitListState, h: Seq<char>, name: Seq<char>) -> bool {
    &&& f.wf()
    &&& f.total() == o.total()
    &&& f.selected() == o.selected()
    &&& f.offset() == o.offset()
    &&& f.height() == o.height()
    &&& f.search() == o.search()
    &&& f.matches() == o.matches()
    &&& if exists|i: int| 0 <= i < o.total() && o.hash_at(i) == h {
        exists|i: int|
            0 <= i < o.total() && o.hash_at(i) == h && (forall|j: int| 0 <= j < i ==> o.hash_at(j) != h)
                && f.ref_rows() == o.ref_rows().remove(name)
                && f.commits_spec().len() == o.commits_spec().len() && (forall|j: int|
                0 <= j < o.total() && j != i ==> f.commits_spec()[j] == o.commits_spec()[j])
                && f.commits_spec()[i].commit_spec() == o.commits_spec()[i].commit_spec()
                && f.commits_spec()[i].refs_spec() == o.commits_spec()[i].refs_spec().filter(
                |r: Ref| ref_name(r) != name,
            )
    } else {
        f.ref_rows() == o.ref_rows() && f.commits_spec() == o.commits_spec()
    }
}

/// The name of each ref with the row of its commit, row by row.
pub open spec fn ref_name_rows_spec(refs_by_row: Seq<Vec<Ref>>, n: int) -> Seq<(Seq<char>, usize)>
    decreases n,
{
    if n <= 0 {
        Seq::empty()
    } else {
        ref_name_rows_spec(refs_by_row, n - 1) + refs_by_row[n - 1]@.map_values(
            |r: Ref| (ref_name(r), (n - 1) as usize),
        )
    }
}

pub open spec fn name_rows_view(v: Seq<(String, usize)>) -> Seq<(Seq<char>, usize)> {
    v.map_values(|e: (String, usize)| (e.0@, e.1))
}

/// The table from ref names to rows that the commit list looks refs up
/// in: every ref of every row, in row order.
pub fn ref_name_rows(refs_by_row: &Vec<Vec<Ref>>) -> (r: Vec<(String, usize)>)
    ensures
        name_rows_view(r@) == ref_name_rows_spec(refs_by_row@, refs_by_row@.len() as int),
{
    let mut out: Vec<(String, usize)> = Vec::new();
    let mut row: usize = 0;
    while row < refs_by_row.len()
        invariant
            row <= refs_by_row@.len(),
            name_rows_view(out@) == ref_name_rows_spec(refs_by_row@, row as int),
        decreases refs_by_row@.len() - row,
    {
        let refs = &refs_by_row[row];
        let ghost base = out@;
        let mut k: usize = 0;
        while k < refs.len()
            invariant
                k <= refs@.len(),
                refs == &refs_by_row@[row as int],
                out@.len() == base.len() + k,
                name_rows_view(out@) == name_rows_view(base) + refs@.take(k as int).map_values(
                    |r: Ref| (ref_name(r), row),
                ),
            decreases refs@.len() - k,
        {
            let name = String::from_str(refs[k].name());
            let ghost before = out@;
            out.push((name, row));
            proof {
                assert(refs@.take(k + 1) == refs@.take(k as int).push(refs@[k as int]));
                assert(name_rows_view(out@) =~= name_rows_view(before).push((ref_name(refs@[k as int]), row)));
                assert(name_rows_view(out@) =~= name_rows_view(base) + refs@.take(k + 1).map_values(
                    |r: Ref| (ref_name(r), row),
                ));
            }
            k += 1;
        }
        proof {
            assert(refs@.take(refs@.len() as int) == refs@);
            assert(ref_name_rows_spec(refs_by_row@, row + 1) == ref_name_rows_spec(refs_by_row@, row as int)
                + refs_by_row@[row as int]@.map_values(|r: Ref| (ref_name(r), row)));
        }
        row += 1;
    }
    out
}

} // verus!
