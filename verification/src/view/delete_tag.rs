use vstd::prelude::*;

use crate::event::{is_digit, parse_u64, parse_u64_spec, AppEvent, UserEvent};
use crate::git::{CommitHash, Ref, RefOperation};
use crate::view::delete_ref::{failed_events, remote_tag_failure, RefJobStep};
use crate::text::{chars_of, lemma_seq_lt_irreflexive, lemma_seq_lt_total, lemma_seq_lt_transitive, lex_lt, seq_lt, slice_chars, split_at_char, split_chars, str_eq, string_from_chars};
use std::cmp::Ordering;

verus! {

/// `s` without one leading `v`.
pub open spec fn strip_v(s: Seq<char>) -> Seq<char> {
    if s.len() > 0 && s[0] == 'v' {
        s.skip(1)
    } else {
        s
    }
}

/// The number of ASCII digits `s` starts with.
pub open spec fn leading_digits(s: Seq<char>) -> nat
    decreases s.len(),
{
    if s.len() == 0 || !is_digit(s[0]) {
        0
    } else {
        1 + leading_digits(s.skip(1))
    }
}

/// The version a tag names: `major.minor.patch` read as numbers, with what
/// follows the patch digits kept as text; an optional leading `v` and any
/// pieces after the third are ignored. Nothing when the tag is not of that
/// form.
pub open spec fn tag_version(s: Seq<char>) -> Option<(u64, u64, u64, Seq<char>)> {
    let parts = split_chars(strip_v(s), '.');
    if parts.len() >= 3 {
        let k = leading_digits(parts[2]) as int;
        match (parse_u64_spec(parts[0]), parse_u64_spec(parts[1]), parse_u64_spec(parts[2].take(k))) {
            (Some(major), Some(minor), Some(patch)) => Some((major, minor, patch, parts[2].skip(k))),
            _ => None,
        }
    } else {
        None
    }
}

/// Versions in the order of their numbers, then of their suffixes.
pub open spec fn version_lt(a: (u64, u64, u64, Seq<char>), b: (u64, u64, u64, Seq<char>)) -> bool {
    a.0 < b.0 || (a.0 == b.0 && (a.1 < b.1 || (a.1 == b.1 && (a.2 < b.2 || (a.2 == b.2 && seq_lt(a.3, b.3))))))
}

/// How two tag names are listed: versions first, in ascending order; then
/// the other names in text order.
pub open spec fn tag_order(a: Seq<char>, b: Seq<char>) -> Ordering {
    match (tag_version(a), tag_version(b)) {
        (Some(va), Some(vb)) => if version_lt(va, vb) {
            Ordering::Less
        } else if va == vb {
            Ordering::Equal
        } else {
            Ordering::Greater
        },
        (Some(_), None) => Ordering::Less,
        (None, Some(_)) => Ordering::Greater,
        (None, None) => if seq_lt(a, b) {
            Ordering::Less
        } else if a == b {
            Ordering::Equal
        } else {
            Ordering::Greater
        },
    }
}

fn count_leading_digits(s: &Vec<char>) -> (k: usize)
    ensures
        k == leading_digits(s@),
        k <= s@.len(),
{
    let mut k: usize = 0;
    proof {
        assert(s@.skip(0) == s@);
    }
    while k < s.len() && '0' <= s[k] && s[k] <= '9'
        invariant
            k <= s@.len(),
            leading_digits(s@) == k + leading_digits(s@.skip(k as int)),
        decreases s@.len() - k,
    {
        proof {
            assert(s@.skip(k as int).skip(1) == s@.skip(k + 1));
        }
        k += 1;
    }
    k
}

/// The version `s` names, as `tag_version` reads it.
pub fn parse_tag_version(s: &str) -> (r: Option<(u64, u64, u64, Vec<char>)>)
    ensures
        match tag_version(s@) {
            Some(v) => r matches Some(x) && x.0 == v.0 && x.1 == v.1 && x.2 == v.2 && x.3@ == v.3,
            None => r is None,
        },
{
    let cs = chars_of(s);
    let body = if cs.len() > 0 && cs[0] == 'v' {
        slice_chars(&cs, 1, cs.len())
    } else {
        slice_chars(&cs, 0, cs.len())
    };
    proof {
        assert(body@ == strip_v(s@));
    }
    let parts = split_at_char(&body, '.');
    if parts.len() < 3 {
        return None;
    }
    let k = count_leading_digits(&parts[2]);
    let major = parse_u64(string_from_chars(&parts[0]).as_str());
    let minor = parse_u64(string_from_chars(&parts[1]).as_str());
    let patch = parse_u64(string_from_chars(&slice_chars(&parts[2], 0, k)).as_str());
    proof {
        assert(parts@[2]@.subrange(0, k as int) == parts@[2]@.take(k as int));
    }
    match (major, minor, patch) {
        (Some(a), Some(b), Some(c)) => {
            let rest = slice_chars(&parts[2], k, parts[2].len());
            proof {
                assert(parts@[2]@.subrange(k as int, parts@[2]@.len() as int) == parts@[2]@.skip(k as int));
            }
            Some((a, b, c, rest))
        },
        _ => None,
    }
}

fn chars_lt(a: &Vec<char>, b: &Vec<char>) -> (r: bool)
    ensures
        r == seq_lt(a@, b@),
{
    let x = string_from_chars(a);
    let y = string_from_chars(b);
    lex_lt(x.as_str(), y.as_str())
}

fn chars_eq(a: &Vec<char>, b: &Vec<char>) -> (r: bool)
    ensures
        r == (a@ == b@),
{
    if a.len() != b.len() {
        return false;
    }
    let mut i: usize = 0;
    while i < a.len()
        invariant
            i <= a@.len(),
            a@.len() == b@.len(),
            forall|j: int| 0 <= j < i ==> a@[j] == b@[j],
        decreases a@.len() - i,
    {
        if a[i] != b[i] {
            return false;
        }
        i += 1;
    }
    proof {
        assert(a@ =~= b@);
    }
    true
}

/// Orders two tag names for listing: semantic versions ascending and before
/// every other name, the other names in text order.
pub fn compare_semver(a: &str, b: &str) -> (r: Ordering)
    ensures
        r == tag_order(a@, b@),
{
    match (parse_tag_version(a), parse_tag_version(b)) {
        (Some(va), Some(vb)) => {
            let less = va.0 < vb.0 || (va.0 == vb.0 && (va.1 < vb.1 || (va.1 == vb.1 && (va.2 < vb.2 || (va.2 == vb.2
                && chars_lt(&va.3, &vb.3))))));
            if less {
                Ordering::Less
            } else if va.0 == vb.0 && va.1 == vb.1 && va.2 == vb.2 && chars_eq(&va.3, &vb.3) {
                Ordering::Equal
            } else {
                Ordering::Greater
            }
        },
        (Some(_), None) => Ordering::Less,
        (None, Some(_)) => Ordering::Greater,
        (None, None) => {
            if lex_lt(a, b) {
                Ordering::Less
            } else if str_eq(a, b) {
                Ordering::Equal
            } else {
                Ordering::Greater
            }
        },
    }
}

proof fn lemma_version_lt_total(a: (u64, u64, u64, Seq<char>), b: (u64, u64, u64, Seq<char>))
    ensures
        a == b || version_lt(a, b) || version_lt(b, a),
        !(version_lt(a, b) && version_lt(b, a)),
        !version_lt(a, a),
{
    lemma_seq_lt_total(a.3, b.3);
    lemma_seq_lt_irreflexive(a.3);
    if seq_lt(a.3, b.3) && seq_lt(b.3, a.3) {
        lemma_seq_lt_transitive(a.3, b.3, a.3);
    }
}

proof fn lemma_version_lt_transitive(
    a: (u64, u64, u64, Seq<char>),
    b: (u64, u64, u64, Seq<char>),
    c: (u64, u64, u64, Seq<char>),
)
    requires
        version_lt(a, b),
        version_lt(b, c),
    ensures
        version_lt(a, c),
{
    if a.0 == b.0 && b.0 == c.0 && a.1 == b.1 && b.1 == c.1 && a.2 == b.2 && b.2 == c.2 {
        lemma_seq_lt_transitive(a.3, b.3, c.3);
    }
}

/// Tag names ordered one way are ordered the other way round when swapped.
pub proof fn lemma_tag_order_swap(a: Seq<char>, b: Seq<char>)
    ensures
        (tag_order(a, b) == Ordering::Less) <==> (tag_order(b, a) == Ordering::Greater),
        (tag_order(a, b) == Ordering::Equal) <==> (tag_order(b, a) == Ordering::Equal),
{
    match (tag_version(a), tag_version(b)) {
        (Some(va), Some(vb)) => {
            lemma_version_lt_total(va, vb);
        },
        (None, None) => {
            lemma_seq_lt_total(a, b);
            lemma_seq_lt_irreflexive(a);
            if seq_lt(a, b) && seq_lt(b, a) {
                lemma_seq_lt_transitive(a, b, a);
            }
        },
        _ => {},
    }
}

/// Listing order is transitive.
pub proof fn lemma_tag_order_transitive(a: Seq<char>, b: Seq<char>, c: Seq<char>)
    requires
        tag_order(a, b) != Ordering::Greater,
        tag_order(b, c) != Ordering::Greater,
    ensures
        tag_order(a, c) != Ordering::Greater,
{
    match (tag_version(a), tag_version(b), tag_version(c)) {
        (Some(va), Some(vb), Some(vc)) => {
            lemma_version_lt_total(va, vb);
            lemma_version_lt_total(vb, vc);
            lemma_version_lt_total(va, vc);
            if version_lt(va, vb) && version_lt(vb, vc) {
                lemma_version_lt_transitive(va, vb, vc);
            }
            if version_lt(vc, va) {
                if va == vb {
                    assert(version_lt(vc, vb));
                } else if vb == vc {
                    assert(version_lt(vb, va));
                } else {
                    lemma_version_lt_transitive(vc, va, vb);
                }
            }
        },
        (None, None, None) => {
            lemma_seq_lt_total(a, b);
            lemma_seq_lt_total(b, c);
            lemma_seq_lt_total(a, c);
            if seq_lt(a, b) && seq_lt(b, c) {
                lemma_seq_lt_transitive(a, b, c);
            }
            if seq_lt(c, a) && a != c {
                if a == b {
                } else if b == c {
                } else {
                    lemma_seq_lt_transitive(c, a, b);
                    lemma_seq_lt_irreflexive(b);
                    if seq_lt(b, c) {
                        lemma_seq_lt_transitive(b, c, b);
                    }
                }
            }
        },
        _ => {},
    }
}

/// `a` is listed after `b`.
pub open spec fn tag_after(a: Seq<char>, b: Seq<char>) -> bool {
    tag_order(a, b) == Ordering::Greater
}

/// Whether `a` is listed after `b`.
pub fn listed_after(a: &str, b: &str) -> (r: bool)
    ensures
        r == tag_after(a@, b@),
{
    match compare_semver(a, b) {
        Ordering::Greater => true,
        _ => false,
    }
}

/// A name listed after another is not listed before it.
pub proof fn lemma_tag_after_asym(a: Seq<char>, b: Seq<char>)
    ensures
        tag_after(a, b) ==> !tag_after(b, a),
{
    lemma_tag_order_swap(a, b);
    lemma_tag_order_swap(b, a);
}

/// Being listed no later is transitive.
pub proof fn lemma_tag_after_transitive(a: Seq<char>, b: Seq<char>, c: Seq<char>)
    requires
        !tag_after(a, b),
        !tag_after(b, c),
    ensures
        !tag_after(a, c),
{
    lemma_tag_order_transitive(a, b, c);
}

/// Tag names in listing order.
pub open spec fn tags_sorted(s: Seq<String>) -> bool {
    forall|i: int, j: int| 0 <= i < j < s.len() ==> !tag_after((#[trigger] s[i])@, (#[trigger] s[j])@)
}

/// `x` placed into `s` after every name listed no later than it.
pub open spec fn insert_tag(s: Seq<String>, x: String) -> Seq<String>
    decreases s.len(),
{
    if s.len() > 0 && tag_after(s.last()@, x@) {
        insert_tag(s.drop_last(), x).push(s.last())
    } else {
        s.push(x)
    }
}

/// `s` sorted into listing order, names that list alike kept in the order
/// they came.
pub open spec fn sorted_tags(s: Seq<String>) -> Seq<String>
    decreases s.len(),
{
    if s.len() == 0 {
        s
    } else {
        insert_tag(sorted_tags(s.drop_last()), s.last())
    }
}

proof fn lemma_insert_tag_at(s: Seq<String>, x: String, p: int)
    requires
        0 <= p <= s.len(),
        forall|q: int| p <= q < s.len() ==> tag_after((#[trigger] s[q])@, x@),
        p == 0 || !tag_after(s[p - 1]@, x@),
    ensures
        insert_tag(s, x) == s.insert(p, x),
    decreases s.len(),
{
    if p < s.len() {
        lemma_insert_tag_at(s.drop_last(), x, p);
        assert(s.insert(p, x) =~= s.drop_last().insert(p, x).push(s.last()));
    } else {
        assert(s.insert(p, x) =~= s.push(x));
    }
}

proof fn lemma_insert_tag_elements(s: Seq<String>, x: String)
    ensures
        insert_tag(s, x).len() == s.len() + 1,
        forall|e: String| #[trigger] insert_tag(s, x).contains(e) ==> e == x || s.contains(e),
        insert_tag(s, x).to_multiset() == s.to_multiset().insert(x),
    decreases s.len(),
{
    broadcast use vstd::seq_lib::group_to_multiset_ensures;

    if s.len() > 0 && tag_after(s.last()@, x@) {
        lemma_insert_tag_elements(s.drop_last(), x);
        let r = insert_tag(s.drop_last(), x);
        assert forall|e: String| #[trigger] insert_tag(s, x).contains(e) implies e == x || s.contains(e) by {
            if e != s.last() {
                assert(r.contains(e));
                if e != x {
                    assert(s.drop_last().contains(e));
                    let k = choose|k: int| 0 <= k < s.drop_last().len() && s.drop_last()[k] == e;
                    assert(s[k] == e);
                }
            } else {
                assert(s[s.len() - 1] == e);
            }
        }
        assert(s.drop_last().push(s.last()) == s);
        assert(insert_tag(s, x).to_multiset() =~= s.to_multiset().insert(x));
    } else {
        assert forall|e: String| #[trigger] insert_tag(s, x).contains(e) implies e == x || s.contains(e) by {
            let k = choose|k: int| 0 <= k < s.push(x).len() && s.push(x)[k] == e;
            if k < s.len() {
                assert(s[k] == e);
            }
        }
    }
}

proof fn lemma_insert_tag_sorted(s: Seq<String>, x: String)
    requires
        tags_sorted(s),
    ensures
        tags_sorted(insert_tag(s, x)),
    decreases s.len(),
{
    lemma_insert_tag_elements(s, x);
    if s.len() > 0 && tag_after(s.last()@, x@) {
        let d = s.drop_last();
        assert(tags_sorted(d));
        lemma_insert_tag_sorted(d, x);
        lemma_insert_tag_elements(d, x);
        let r = insert_tag(d, x);
        lemma_tag_after_asym(s.last()@, x@);
        assert forall|i: int, j: int| 0 <= i < j < r.len() + 1 implies !tag_after((#[trigger] r.push(s.last())[i])@, (#[trigger] r.push(s.last())[j])@) by {
            if j == r.len() {
                let e = r[i];
                assert(r.contains(e));
                if e != x {
                    let k = choose|k: int| 0 <= k < d.len() && d[k] == e;
                    assert(s[k] == e);
                    assert(s[s.len() - 1] == s.last());
                }
            }
        }
    } else {
        assert forall|i: int, j: int| 0 <= i < j < s.len() + 1 implies !tag_after((#[trigger] s.push(x)[i])@, (#[trigger] s.push(x)[j])@) by {
            if j == s.len() {
                if s.len() > 0 {
                    lemma_tag_after_asym(s.last()@, x@);
                    if i < s.len() - 1 {
                        assert(!tag_after(s[i]@, s[s.len() - 1]@));
                        lemma_tag_after_transitive(s[i]@, s[s.len() - 1]@, x@);
                    }
                }
            }
        }
    }
}

/// Sorting tag names gives the same names, in listing order.
pub proof fn lemma_sorted_tags(s: Seq<String>)
    ensures
        tags_sorted(sorted_tags(s)),
        sorted_tags(s).to_multiset() == s.to_multiset(),
        sorted_tags(s).len() == s.len(),
    decreases s.len(),
{
    broadcast use vstd::seq_lib::group_to_multiset_ensures;

    if s.len() > 0 {
        lemma_sorted_tags(s.drop_last());
        lemma_insert_tag_sorted(sorted_tags(s.drop_last()), s.last());
        lemma_insert_tag_elements(sorted_tags(s.drop_last()), s.last());
        assert(s.drop_last().push(s.last()) == s);
    }
}

/// Sorts tag names into listing order (a stable sort by `compare_semver`).
pub fn sort_tag_names(names: Vec<String>) -> (r: Vec<String>)
    ensures
        r@ == sorted_tags(names@),
{
    let ghost all = names@;
    let mut rest = names;
    let mut out: Vec<String> = Vec::new();
    let mut i: usize = 0;
    let n = rest.len();
    while rest.len() > 0
        invariant
            i + rest@.len() == all.len(),
            n == all.len(),
            rest@ == all.skip(i as int),
            out@ == sorted_tags(all.take(i as int)),
        decreases rest@.len(),
    {
        let x = rest.remove(0);
        proof {
            assert(all.take(i + 1).drop_last() == all.take(i as int));
            assert(all.take(i + 1).last() == x);
            assert(rest@ == all.skip(i + 1));
        }
        let mut p = out.len();
        while p > 0 && listed_after(out[p - 1].as_str(), x.as_str())
            invariant
                p <= out@.len(),
                forall|q: int| p <= q < out@.len() ==> tag_after((#[trigger] out@[q])@, x@),
            decreases p,
        {
            p -= 1;
        }
        proof {
            lemma_insert_tag_at(out@, x, p as int);
        }
        out.insert(p, x);
        i += 1;
    }
    proof {
        assert(all.take(i as int) == all);
    }
    out
}

/// The names of the tags among `refs`, in their order.
pub open spec fn tag_names_of(refs: Seq<Ref>) -> Seq<String>
    decreases refs.len(),
{
    if refs.len() == 0 {
        Seq::empty()
    } else {
        let prev = tag_names_of(refs.drop_last());
        match refs.last() {
            Ref::Tag { name, .. } => prev.push(name),
            _ => prev,
        }
    }
}

/// The dialog that deletes one of the tags on a commit.
#[derive(Debug)]
pub struct DeleteTagDialog {
    commit_hash: CommitHash,
    tags: Vec<String>,
    selected_index: usize,
    delete_from_remote: bool,
}

/// A tag deletion under way in the background.
#[derive(Debug)]
pub struct DeleteTagJob {
    pub commit_hash: CommitHash,
    pub tag_name: String,
    pub delete_from_remote: bool,
}

/// The notice shown while a tag is being deleted.
pub open spec fn delete_tag_pending(name: Seq<char>, remote: bool) -> Seq<char> {
    if remote {
        "Deleting tag '"@ + name + "' from local and remote..."@
    } else {
        "Deleting tag '"@ + name + "'..."@
    }
}

/// The notice shown once a tag is deleted.
pub open spec fn delete_tag_success(name: Seq<char>, remote: bool) -> Seq<char> {
    if remote {
        "Tag '"@ + name + "' deleted from local and remote"@
    } else {
        "Tag '"@ + name + "' deleted locally"@
    }
}

/// The event that takes tag `name` off commit `hash` in the list.
pub open spec fn removes_tag(e: AppEvent, hash: CommitHash, name: Seq<char>) -> bool {
    e matches AppEvent::RemoveTagFromCommit { commit_hash, tag_name } && commit_hash == hash && tag_name@ == name
}

impl DeleteTagDialog {
    pub closed spec fn commit(&self) -> CommitHash {
        self.commit_hash
    }

    pub closed spec fn tags(&self) -> Seq<String> {
        self.tags@
    }

    pub closed spec fn selected(&self) -> int {
        self.selected_index as int
    }

    pub closed spec fn from_remote(&self) -> bool {
        self.delete_from_remote
    }

    /// The selection is on a tag, or at the top of an empty list.
    pub open spec fn wf(&self) -> bool {
        if self.tags().len() == 0 {
            self.selected() == 0
        } else {
            0 <= self.selected() < self.tags().len()
        }
    }

    /// The tags among `refs`, sorted by `compare_semver`, the first selected,
    /// to be deleted from the remote too.
    pub fn new(commit_hash: CommitHash, refs: &Vec<Ref>) -> (d: DeleteTagDialog)
        ensures
            d.wf(),
            d.commit() == commit_hash,
            d.tags() == sorted_tags(tag_names_of(refs@)),
            d.selected() == 0,
            d.from_remote(),
    {
        let mut names: Vec<String> = Vec::new();
        let mut i: usize = 0;
        while i < refs.len()
            invariant
                i <= refs@.len(),
                names@ == tag_names_of(refs@.take(i as int)),
            decreases refs@.len() - i,
        {
            proof {
                assert(refs@.take(i + 1).drop_last() == refs@.take(i as int));
            }
            match &refs[i] {
                Ref::Tag { name, .. } => {
                    names.push(name.clone());
                },
                _ => {},
            }
            i += 1;
        }
        proof {
            assert(refs@.take(i as int) == refs@);
        }
        let tags = sort_tag_names(names);
        DeleteTagDialog { commit_hash, tags, selected_index: 0, delete_from_remote: true }
    }

    pub fn tag_names(&self) -> (r: &Vec<String>)
        ensures
            r@ == self.tags(),
    {
        &self.tags
    }

    pub fn selected_index(&self) -> (r: usize)
        ensures
            r == self.selected(),
    {
        self.selected_index
    }

    pub fn delete_from_remote(&self) -> (r: bool)
        ensures
            r == self.from_remote(),
    {
        self.delete_from_remote
    }

    pub fn commit_hash(&self) -> (r: &CommitHash)
        ensures
            *r == self.commit(),
    {
        &self.commit_hash
    }

    /// Handles a key: Esc closes the dialog, Enter deletes the selected tag
    /// (the dialog closes and a notice shows while it runs; nothing happens
    /// when there is no tag), up and down move the selection within the
    /// list, left and right tick the remote check box.
    pub fn handle_event(&mut self, event: UserEvent) -> (r: (Vec<AppEvent>, Option<DeleteTagJob>))
        requires
            old(self).wf(),
        ensures
            final(self).wf(),
            final(self).commit() == old(self).commit(),
            final(self).tags() == old(self).tags(),
            match event {
                UserEvent::Cancel => final(self).selected() == old(self).selected()
                    && final(self).from_remote() == old(self).from_remote() && r.0@.len() == 1
                    && r.0@[0] is CloseDeleteTag && r.1 is None,
                UserEvent::Confirm => final(self).selected() == old(self).selected()
                    && final(self).from_remote() == old(self).from_remote() && if old(self).tags().len() == 0 {
                    r.0@.len() == 0 && r.1 is None
                } else {
                    let name = old(self).tags()[old(self).selected()]@;
                    &&& r.0@.len() == 2
                    &&& r.0@[0] matches AppEvent::ShowPendingOverlay { message }
                        && message@ == delete_tag_pending(name, old(self).from_remote())
                    &&& r.0@[1] is CloseDeleteTag
                    &&& r.1 matches Some(job) && job.tag_name@ == name && job.commit_hash == old(self).commit()
                        && job.delete_from_remote == old(self).from_remote()
                },
                UserEvent::NavigateDown | UserEvent::SelectDown => r.0@.len() == 0 && r.1 is None
                    && final(self).from_remote() == old(self).from_remote() && final(self).selected() == (
                    if old(self).selected() + 1 < old(self).tags().len() {
                        old(self).selected() + 1
                    } else {
                        old(self).selected()
                    }),
                UserEvent::NavigateUp | UserEvent::SelectUp => r.0@.len() == 0 && r.1 is None
                    && final(self).from_remote() == old(self).from_remote() && final(self).selected() == (
                    if old(self).selected() > 0 {
                        old(self).selected() - 1
                    } else {
                        0
                    }),
                UserEvent::NavigateRight | UserEvent::NavigateLeft => r.0@.len() == 0 && r.1 is None
                    && final(self).selected() == old(self).selected() && final(self).from_remote()
                    == !old(self).from_remote(),
                _ => r.0@.len() == 0 && r.1 is None && final(self).selected() == old(self).selected()
                    && final(self).from_remote() == old(self).from_remote(),
            },
    {
        let mut evs: Vec<AppEvent> = Vec::new();
        match event {
            UserEvent::Cancel => {
                evs.push(AppEvent::CloseDeleteTag);
                (evs, None)
            },
            UserEvent::Confirm => {
                if self.tags.len() == 0 {
                    return (evs, None);
                }
                let tag_name = self.tags[self.selected_index].clone();
                let pending = if self.delete_from_remote {
                    let mut m = String::from_str("Deleting tag '");
                    m.append(tag_name.as_str());
                    m.append("' from local and remote...");
                    m
                } else {
                    let mut m = String::from_str("Deleting tag '");
                    m.append(tag_name.as_str());
                    m.append("'...");
                    m
                };
                evs.push(AppEvent::ShowPendingOverlay { message: pending });
                evs.push(AppEvent::CloseDeleteTag);
                let job = DeleteTagJob {
                    commit_hash: self.commit_hash.clone(),
                    tag_name,
                    delete_from_remote: self.delete_from_remote,
                };
                (evs, Some(job))
            },
            UserEvent::NavigateDown | UserEvent::SelectDown => {
                if self.selected_index < self.tags.len().saturating_sub(1) {
                    self.selected_index += 1;
                }
                (evs, None)
            },
            UserEvent::NavigateUp | UserEvent::SelectUp => {
                if self.selected_index > 0 {
                    self.selected_index -= 1;
                }
                (evs, None)
            },
            UserEvent::NavigateRight | UserEvent::NavigateLeft => {
                self.delete_from_remote = !self.delete_from_remote;
                (evs, None)
            },
            _ => (evs, None),
        }
    }
}

impl DeleteTagJob {
    /// Stage 2 exists when the tag goes from the remote too.
    pub open spec fn has_stage(&self, stage: int) -> bool {
        stage == 1 || (stage == 2 && self.delete_from_remote)
    }

    /// The first git operation: deleting the local tag.
    pub fn first(&self) -> (op: RefOperation)
        ensures
            op matches RefOperation::DeleteTag { name } && name@ == self.tag_name@,
    {
        RefOperation::DeleteTag { name: self.tag_name.clone() }
    }

    /// What follows once the operation of `stage` ended with `result`: a
    /// local failure is reported; a local success goes on to the remote when
    /// asked; a remote failure is reported and the tag still leaves the
    /// commit, as the local one is gone; success takes the tag off the commit
    /// and is reported.
    pub fn step(&self, stage: usize, result: Result<(), String>) -> (s: RefJobStep)
        requires
            self.has_stage(stage as int),
        ensures
            match result {
                Err(e) => if stage == 1 {
                    s matches RefJobStep::Done(evs) && failed_events(evs@, e@)
                } else {
                    s matches RefJobStep::Done(evs) && evs@.len() == 3 && evs@[0] is HidePendingOverlay
                        && (evs@[1] matches AppEvent::NotifyError(m) && m@ == remote_tag_failure(e@))
                        && removes_tag(evs@[2], self.commit_hash, self.tag_name@)
                },
                Ok(()) => if stage == 1 && self.delete_from_remote {
                    s matches RefJobStep::Run(op) && (op matches RefOperation::DeleteRemoteTag { name } && name@ == self.tag_name@)
                } else {
                    s matches RefJobStep::Done(evs) && evs@.len() == 3 && removes_tag(evs@[0], self.commit_hash, self.tag_name@)
                        && (evs@[1] matches AppEvent::NotifySuccess(m) && m@ == delete_tag_success(self.tag_name@, self.delete_from_remote))
                        && evs@[2] is HidePendingOverlay
                },
            },
    {
        let mut evs: Vec<AppEvent> = Vec::new();
        match result {
            Err(e) => {
                evs.push(AppEvent::HidePendingOverlay);
                if stage == 1 {
                    evs.push(AppEvent::NotifyError(e));
                } else {
                    let mut m = String::from_str("Local tag deleted, but failed to delete from remote: ");
                    m.append(e.as_str());
                    evs.push(AppEvent::NotifyError(m));
                    evs.push(AppEvent::RemoveTagFromCommit {
                        commit_hash: self.commit_hash.clone(),
                        tag_name: self.tag_name.clone(),
                    });
                }
                RefJobStep::Done(evs)
            },
            Ok(()) => {
                if stage == 1 && self.delete_from_remote {
                    return RefJobStep::Run(RefOperation::DeleteRemoteTag { name: self.tag_name.clone() });
                }
                let mut m = String::from_str("Tag '");
                m.append(self.tag_name.as_str());
                if self.delete_from_remote {
                    m.append("' deleted from local and remote");
                } else {
                    m.append("' deleted locally");
                }
                evs.push(AppEvent::RemoveTagFromCommit {
                    commit_hash: self.commit_hash.clone(),
                    tag_name: self.tag_name.clone(),
                });
                evs.push(AppEvent::NotifySuccess(m));
                evs.push(AppEvent::HidePendingOverlay);
                RefJobStep::Done(evs)
            },
        }
    }
}

} // verus!
