use vstd::prelude::*;

use crate::git::{ref_name, CommitHash, Head, Ref};
use crate::widget::commit_list::SearchMatchPosition;

verus! {

/// How a piece of the refs label in front of a subject is drawn.
#[derive(Debug, Clone, Copy, PartialEq, Eq, Structural)]
pub enum ListRefStyle {
    Plain,
    Paren,
    Head,
    Branch,
    RemoteBranch,
    Tag,
    Stash,
}

/// A piece of the refs label: its text, its style, and the positions of
/// the search query in it, when it is a ref name that the query matched.
#[derive(Debug)]
pub struct ListRefSpan {
    pub text: String,
    pub style: ListRefStyle,
    pub matched: Option<Vec<usize>>,
}

pub type SpanView = (Seq<char>, ListRefStyle, Option<Seq<usize>>);

pub open spec fn span_view(s: ListRefSpan) -> SpanView {
    (
        s.text@,
        s.style,
        match s.matched {
            Some(v) => Some(v@),
            None => None,
        },
    )
}

pub open spec fn spans_view(v: Seq<ListRefSpan>) -> Seq<SpanView> {
    v.map_values(|s: ListRefSpan| span_view(s))
}

/// The style of a ref's name.
pub open spec fn ref_style(r: Ref) -> ListRefStyle {
    match r {
        Ref::Tag { .. } => ListRefStyle::Tag,
        Ref::Branch { .. } => ListRefStyle::Branch,
        Ref::RemoteBranch { .. } => ListRefStyle::RemoteBranch,
        Ref::Stash { .. } => ListRefStyle::Stash,
    }
}

/// The positions recorded for `name` among the ref matches `ms` (the first
/// entry under that name).
pub open spec fn match_of(ms: Seq<(Seq<char>, Seq<usize>)>, name: Seq<char>) -> Option<Seq<usize>>
    decreases ms.len(),
{
    if ms.len() == 0 {
        None
    } else if ms[0].0 == name {
        Some(ms[0].1)
    } else {
        match_of(ms.skip(1), name)
    }
}

/// How many of the first `n` refs are not stashes.
pub open spec fn named_count(refs: Seq<Ref>, n: int) -> int
    decreases n,
{
    if n <= 0 {
        0
    } else if refs[n - 1] is Stash {
        named_count(refs, n - 1)
    } else {
        named_count(refs, n - 1) + 1
    }
}

/// The pieces for the names among the first `n` refs (stashes left out):
/// `HEAD -> ` before the branch HEAD is on, the name, and `, ` after the
/// `i`-th name while `i` is below the number of all refs less one.
pub open spec fn name_spans(
    refs: Seq<Ref>,
    n: int,
    head_branch: Option<Seq<char>>,
    ms: Seq<(Seq<char>, Seq<usize>)>,
) -> Seq<SpanView>
    decreases n,
{
    if n <= 0 {
        Seq::empty()
    } else {
        let prev = name_spans(refs, n - 1, head_branch, ms);
        let r = refs[n - 1];
        if r is Stash {
            prev
        } else {
            let i = named_count(refs, n - 1);
            let arrow: Seq<SpanView> = if head_branch == Some(ref_name(r)) {
                seq![("HEAD -> "@, ListRefStyle::Head, None)]
            } else {
                Seq::empty()
            };
            let sep: Seq<SpanView> = if i < refs.len() - 1 {
                seq![(", "@, ListRefStyle::Paren, None)]
            } else {
                Seq::empty()
            };
            prev + arrow + seq![(ref_name(r), ref_style(r), match_of(ms, ref_name(r)))] + sep
        }
    }
}

/// The branch HEAD is on, if any.
pub open spec fn head_branch_of(head: Head) -> Option<Seq<char>> {
    match head {
        Head::Branch { name } => Some(name@),
        Head::Detached { .. } => None,
    }
}

/// The refs label in front of a commit's subject in the list. A commit
/// whose only ref is a stash shows the stash's name and a space. Otherwise,
/// between `(` and `) `: `HEAD` when HEAD is detached at this commit
/// (followed by `, ` when there are names), then the names; the label is
/// empty when nothing stands between the parentheses.
pub open spec fn list_ref_spans(
    refs: Seq<Ref>,
    hash: Seq<char>,
    head: Head,
    ms: Seq<(Seq<char>, Seq<usize>)>,
) -> Seq<SpanView> {
    if refs.len() == 1 && refs[0] is Stash {
        seq![(ref_name(refs[0]), ListRefStyle::Stash, None), (" "@, ListRefStyle::Plain, None)]
    } else {
        let head_part: Seq<SpanView> = match head {
            Head::Detached { target } => if target@ == hash {
                if named_count(refs, refs.len() as int) > 0 {
                    seq![("HEAD"@, ListRefStyle::Head, None), (", "@, ListRefStyle::Paren, None)]
                } else {
                    seq![("HEAD"@, ListRefStyle::Head, None)]
                }
            } else {
                Seq::empty()
            },
            Head::Branch { .. } => Seq::empty(),
        };
        let inner = head_part + name_spans(refs, refs.len() as int, head_branch_of(head), ms);
        if inner.len() == 0 {
            Seq::empty()
        } else {
            seq![("("@, ListRefStyle::Paren, None)] + inner + seq![(") "@, ListRefStyle::Paren, None)]
        }
    }
}

pub open spec fn matches_view(v: Seq<(String, SearchMatchPosition)>) -> Seq<(Seq<char>, Seq<usize>)> {
    v.map_values(|e: (String, SearchMatchPosition)| (e.0@, e.1.matched_indices@))
}

fn copy_positions(v: &Vec<usize>) -> (r: Vec<usize>)
    ensures
        r@ == v@,
{
    let mut r: Vec<usize> = Vec::new();
    let mut i: usize = 0;
    while i < v.len()
        invariant
            i <= v@.len(),
            r@ == v@.take(i as int),
        decreases v@.len() - i,
    {
        r.push(v[i]);
        proof {
            assert(v@.take(i + 1) == v@.take(i as int).push(v@[i as int]));
        }
        i += 1;
    }
    proof {
        assert(v@.take(v@.len() as int) == v@);
    }
    r
}

/// The positions recorded for `name` among `matches`.
fn find_match(matches: &Vec<(String, SearchMatchPosition)>, name: &str) -> (r: Option<Vec<usize>>)
    ensures
        match r {
            Some(v) => match_of(matches_view(matches@), name@) == Some(v@),
            None => match_of(matches_view(matches@), name@) is None,
        },
{
    let ghost ms = matches_view(matches@);
    let mut i: usize = 0;
    proof {
        assert(ms.skip(0) == ms);
    }
    while i < matches.len()
        invariant
            i <= matches@.len(),
            ms == matches_view(matches@),
            match_of(ms, name@) == match_of(ms.skip(i as int), name@),
        decreases matches@.len() - i,
    {
        proof {
            assert(ms.skip(i as int)[0] == ms[i as int]);
            assert(ms.skip(i as int).skip(1) == ms.skip(i + 1));
        }
        if crate::text::str_eq(matches[i].0.as_str(), name) {
            return Some(copy_positions(&matches[i].1.matched_indices));
        }
        i += 1;
    }
    None
}

fn plain_span(text: &str, style: ListRefStyle) -> (s: ListRefSpan)
    ensures
        span_view(s) == (text@, style, None::<Seq<usize>>),
{
    ListRefSpan { text: String::from_str(text), style, matched: None }
}

/// The refs label in front of the subject of the commit `hash` with refs
/// `refs`, HEAD being `head` and the query's matches in the ref names being
/// `matches` (see `list_ref_spans`).
pub fn refs_spans(refs: &Vec<Ref>, hash: &CommitHash, head: &Head, matches: &Vec<(String, SearchMatchPosition)>) -> (r:
    Vec<ListRefSpan>)
    ensures
        spans_view(r@) == list_ref_spans(refs@, hash@, *head, matches_view(matches@)),
{
    let ghost ms = matches_view(matches@);
    if refs.len() == 1 {
        match &refs[0] {
            Ref::Stash { name, .. } => {
                let mut v: Vec<ListRefSpan> = Vec::new();
                v.push(ListRefSpan { text: name.clone(), style: ListRefStyle::Stash, matched: None });
                v.push(plain_span(" ", ListRefStyle::Plain));
                proof {
                    assert(spans_view(v@) =~= list_ref_spans(refs@, hash@, *head, ms));
                }
                return v;
            },
            _ => {},
        }
    }
    // the names, with the separators and the arrow to HEAD's branch
    let mut names: Vec<ListRefSpan> = Vec::new();
    let mut count: usize = 0;
    let mut i: usize = 0;
    let ghost head_branch = head_branch_of(*head);
    while i < refs.len()
        invariant
            i <= refs@.len(),
            ms == matches_view(matches@),
            head_branch == head_branch_of(*head),
            count == named_count(refs@, i as int),
            count <= i,
            spans_view(names@) == name_spans(refs@, i as int, head_branch, ms),
        decreases refs@.len() - i,
    {
        let r = &refs[i];
        let ghost before = names@;
        let (name, style): (&String, ListRefStyle) = match r {
            Ref::Tag { name, .. } => (name, ListRefStyle::Tag),
            Ref::Branch { name, .. } => (name, ListRefStyle::Branch),
            Ref::RemoteBranch { name, .. } => (name, ListRefStyle::RemoteBranch),
            Ref::Stash { name, .. } => (name, ListRefStyle::Stash),
        };
        if style != ListRefStyle::Stash {
            let on_head = match head {
                Head::Branch { name: head_name } => crate::text::str_eq(head_name.as_str(), name.as_str()),
                Head::Detached { .. } => false,
            };
            if on_head {
                names.push(plain_span("HEAD -> ", ListRefStyle::Head));
            }
            let matched = find_match(matches, name.as_str());
            names.push(ListRefSpan { text: name.clone(), style, matched });
            if count < refs.len() - 1 {
                names.push(plain_span(", ", ListRefStyle::Paren));
            }
            proof {
                let arrow: Seq<SpanView> = if head_branch == Some(ref_name(refs@[i as int])) {
                    seq![("HEAD -> "@, ListRefStyle::Head, None)]
                } else {
                    Seq::empty()
                };
                let sep: Seq<SpanView> = if count < refs@.len() - 1 {
                    seq![(", "@, ListRefStyle::Paren, None)]
                } else {
                    Seq::empty()
                };
                assert(spans_view(names@) =~= spans_view(before) + arrow + seq![
                    (ref_name(refs@[i as int]), ref_style(refs@[i as int]), match_of(ms, ref_name(refs@[i as int]))),
                ] + sep);
            }
            count += 1;
        }
        i += 1;
    }
    let mut v: Vec<ListRefSpan> = Vec::new();
    let detached_here = match head {
        Head::Detached { target } => crate::text::str_eq(target.as_str(), hash.as_str()),
        Head::Branch { .. } => false,
    };
    if detached_here {
        v.push(plain_span("HEAD", ListRefStyle::Head));
        if count > 0 {
            v.push(plain_span(", ", ListRefStyle::Paren));
        }
    }
    let ghost head_part = spans_view(v@);
    if v.len() == 0 && names.len() == 0 {
        proof {
            assert(spans_view(v@) =~= list_ref_spans(refs@, hash@, *head, ms));
        }
        return v;
    }
    let mut out: Vec<ListRefSpan> = Vec::new();
    out.push(plain_span("(", ListRefStyle::Paren));
    out.append(&mut v);
    out.append(&mut names);
    out.push(plain_span(") ", ListRefStyle::Paren));
    proof {
        assert(spans_view(out@) =~= seq![("("@, ListRefStyle::Paren, None::<Seq<usize>>)] + head_part
            + name_spans(refs@, refs@.len() as int, head_branch, ms) + seq![(") "@, ListRefStyle::Paren, None)]);
    }
    out
}

} // verus!
