use vstd::prelude::*;

use crate::git::{prefix_upto, Commit, FileChange, Ref};
use crate::text::{chars_of, slice_chars, split_at_char, split_chars, string_from_chars};
use crate::widget::commit_detail::{author_committer_differ, has_parent, has_refs, is_author_committer_different};

verus! {

/// How a piece of the commit details is coloured.
#[derive(Debug, Clone, Copy, PartialEq, Eq, Structural)]
pub enum DetailStyle {
    Plain,
    Label,
    Name,
    Email,
    Date,
    Hash,
    RefBranch,
    RefRemoteBranch,
    RefTag,
    Subject,
    Divider,
    Add,
    Modify,
    Delete,
    Move,
}

/// A line of the commit details: its pieces.
pub type DetailLine = Vec<(String, DetailStyle)>;

pub open spec fn line_view(l: Seq<(String, DetailStyle)>) -> Seq<(Seq<char>, DetailStyle)> {
    l.map_values(|p: (String, DetailStyle)| (p.0@, p.1))
}

pub open spec fn lines_view(ls: Seq<DetailLine>) -> Seq<Seq<(Seq<char>, DetailStyle)>> {
    ls.map_values(|l: DetailLine| line_view(l@))
}

proof fn lemma_lines_push(ls: Seq<DetailLine>, l: DetailLine)
    ensures
        lines_view(ls.push(l)) == lines_view(ls).push(line_view(l@)),
{
    assert(lines_view(ls.push(l)) =~= lines_view(ls).push(line_view(l@)));
}

proof fn lemma_lines_concat(a: Seq<DetailLine>, b: Seq<DetailLine>)
    ensures
        lines_view(a + b) == lines_view(a) + lines_view(b),
{
    assert(lines_view(a + b) =~= lines_view(a) + lines_view(b));
}

proof fn lemma_line_push(l: Seq<(String, DetailStyle)>, p: (String, DetailStyle))
    ensures
        line_view(l.push(p)) == line_view(l).push((p.0@, p.1)),
{
    assert(line_view(l.push(p)) =~= line_view(l).push((p.0@, p.1)));
}

/// The two lines of a person: name and e-mail, then the date (given as
/// text, already formatted).
pub open spec fn person_lines(name: Seq<char>, email: Seq<char>, date: Seq<char>) -> Seq<Seq<(Seq<char>, DetailStyle)>> {
    seq![
        seq![(name, DetailStyle::Name), (" <"@, DetailStyle::Plain), (email, DetailStyle::Email), ("> "@, DetailStyle::Plain)],
        seq![(date, DetailStyle::Date)],
    ]
}

/// The short hashes of the parents, one space between two.
pub open spec fn parents_spans(hashes: Seq<Seq<char>>) -> Seq<(Seq<char>, DetailStyle)>
    decreases hashes.len(),
{
    if hashes.len() == 0 {
        Seq::empty()
    } else if hashes.len() == 1 {
        seq![(prefix_upto(hashes[0], 7), DetailStyle::Hash)]
    } else {
        parents_spans(hashes.drop_last()).push((" "@, DetailStyle::Plain)).push(
            (prefix_upto(hashes.last(), 7), DetailStyle::Hash),
        )
    }
}

/// The ref names of the refs line: branches, remote branches and tags in
/// their colours (stashes left out); after the `i`-th name shown a space
/// follows while `i` is below the number of refs less one.
pub open spec fn refs_spans_from(refs: Seq<Ref>, shown: int, total: int) -> Seq<(Seq<char>, DetailStyle)>
    decreases refs.len(),
{
    if refs.len() == 0 {
        Seq::empty()
    } else {
        let sep: Seq<(Seq<char>, DetailStyle)> = if shown < total - 1 {
            seq![(" "@, DetailStyle::Plain)]
        } else {
            Seq::empty()
        };
        match refs[0] {
            Ref::Branch { name, .. } => seq![(name@, DetailStyle::RefBranch)] + sep + refs_spans_from(
                refs.skip(1),
                shown + 1,
                total,
            ),
            Ref::RemoteBranch { name, .. } => seq![(name@, DetailStyle::RefRemoteBranch)] + sep + refs_spans_from(
                refs.skip(1),
                shown + 1,
                total,
            ),
            Ref::Tag { name, .. } => seq![(name@, DetailStyle::RefTag)] + sep + refs_spans_from(
                refs.skip(1),
                shown + 1,
                total,
            ),
            Ref::Stash { .. } => refs_spans_from(refs.skip(1), shown, total),
        }
    }
}

/// The lines of `s` as `str::lines` gives them: split at `\n`, a `\r`
/// before a `\n` dropped, no line after a final `\n`.
pub open spec fn text_lines(s: Seq<char>) -> Seq<Seq<char>> {
    let pieces = split_chars(s, '\n');
    let n = pieces.len() as int;
    let first = Seq::new(
        (n - 1) as nat,
        |i: int|
            if pieces[i].len() > 0 && pieces[i].last() == '\r' {
                pieces[i].drop_last()
            } else {
                pieces[i]
            },
    );
    if pieces[n - 1].len() > 0 {
        first.push(pieces[n - 1])
    } else {
        first
    }
}

/// The message: the subject, then, when there is a body, an empty line and
/// the lines of the body.
pub open spec fn message_lines(subject: Seq<char>, body: Seq<char>) -> Seq<Seq<(Seq<char>, DetailStyle)>> {
    let head = seq![seq![(subject, DetailStyle::Subject)]];
    if body.len() == 0 {
        head
    } else {
        head.push(Seq::empty()) + text_lines(body).map_values(|l: Seq<char>| seq![(l, DetailStyle::Plain)])
    }
}

/// The line of a changed file: its letter in its colour, then its path (or
/// both paths of a move).
pub open spec fn change_line(c: FileChange) -> Seq<(Seq<char>, DetailStyle)> {
    match c {
        FileChange::Add { path } => seq![("A"@, DetailStyle::Add), (" "@, DetailStyle::Plain), (path@, DetailStyle::Plain)],
        FileChange::Modify { path } => seq![
            ("M"@, DetailStyle::Modify),
            (" "@, DetailStyle::Plain),
            (path@, DetailStyle::Plain),
        ],
        FileChange::Delete { path } => seq![
            ("D"@, DetailStyle::Delete),
            (" "@, DetailStyle::Plain),
            (path@, DetailStyle::Plain),
        ],
        FileChange::Move { from, to } => seq![
            ("R"@, DetailStyle::Move),
            (" "@, DetailStyle::Plain),
            (from@, DetailStyle::Plain),
            (" -> "@, DetailStyle::Plain),
            (to@, DetailStyle::Plain),
        ],
    }
}

/// A divider as wide as the area.
pub open spec fn divider(width: nat) -> Seq<(Seq<char>, DetailStyle)> {
    seq![(Seq::new(width, |i: int| '─'), DetailStyle::Divider)]
}

/// The label column: author (two lines), committer (two lines, when it
/// differs), SHA, parents (when there are any), refs (when one is shown).
pub open spec fn detail_labels(c: Commit, refs: Seq<Ref>) -> Seq<Seq<(Seq<char>, DetailStyle)>> {
    let a = seq![seq![("   Author: "@, DetailStyle::Label)], Seq::empty()];
    let b = if author_committer_differ(c) {
        a + seq![seq![("Committer: "@, DetailStyle::Label)], Seq::empty()]
    } else {
        a
    };
    let d = b.push(seq![("      SHA: "@, DetailStyle::Label)]);
    let e = if c.parent_commit_hashes@.len() > 0 {
        d.push(seq![("  Parents: "@, DetailStyle::Label)])
    } else {
        d
    };
    if exists|i: int| 0 <= i < refs.len() && !(#[trigger] refs[i] is Stash) {
        e.push(seq![("     Refs: "@, DetailStyle::Label)])
    } else {
        e
    }
}

/// The value column: the author lines, the committer lines (when they
/// differ), the hash, the parents, the refs, a divider, the message, a
/// divider and the changed files.
pub open spec fn detail_values(
    c: Commit,
    changes: Seq<FileChange>,
    refs: Seq<Ref>,
    author_date: Seq<char>,
    committer_date: Seq<char>,
    width: nat,
) -> Seq<Seq<(Seq<char>, DetailStyle)>> {
    let a = person_lines(c.author_name@, c.author_email@, author_date);
    let b = if author_committer_differ(c) {
        a + person_lines(c.committer_name@, c.committer_email@, committer_date)
    } else {
        a
    };
    let d = b.push(seq![(c.commit_hash@, DetailStyle::Hash)]);
    let e = if c.parent_commit_hashes@.len() > 0 {
        d.push(parents_spans(c.parent_commit_hashes@.map_values(|h: crate::git::CommitHash| h@)))
    } else {
        d
    };
    let f = if exists|i: int| 0 <= i < refs.len() && !(#[trigger] refs[i] is Stash) {
        e.push(refs_spans_from(refs, 0, refs.len() as int))
    } else {
        e
    };
    f.push(divider(width)) + message_lines(c.subject@, c.body@).push(divider(width)) + changes.map_values(
        |ch: FileChange| change_line(ch),
    )
}

fn span(text: String, style: DetailStyle) -> (p: (String, DetailStyle))
    ensures
        p.0 == text,
        p.1 == style,
{
    (text, style)
}

fn person(name: &str, email: &str, date: &str) -> (r: Vec<DetailLine>)
    ensures
        lines_view(r@) == person_lines(name@, email@, date@),
{
    let mut l1: DetailLine = Vec::new();
    l1.push(span(String::from_str(name), DetailStyle::Name));
    l1.push(span(String::from_str(" <"), DetailStyle::Plain));
    l1.push(span(String::from_str(email), DetailStyle::Email));
    l1.push(span(String::from_str("> "), DetailStyle::Plain));
    let mut l2: DetailLine = Vec::new();
    l2.push(span(String::from_str(date), DetailStyle::Date));
    let mut r: Vec<DetailLine> = Vec::new();
    r.push(l1);
    r.push(l2);
    proof {
        assert(line_view(r@[0]@) =~= person_lines(name@, email@, date@)[0]);
        assert(line_view(r@[1]@) =~= person_lines(name@, email@, date@)[1]);
        assert(lines_view(r@) =~= person_lines(name@, email@, date@));
    }
    r
}

fn one_line(text: String, style: DetailStyle) -> (l: DetailLine)
    ensures
        line_view(l@) == seq![(text@, style)],
{
    let mut l: DetailLine = Vec::new();
    l.push(span(text, style));
    proof {
        assert(line_view(l@) =~= seq![(text@, style)]);
    }
    l
}

fn parents_line(c: &Commit) -> (l: DetailLine)
    requires
        c.parent_commit_hashes@.len() > 0,
    ensures
        line_view(l@) == parents_spans(c.parent_commit_hashes@.map_values(|h: crate::git::CommitHash| h@)),
{
    let ghost hs = c.parent_commit_hashes@.map_values(|h: crate::git::CommitHash| h@);
    let mut l: DetailLine = Vec::new();
    let mut i: usize = 0;
    while i < c.parent_commit_hashes.len()
        invariant
            i <= c.parent_commit_hashes@.len(),
            hs == c.parent_commit_hashes@.map_values(|h: crate::git::CommitHash| h@),
            line_view(l@) == parents_spans(hs.take(i as int)),
        decreases c.parent_commit_hashes@.len() - i,
    {
        let ghost before = l@;
        if i > 0 {
            l.push(span(String::from_str(" "), DetailStyle::Plain));
            proof {
                lemma_line_push(before, l@.last());
            }
        }
        let ghost mid = l@;
        l.push(span(c.parent_commit_hashes[i].as_short_hash(), DetailStyle::Hash));
        proof {
            lemma_line_push(mid, l@.last());
            let t = hs.take(i + 1);
            assert(t.drop_last() == hs.take(i as int));
            assert(t.last() == c.parent_commit_hashes@[i as int]@);
            if i == 0 {
                assert(t.len() == 1);
                assert(line_view(before).len() == before.len());
                assert(line_view(l@) =~= parents_spans(t));
            } else {
                assert(line_view(l@) =~= parents_spans(t));
            }
        }
        i += 1;
    }
    proof {
        assert(hs.take(i as int) == hs);
    }
    l
}

fn refs_line(refs: &Vec<Ref>) -> (l: DetailLine)
    ensures
        line_view(l@) == refs_spans_from(refs@, 0, refs@.len() as int),
{
    let total = refs.len();
    let mut l: DetailLine = Vec::new();
    let mut shown: usize = 0;
    let mut i: usize = 0;
    proof {
        assert(refs@.skip(0) == refs@);
        assert(line_view(l@) + refs_spans_from(refs@.skip(0), 0, total as int) =~= refs_spans_from(
            refs@,
            0,
            total as int,
        ));
    }
    while i < total
        invariant
            i <= total,
            total == refs@.len(),
            shown <= i,
            line_view(l@) + refs_spans_from(refs@.skip(i as int), shown as int, total as int) == refs_spans_from(
                refs@,
                0,
                total as int,
            ),
        decreases total - i,
    {
        let ghost before = l@;
        let ghost rest = refs@.skip(i as int);
        proof {
            assert(rest[0] == refs@[i as int]);
            assert(rest.skip(1) == refs@.skip(i + 1));
        }
        let name_style = match &refs[i] {
            Ref::Branch { name, .. } => Some((name.clone(), DetailStyle::RefBranch)),
            Ref::RemoteBranch { name, .. } => Some((name.clone(), DetailStyle::RefRemoteBranch)),
            Ref::Tag { name, .. } => Some((name.clone(), DetailStyle::RefTag)),
            Ref::Stash { .. } => None,
        };
        match name_style {
            Some((name, style)) => {
                l.push(span(name, style));
                proof {
                    lemma_line_push(before, l@.last());
                }
                let ghost mid = l@;
                if shown + 1 < total {
                    l.push(span(String::from_str(" "), DetailStyle::Plain));
                    proof {
                        lemma_line_push(mid, l@.last());
                    }
                }
                proof {
                    let sep: Seq<(Seq<char>, DetailStyle)> = if shown < total - 1 {
                        seq![(" "@, DetailStyle::Plain)]
                    } else {
                        Seq::empty()
                    };
                    assert(line_view(l@) =~= line_view(before) + seq![(name@, style)] + sep);
                    assert(line_view(l@) + refs_spans_from(refs@.skip(i + 1), shown + 1, total as int) =~= line_view(
                        before,
                    ) + refs_spans_from(rest, shown as int, total as int));
                }
                shown += 1;
            },
            None => {},
        }
        i += 1;
    }
    proof {
        assert(refs@.skip(i as int).len() == 0);
        assert(line_view(l@) + Seq::empty() =~= line_view(l@));
    }
    l
}

/// The lines of `s`, as `str::lines` gives them.
pub fn lines_of(s: &str) -> (r: Vec<String>)
    ensures
        crate::git::string_views(r@) == text_lines(s@),
{
    let cs = chars_of(s);
    let pieces = split_at_char(&cs, '\n');
    let n = pieces.len();
    proof {
        crate::text::lemma_split_nonempty(cs@, '\n');
    }
    let ghost sp = split_chars(s@, '\n');
    let mut r: Vec<String> = Vec::new();
    let mut i: usize = 0;
    while i + 1 < n
        invariant
            i + 1 <= n,
            n == sp.len(),
            n == pieces@.len(),
            sp == split_chars(s@, '\n'),
            forall|t: int| 0 <= t < pieces@.len() ==> #[trigger] pieces@[t]@ == sp[t],
            r@.len() == i,
            forall|t: int| 0 <= t < i ==> (#[trigger] r@[t])@ == (if sp[t].len() > 0 && sp[t].last() == '\r' {
                sp[t].drop_last()
            } else {
                sp[t]
            }),
        decreases n - i,
    {
        let p = &pieces[i];
        let line = if p.len() > 0 && p[p.len() - 1] == '\r' {
            string_from_chars(&slice_chars(p, 0, p.len() - 1))
        } else {
            string_from_chars(p)
        };
        proof {
            assert(p@.subrange(0, p@.len() - 1) == p@.drop_last());
        }
        r.push(line);
        i += 1;
    }
    if pieces[n - 1].len() > 0 {
        r.push(string_from_chars(&pieces[n - 1]));
    }
    proof {
        assert(crate::git::string_views(r@) =~= text_lines(s@));
    }
    r
}

fn message(subject: &str, body: &str) -> (r: Vec<DetailLine>)
    ensures
        lines_view(r@) == message_lines(subject@, body@),
{
    let mut r: Vec<DetailLine> = Vec::new();
    r.push(one_line(String::from_str(subject), DetailStyle::Subject));
    if body.unicode_len() == 0 {
        proof {
            assert(lines_view(r@) =~= message_lines(subject@, body@));
        }
        return r;
    }
    r.push(Vec::new());
    let ls = lines_of(body);
    let ghost head = r@;
    proof {
        assert(lines_view(head) =~~= seq![seq![(subject@, DetailStyle::Subject)]].push(Seq::empty()));
    }
    let mut i: usize = 0;
    while i < ls.len()
        invariant
            i <= ls@.len(),
            crate::git::string_views(ls@) == text_lines(body@),
            r@.len() == head.len() + i,
            forall|t: int| 0 <= t < head.len() ==> #[trigger] r@[t] == head[t],
            forall|k: int| head.len() <= k < r@.len() ==> line_view((#[trigger] r@[k])@) == seq![
                (ls@[k - head.len()]@, DetailStyle::Plain),
            ],
        decreases ls@.len() - i,
    {
        r.push(one_line(ls[i].clone(), DetailStyle::Plain));
        i += 1;
    }
    proof {
        let tl = text_lines(body@);
        assert(tl.len() == ls@.len());
        assert forall|t: int| 0 <= t < tl.len() implies tl[t] == ls@[t]@ by {
            assert(crate::git::string_views(ls@)[t] == ls@[t]@);
        }
        assert(lines_view(r@) =~~= message_lines(subject@, body@));
    }
    r
}

fn change(c: &FileChange) -> (l: DetailLine)
    ensures
        line_view(l@) == change_line(*c),
{
    let mut l: DetailLine = Vec::new();
    match c {
        FileChange::Add { path } => {
            l.push(span(String::from_str("A"), DetailStyle::Add));
            l.push(span(String::from_str(" "), DetailStyle::Plain));
            l.push(span(path.clone(), DetailStyle::Plain));
        },
        FileChange::Modify { path } => {
            l.push(span(String::from_str("M"), DetailStyle::Modify));
            l.push(span(String::from_str(" "), DetailStyle::Plain));
            l.push(span(path.clone(), DetailStyle::Plain));
        },
        FileChange::Delete { path } => {
            l.push(span(String::from_str("D"), DetailStyle::Delete));
            l.push(span(String::from_str(" "), DetailStyle::Plain));
            l.push(span(path.clone(), DetailStyle::Plain));
        },
        FileChange::Move { from, to } => {
            l.push(span(String::from_str("R"), DetailStyle::Move));
            l.push(span(String::from_str(" "), DetailStyle::Plain));
            l.push(span(from.clone(), DetailStyle::Plain));
            l.push(span(String::from_str(" -> "), DetailStyle::Plain));
            l.push(span(to.clone(), DetailStyle::Plain));
        },
    }
    proof {
        assert(line_view(l@) =~= change_line(*c));
    }
    l
}

fn divider_line(width: usize) -> (l: DetailLine)
    ensures
        line_view(l@) == divider(width as nat),
{
    let mut s = String::new();
    let mut i: usize = 0;
    while i < width
        invariant
            i <= width,
            s@ == Seq::new(i as nat, |k: int| '─'),
        decreases width - i,
    {
        crate::text::push_char(&mut s, '─');
        proof {
            assert(s@ =~= Seq::new((i + 1) as nat, |k: int| '─'));
        }
        i += 1;
    }
    one_line(s, DetailStyle::Divider)
}

/// The two columns of the commit details of `commit`, its changed files and
/// refs, with the author and committer dates already formatted and an area
/// `width` columns wide.
pub fn detail_contents(
    commit: &Commit,
    changes: &Vec<FileChange>,
    refs: &Vec<Ref>,
    author_date: &str,
    committer_date: &str,
    width: usize,
) -> (r: (Vec<DetailLine>, Vec<DetailLine>))
    ensures
        lines_view(r.0@) == detail_labels(*commit, refs@),
        lines_view(r.1@) == detail_values(*commit, changes@, refs@, author_date@, committer_date@, width as nat),
{
    let differ = is_author_committer_different(commit);
    let parent = has_parent(commit);
    let shows_refs = has_refs(refs);
    let mut labels: Vec<DetailLine> = Vec::new();
    labels.push(one_line(String::from_str("   Author: "), DetailStyle::Label));
    labels.push(Vec::new());
    if differ {
        labels.push(one_line(String::from_str("Committer: "), DetailStyle::Label));
        labels.push(Vec::new());
    }
    labels.push(one_line(String::from_str("      SHA: "), DetailStyle::Label));
    if parent {
        labels.push(one_line(String::from_str("  Parents: "), DetailStyle::Label));
    }
    if shows_refs {
        labels.push(one_line(String::from_str("     Refs: "), DetailStyle::Label));
    }
    proof {
        assert(lines_view(labels@) =~~= detail_labels(*commit, refs@));
    }
    let mut values = person(commit.author_name.as_str(), commit.author_email.as_str(), author_date);
    let ghost v0 = values@;
    if differ {
        let mut more = person(commit.committer_name.as_str(), commit.committer_email.as_str(), committer_date);
        let ghost m0 = more@;
        values.append(&mut more);
        proof {
            lemma_lines_concat(v0, m0);
        }
    }
    let ghost v1 = values@;
    values.push(one_line(commit.commit_hash.as_str().to_owned(), DetailStyle::Hash));
    proof {
        lemma_lines_push(v1, values@.last());
    }
    let ghost v2 = values@;
    if parent {
        values.push(parents_line(commit));
        proof {
            lemma_lines_push(v2, values@.last());
        }
    }
    let ghost v3 = values@;
    if shows_refs {
        values.push(refs_line(refs));
        proof {
            lemma_lines_push(v3, values@.last());
        }
    }
    let ghost v4 = values@;
    values.push(divider_line(width));
    proof {
        lemma_lines_push(v4, values@.last());
    }
    let ghost v5 = values@;
    let mut msg = message(commit.subject.as_str(), commit.body.as_str());
    let ghost m1 = msg@;
    values.append(&mut msg);
    proof {
        lemma_lines_concat(v5, m1);
    }
    let ghost v6 = values@;
    values.push(divider_line(width));
    proof {
        lemma_lines_push(v6, values@.last());
    }
    let mut i: usize = 0;
    let ghost v7 = values@;
    while i < changes.len()
        invariant
            i <= changes@.len(),
            values@.len() == v7.len() + i,
            forall|t: int| 0 <= t < v7.len() ==> #[trigger] values@[t] == v7[t],
            forall|k: int| v7.len() <= k < values@.len() ==> line_view((#[trigger] values@[k])@) == change_line(
                changes@[k - v7.len()],
            ),
        decreases changes@.len() - i,
    {
        values.push(change(&changes[i]));
        i += 1;
    }
    proof {
        assert(lines_view(values@) =~= lines_view(v7) + changes@.map_values(|ch: FileChange| change_line(ch)));
        assert(lines_view(values@) =~= detail_values(*commit, changes@, refs@, author_date@, committer_date@, width as nat));
    }
    (labels, values)
}

/// The changed files close the value column, one line each in order: the
/// kind's letter in the kind's style (`A` added, `M` modified, `D` deleted,
/// `R` moved), a space, and the path (for a move, the old path, an arrow and
/// the new path).
pub proof fn lemma_change_lines(
    c: Commit,
    changes: Seq<FileChange>,
    refs: Seq<Ref>,
    author_date: Seq<char>,
    committer_date: Seq<char>,
    width: nat,
)
    ensures
        ({
            let v = detail_values(c, changes, refs, author_date, committer_date, width);
            let off = v.len() - changes.len();
            &&& off >= 0
            &&& forall|i: int|
                0 <= i < changes.len() ==> #[trigger] v[off + i] == match changes[i] {
                    FileChange::Add { path } => seq![
                        ("A"@, DetailStyle::Add),
                        (" "@, DetailStyle::Plain),
                        (path@, DetailStyle::Plain),
                    ],
                    FileChange::Modify { path } => seq![
                        ("M"@, DetailStyle::Modify),
                        (" "@, DetailStyle::Plain),
                        (path@, DetailStyle::Plain),
                    ],
                    FileChange::Delete { path } => seq![
                        ("D"@, DetailStyle::Delete),
                        (" "@, DetailStyle::Plain),
                        (path@, DetailStyle::Plain),
                    ],
                    FileChange::Move { from, to } => seq![
                        ("R"@, DetailStyle::Move),
                        (" "@, DetailStyle::Plain),
                        (from@, DetailStyle::Plain),
                        (" -> "@, DetailStyle::Plain),
                        (to@, DetailStyle::Plain),
                    ],
                }
        }),
{
    let v = detail_values(c, changes, refs, author_date, committer_date, width);
    let m = changes.map_values(|ch: FileChange| change_line(ch));
    let head = v.subrange(0, v.len() - m.len());
    assert(v == head + m);
    let off = v.len() - changes.len();
    assert forall|i: int| 0 <= i < changes.len() implies #[trigger] v[off + i] == change_line(changes[i]) by {
        assert(v[off + i] == m[i]);
    }
}

} // verus!
