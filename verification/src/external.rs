use vstd::prelude::*;

use crate::git::{ref_name, Commit, Ref};
use crate::text::{
    chars_of, decimal, decimal_string, join_chars, join_strings, matches_at, replace_all, replace_chars,
    starts_with, str_eq, string_from_chars,
};

verus! {

/// How text is put on the clipboard: through the system clipboard, or by
/// piping it into a command.
#[derive(Debug)]
pub enum ClipboardConfig {
    Auto,
    Custom { commands: Vec<String> },
}

/// What the application must do to copy a text.
#[derive(Debug)]
pub enum ClipboardRequest {
    /// Put the text on the system clipboard.
    System(String),
    /// Run `program` with `args` and write `input` to its standard input.
    Command { program: String, args: Vec<String>, input: String },
}

/// Decides how to copy `value`: the system clipboard, or the configured
/// command (its first word the program, the rest its arguments); an error
/// when the configured command is empty.
pub fn copy_to_clipboard(value: String, config: &ClipboardConfig) -> (r: Result<ClipboardRequest, String>)
    ensures
        match config {
            ClipboardConfig::Auto => r matches Ok(ClipboardRequest::System(v)) && v == value,
            ClipboardConfig::Custom { commands } => if commands@.len() == 0 {
                r matches Err(e) && e@ == "No clipboard command specified"@
            } else {
                r matches Ok(ClipboardRequest::Command { program, args, input }) && program == commands@[0]
                    && args@ == commands@.skip(1) && input == value
            },
        },
{
    match config {
        ClipboardConfig::Auto => Ok(ClipboardRequest::System(value)),
        ClipboardConfig::Custom { commands } => {
            if commands.len() == 0 {
                return Err("No clipboard command specified".to_owned());
            }
            let mut args: Vec<String> = Vec::new();
            let mut i: usize = 1;
            while i < commands.len()
                invariant
                    1 <= i <= commands@.len(),
                    args@ == commands@.subrange(1, i as int),
                decreases commands@.len() - i,
            {
                args.push(commands[i].clone());
                proof {
                    assert(args@ =~= commands@.subrange(1, i + 1));
                }
                i += 1;
            }
            proof {
                assert(commands@.subrange(1, i as int) == commands@.skip(1));
            }
            Ok(ClipboardRequest::Command { program: commands[0].clone(), args, input: value })
        },
    }
}

/// What a user command is run with: its words, and the facts about the
/// selected commit and the screen that its markers stand for.
#[derive(Debug)]
pub struct ExternalCommandParameters {
    pub command: Vec<String>,
    pub target_hash: String,
    pub parent_hashes: Vec<String>,
    pub all_refs: Vec<String>,
    pub branches: Vec<String>,
    pub remote_branches: Vec<String>,
    pub tags: Vec<String>,
    pub area_width: u16,
    pub area_height: u16,
}

/// The texts of a list of strings.
pub open spec fn views_of(v: Seq<String>) -> Seq<Seq<char>> {
    v.map_values(|s: String| s@)
}

/// `s` contains `p`.
pub open spec fn contains_text(s: Seq<char>, p: Seq<char>) -> bool {
    exists|i: int| 0 <= i <= s.len() && #[trigger] starts_with(s.skip(i), p)
}

/// An argument with each marker replaced by what it stands for: the hash,
/// the first parent (empty when there is none), and the lists joined by
/// spaces. An argument without `{{` is left as it is.
pub open spec fn replaced_arg(s: Seq<char>, p: ExternalCommandParameters) -> Seq<char> {
    if !contains_text(s, "{{"@) {
        s
    } else {
        let sep = " "@;
        let first_parent = if p.parent_hashes@.len() > 0 {
            p.parent_hashes@[0]@
        } else {
            Seq::empty()
        };
        let r1 = replace_all(s, "{{target_hash}}"@, p.target_hash@);
        let r2 = replace_all(r1, "{{first_parent_hash}}"@, first_parent);
        let r3 = replace_all(r2, "{{parent_hashes}}"@, join_chars(views_of(p.parent_hashes@), sep));
        let r4 = replace_all(r3, "{{refs}}"@, join_chars(views_of(p.all_refs@), sep));
        let r5 = replace_all(r4, "{{branches}}"@, join_chars(views_of(p.branches@), sep));
        let r6 = replace_all(r5, "{{remote_branches}}"@, join_chars(views_of(p.remote_branches@), sep));
        let r7 = replace_all(r6, "{{tags}}"@, join_chars(views_of(p.tags@), sep));
        let r8 = replace_all(r7, "{{area_width}}"@, decimal(p.area_width as nat));
        replace_all(r8, "{{area_height}}"@, decimal(p.area_height as nat))
    }
}

fn contains_marker_prefix(s: &Vec<char>) -> (r: bool)
    ensures
        r == contains_text(s@, "{{"@),
{
    let p = chars_of("{{");
    let n = s.len();
    let mut i: usize = 0;
    while i < n
        invariant
            i <= n,
            n == s@.len(),
            p@ == "{{"@,
            forall|j: int| 0 <= j < i ==> !starts_with(#[trigger] s@.skip(j), p@),
        decreases n + 1 - i,
    {
        if matches_at(s, i, &p) {
            return true;
        }
        i += 1;
    }
    proof {
        reveal_strlit("{{");
        assert forall|j: int| 0 <= j <= s@.len() implies !starts_with(#[trigger] s@.skip(j), p@) by {
            if j == n {
                assert(s@.skip(j).len() == 0);
            }
        }
    }
    false
}

fn replace_in(s: Vec<char>, from: &str, to: &Vec<char>) -> (r: Vec<char>)
    ensures
        r@ == replace_all(s@, from@, to@),
{
    let f = chars_of(from);
    replace_chars(&s, &f, to)
}

/// Replaces the markers in one argument of a user command.
pub fn replace_command_arg(s: &str, params: &ExternalCommandParameters) -> (r: String)
    ensures
        r@ == replaced_arg(s@, *params),
{
    let cs = chars_of(s);
    if !contains_marker_prefix(&cs) {
        return s.to_owned();
    }
    let first_parent = if params.parent_hashes.len() > 0 {
        chars_of(params.parent_hashes[0].as_str())
    } else {
        Vec::new()
    };
    let parents = chars_of(join_strings(&params.parent_hashes, " ").as_str());
    let refs = chars_of(join_strings(&params.all_refs, " ").as_str());
    let branches = chars_of(join_strings(&params.branches, " ").as_str());
    let remotes = chars_of(join_strings(&params.remote_branches, " ").as_str());
    let tags = chars_of(join_strings(&params.tags, " ").as_str());
    let width = chars_of(decimal_string(params.area_width as u64).as_str());
    let height = chars_of(decimal_string(params.area_height as u64).as_str());
    let target = chars_of(params.target_hash.as_str());
    let r = replace_in(cs, "{{target_hash}}", &target);
    let r = replace_in(r, "{{first_parent_hash}}", &first_parent);
    let r = replace_in(r, "{{parent_hashes}}", &parents);
    let r = replace_in(r, "{{refs}}", &refs);
    let r = replace_in(r, "{{branches}}", &branches);
    let r = replace_in(r, "{{remote_branches}}", &remotes);
    let r = replace_in(r, "{{tags}}", &tags);
    let r = replace_in(r, "{{area_width}}", &width);
    let r = replace_in(r, "{{area_height}}", &height);
    proof {
        assert(views_of(params.parent_hashes@) == params.parent_hashes@.map_values(|p: String| p@));
    }
    string_from_chars(&r)
}

/// The words of the command for the first `n` words of `p.command`: a word
/// that is exactly a list marker becomes the items of that list, one word
/// each; any other word has its markers replaced.
pub open spec fn built_command(p: ExternalCommandParameters, n: int) -> Seq<Seq<char>>
    decreases n,
{
    if n <= 0 {
        Seq::empty()
    } else {
        let prev = built_command(p, n - 1);
        let w = p.command@[n - 1]@;
        if w == "{{branches}}"@ {
            prev + views_of(p.branches@)
        } else if w == "{{remote_branches}}"@ {
            prev + views_of(p.remote_branches@)
        } else if w == "{{tags}}"@ {
            prev + views_of(p.tags@)
        } else if w == "{{refs}}"@ {
            prev + views_of(p.all_refs@)
        } else if w == "{{parent_hashes}}"@ {
            prev + views_of(p.parent_hashes@)
        } else {
            prev.push(replaced_arg(w, p))
        }
    }
}

fn extend_views(out: &mut Vec<String>, items: &Vec<String>)
    ensures
        views_of(final(out)@) == views_of(old(out)@) + views_of(items@),
{
    let ghost start = out@;
    let mut i: usize = 0;
    while i < items.len()
        invariant
            i <= items@.len(),
            views_of(out@) == views_of(start) + views_of(items@.take(i as int)),
        decreases items@.len() - i,
    {
        let ghost prev = out@;
        out.push(items[i].clone());
        proof {
            assert(items@.take(i + 1) == items@.take(i as int).push(items@[i as int]));
            assert(views_of(out@) =~= views_of(prev).push(items@[i as int]@));
            assert(views_of(items@.take(i + 1)) =~= views_of(items@.take(i as int)).push(items@[i as int]@));
            assert(views_of(out@) =~= views_of(start) + views_of(items@.take(i + 1)));
        }
        i += 1;
    }
    proof {
        assert(items@.take(i as int) == items@);
    }
}

/// The words to run for a user command.
pub fn build_user_command(params: &ExternalCommandParameters) -> (r: Vec<String>)
    ensures
        views_of(r@) == built_command(*params, params.command@.len() as int),
{
    let mut command: Vec<String> = Vec::new();
    let mut i: usize = 0;
    while i < params.command.len()
        invariant
            i <= params.command@.len(),
            views_of(command@) == built_command(*params, i as int),
        decreases params.command@.len() - i,
    {
        let arg = params.command[i].as_str();
        if str_eq(arg, "{{branches}}") {
            extend_views(&mut command, &params.branches);
        } else if str_eq(arg, "{{remote_branches}}") {
            extend_views(&mut command, &params.remote_branches);
        } else if str_eq(arg, "{{tags}}") {
            extend_views(&mut command, &params.tags);
        } else if str_eq(arg, "{{refs}}") {
            extend_views(&mut command, &params.all_refs);
        } else if str_eq(arg, "{{parent_hashes}}") {
            extend_views(&mut command, &params.parent_hashes);
        } else {
            let ghost before = command@;
            command.push(replace_command_arg(arg, params));
            proof {
                assert(views_of(command@) =~= views_of(before).push(replaced_arg(params.command@[i as int]@, *params)));
            }
        }
        i += 1;
    }
    command
}

/// Which refs a user command marker lists.
#[derive(Debug, Clone, Copy, PartialEq, Eq, Structural)]
pub enum RefKind {
    All,
    Branch,
    RemoteBranch,
    Tag,
}

pub open spec fn ref_of_kind(r: Ref, kind: RefKind) -> bool {
    match kind {
        RefKind::All => true,
        RefKind::Branch => r is Branch,
        RefKind::RemoteBranch => r is RemoteBranch,
        RefKind::Tag => r is Tag,
    }
}

/// The names of the refs of `kind` among the first `n` of `refs`, in order.
pub open spec fn names_of_kind(refs: Seq<Ref>, kind: RefKind, n: int) -> Seq<Seq<char>>
    decreases n,
{
    if n <= 0 {
        Seq::empty()
    } else if ref_of_kind(refs[n - 1], kind) {
        names_of_kind(refs, kind, n - 1).push(ref_name(refs[n - 1]))
    } else {
        names_of_kind(refs, kind, n - 1)
    }
}

fn names_where(refs: &Vec<Ref>, kind: RefKind) -> (r: Vec<String>)
    ensures
        views_of(r@) == names_of_kind(refs@, kind, refs@.len() as int),
{
    let mut out: Vec<String> = Vec::new();
    let mut i: usize = 0;
    while i < refs.len()
        invariant
            i <= refs@.len(),
            views_of(out@) == names_of_kind(refs@, kind, i as int),
        decreases refs@.len() - i,
    {
        let r = &refs[i];
        let keep = match kind {
            RefKind::All => true,
            RefKind::Branch => match r {
                Ref::Branch { .. } => true,
                _ => false,
            },
            RefKind::RemoteBranch => match r {
                Ref::RemoteBranch { .. } => true,
                _ => false,
            },
            RefKind::Tag => match r {
                Ref::Tag { .. } => true,
                _ => false,
            },
        };
        if keep {
            let ghost before = out@;
            out.push(String::from_str(r.name()));
            proof {
                assert(views_of(out@) =~= views_of(before).push(ref_name(refs@[i as int])));
            }
        }
        i += 1;
    }
    out
}

/// What a user command run on `commit`, whose refs are `refs`, is told:
/// the command's words, the commit's hash and its parents' hashes, the
/// names of all its refs and of its branches, remote branches and tags (in
/// the order of `refs`), and the size of the area its output is shown in.
pub fn command_parameters(command: &Vec<String>, commit: &Commit, refs: &Vec<Ref>, area_width: u16, area_height: u16) -> (p:
    ExternalCommandParameters)
    ensures
        p.command@ == command@,
        p.target_hash@ == commit.commit_hash@,
        views_of(p.parent_hashes@) == commit.parent_commit_hashes@.map_values(|h: crate::git::CommitHash| h@),
        views_of(p.all_refs@) == names_of_kind(refs@, RefKind::All, refs@.len() as int),
        views_of(p.branches@) == names_of_kind(refs@, RefKind::Branch, refs@.len() as int),
        views_of(p.remote_branches@) == names_of_kind(refs@, RefKind::RemoteBranch, refs@.len() as int),
        views_of(p.tags@) == names_of_kind(refs@, RefKind::Tag, refs@.len() as int),
        p.area_width == area_width,
        p.area_height == area_height,
{
    let mut words: Vec<String> = Vec::new();
    let mut i: usize = 0;
    while i < command.len()
        invariant
            i <= command@.len(),
            words@ == command@.take(i as int),
        decreases command@.len() - i,
    {
        words.push(command[i].clone());
        proof {
            assert(command@.take(i + 1) == command@.take(i as int).push(command@[i as int]));
        }
        i += 1;
    }
    proof {
        assert(command@.take(command@.len() as int) == command@);
    }
    let hashes = &commit.parent_commit_hashes;
    let mut parents: Vec<String> = Vec::new();
    let mut k: usize = 0;
    while k < hashes.len()
        invariant
            k <= hashes@.len(),
            views_of(parents@) == hashes@.take(k as int).map_values(|h: crate::git::CommitHash| h@),
        decreases hashes@.len() - k,
    {
        let ghost before = parents@;
        parents.push(String::from_str(hashes[k].as_str()));
        proof {
            assert(hashes@.take(k + 1) == hashes@.take(k as int).push(hashes@[k as int]));
            assert(views_of(parents@) =~= views_of(before).push(hashes@[k as int]@));
            assert(views_of(parents@) =~= hashes@.take(k + 1).map_values(|h: crate::git::CommitHash| h@));
        }
        k += 1;
    }
    proof {
        assert(hashes@.take(hashes@.len() as int) == hashes@);
    }
    ExternalCommandParameters {
        command: words,
        target_hash: String::from_str(commit.commit_hash.as_str()),
        parent_hashes: parents,
        all_refs: names_where(refs, RefKind::All),
        branches: names_where(refs, RefKind::Branch),
        remote_branches: names_where(refs, RefKind::RemoteBranch),
        tags: names_where(refs, RefKind::Tag),
        area_width,
        area_height,
    }
}

} // verus!
