use serie::git::{Commit, CommitDate, CommitHash, CommitType, FileChange, Ref};
use serie::widget::detail_text::{detail_contents, lines_of, DetailStyle};

fn date(ts: i64) -> CommitDate {
    CommitDate { timestamp: ts, nanos: 0, offset_seconds: 0 }
}

fn commit(body: &str, parents: usize, committer: &str) -> Commit {
    Commit {
        commit_hash: CommitHash::new("0123456789abcdef"),
        author_name: "Ann".to_string(),
        author_email: "ann@example.com".to_string(),
        author_date: date(10),
        committer_name: committer.to_string(),
        committer_email: "ann@example.com".to_string(),
        committer_date: date(10),
        subject: "Fix it".to_string(),
        body: body.to_string(),
        parent_commit_hashes: (0..parents).map(|i| CommitHash::new(&format!("{i}abcdefghij"))).collect(),
        commit_type: CommitType::Commit,
    }
}

fn text(line: &[(String, DetailStyle)]) -> String {
    line.iter().map(|(s, _)| s.as_str()).collect()
}

#[test]
fn lines_of_matches_str_lines() {
    for s in ["", "a", "a\n", "a\r\nb", "a\n\nb\n", "x\r", "\n"] {
        let expected: Vec<String> = s.lines().map(|l| l.to_string()).collect();
        assert_eq!(lines_of(s), expected, "{s:?}");
    }
}

#[test]
fn detail_contents_for_simple_commit() {
    let c = commit("", 1, "Ann");
    let (labels, values) = detail_contents(&c, &vec![], &vec![], "2024-01-01", "2024-01-01", 4);
    let labels: Vec<String> = labels.iter().map(|l| text(l)).collect();
    assert_eq!(labels, vec!["   Author: ", "", "      SHA: ", "  Parents: "]);
    let values: Vec<String> = values.iter().map(|l| text(l)).collect();
    assert_eq!(
        values,
        vec!["Ann <ann@example.com> ", "2024-01-01", "0123456789abcdef", "0abcdef", "────", "Fix it", "────"]
    );
}

#[test]
fn detail_contents_with_committer_refs_body_and_changes() {
    let c = commit("line one\r\nline two", 2, "Bob");
    let h = CommitHash::new("0123456789abcdef");
    let refs = vec![
        Ref::Branch { name: "main".to_string(), target: h.clone() },
        Ref::Stash { name: "stash@{0}".to_string(), message: "m".to_string(), target: h.clone() },
        Ref::Tag { name: "v1".to_string(), target: h.clone() },
    ];
    let changes = vec![
        FileChange::Add { path: "a.rs".to_string() },
        FileChange::Move { from: "b".to_string(), to: "c".to_string() },
    ];
    let (labels, values) = detail_contents(&c, &changes, &refs, "d1", "d2", 2);
    let labels: Vec<String> = labels.iter().map(|l| text(l)).collect();
    assert_eq!(labels, vec!["   Author: ", "", "Committer: ", "", "      SHA: ", "  Parents: ", "     Refs: "]);
    let styles: Vec<DetailStyle> = values[6].iter().map(|(_, s)| *s).collect();
    assert_eq!(styles, vec![DetailStyle::RefBranch, DetailStyle::Plain, DetailStyle::RefTag, DetailStyle::Plain]);
    let values: Vec<String> = values.iter().map(|l| text(l)).collect();
    assert_eq!(
        values,
        vec![
            "Ann <ann@example.com> ",
            "d1",
            "Bob <ann@example.com> ",
            "d2",
            "0123456789abcdef",
            "0abcdef 1abcdef",
            "main v1 ",
            "──",
            "Fix it",
            "",
            "line one",
            "line two",
            "──",
            "A a.rs",
            "R b -> c",
        ]
    );
}
