use serie::git::{
    check_git_repository, collect_show_refs, commit_parent_rows, commits_format, create_tag_args, load_commits_format,
    merge_stashes_to_commits, parse_commit_record, parse_diff_summary_line, parse_parent_commit_hashes,
    parse_show_ref_line, parse_stash_ref_line, refs_by_row, sort_refs, split_remote_branch_name, Commit,
    CommitDate, CommitHash, CommitIndex, CommitType, FileChange, Head, Ref, RefOperation, ShowRefEntry,
};

fn commit(hash: &str, parents: &[&str], commit_type: CommitType) -> Commit {
    Commit {
        commit_hash: CommitHash::new(hash),
        author_name: String::new(),
        author_email: String::new(),
        author_date: CommitDate::default(),
        committer_name: String::new(),
        committer_email: String::new(),
        committer_date: CommitDate::default(),
        subject: hash.to_string(),
        body: String::new(),
        parent_commit_hashes: parents.iter().map(|p| CommitHash::new(p)).collect(),
        commit_type,
    }
}

fn record(fields: &[&str]) -> String {
    fields.join("\u{1f}")
}

#[test]
fn log_format_joins_the_fields() {
    assert_eq!(load_commits_format(), "%H%x1f%an%x1f%ae%x1f%ad%x1f%cn%x1f%ce%x1f%cd%x1f%s%x1f%b%x1f%P");
}

#[test]
fn a_log_record_reads_into_a_commit() {
    let r = record(&[
        "abc123",
        "Alice",
        "alice@example.com",
        "2024-01-02T03:04:05+09:00",
        "Bob",
        "bob@example.com",
        "2024-01-03T00:00:00.5Z",
        "subject line",
        "body\ntext",
        "p1 p2",
    ]);
    let c = parse_commit_record(&r, CommitType::Commit).unwrap();
    assert_eq!(c.commit_hash.as_str(), "abc123");
    assert_eq!(c.author_name, "Alice");
    assert_eq!(c.author_email, "alice@example.com");
    assert_eq!(c.author_date, CommitDate { timestamp: 1704132245, nanos: 0, offset_seconds: 32400 });
    assert_eq!(c.committer_name, "Bob");
    assert_eq!(c.committer_date, CommitDate { timestamp: 1704240000, nanos: 500_000_000, offset_seconds: 0 });
    assert_eq!(c.subject, "subject line");
    assert_eq!(c.body, "body\ntext");
    let parents: Vec<&str> = c.parent_commit_hashes.iter().map(|h| h.as_str()).collect();
    assert_eq!(parents, vec!["p1", "p2"]);
    assert_eq!(c.commit_type, CommitType::Commit);
}

#[test]
fn malformed_log_records_are_refused() {
    let nine = record(&["a", "b", "c", "2024-01-02T03:04:05Z", "e", "f", "2024-01-02T03:04:05Z", "h", "i"]);
    assert!(parse_commit_record(&nine, CommitType::Commit).is_none());
    let bad_date = record(&["a", "b", "c", "yesterday", "e", "f", "2024-01-02T03:04:05Z", "h", "i", ""]);
    assert!(parse_commit_record(&bad_date, CommitType::Commit).is_none());
}

#[test]
fn parent_hashes_split_at_spaces() {
    assert!(parse_parent_commit_hashes("").is_empty());
    let ps: Vec<String> = parse_parent_commit_hashes("a b").iter().map(|h| h.as_str().to_string()).collect();
    assert_eq!(ps, vec!["a", "b"]);
}

#[test]
fn show_ref_lines_are_classified() {
    match parse_show_ref_line("h1 HEAD") {
        Some(ShowRefEntry::Head { hash }) => assert_eq!(hash, "h1"),
        other => panic!("{other:?}"),
    }
    match parse_show_ref_line("h2 refs/heads/main") {
        Some(ShowRefEntry::Branch(Ref::Branch { name, target })) => {
            assert_eq!(name, "main");
            assert_eq!(target.as_str(), "h2");
        }
        other => panic!("{other:?}"),
    }
    match parse_show_ref_line("h3 refs/remotes/origin/main") {
        Some(ShowRefEntry::Branch(Ref::RemoteBranch { name, .. })) => assert_eq!(name, "origin/main"),
        other => panic!("{other:?}"),
    }
    match parse_show_ref_line("h4 refs/tags/v1.0^{}") {
        Some(ShowRefEntry::Tag(Ref::Tag { name, target })) => {
            assert_eq!(name, "v1.0");
            assert_eq!(target.as_str(), "h4");
        }
        other => panic!("{other:?}"),
    }
    assert!(matches!(parse_show_ref_line("h5 refs/notes/x"), Some(ShowRefEntry::Other)));
    assert!(parse_show_ref_line("too many parts here").is_none());
}

#[test]
fn annotated_tags_point_at_their_commit_and_head_follows_the_branch() {
    let lines = ["c1 HEAD", "c1 refs/heads/main", "t1 refs/tags/v1", "c0 refs/tags/v1^{}"];
    let entries: Vec<ShowRefEntry> = lines.iter().map(|l| parse_show_ref_line(l).unwrap()).collect();
    let (refs, head) = collect_show_refs(&entries, Some("main".to_string())).unwrap();
    assert_eq!(refs.len(), 2);
    assert!(matches!(&refs[0], Ref::Branch { name, .. } if name == "main"));
    assert!(matches!(&refs[1], Ref::Tag { name, target } if name == "v1" && target.as_str() == "c0"));
    assert!(matches!(head, Head::Branch { name } if name == "main"));

    let (_, head) = collect_show_refs(&entries, None).unwrap();
    assert!(matches!(head, Head::Detached { target } if target.as_str() == "c1"));

    let no_head: Vec<ShowRefEntry> = vec![parse_show_ref_line("c1 refs/heads/main").unwrap()];
    assert!(collect_show_refs(&no_head, None).is_none());
}

#[test]
fn stash_lines_read_into_stash_refs() {
    match parse_stash_ref_line("stash@{0}\u{1f}abc\u{1f}WIP on main") {
        Some(Ref::Stash { name, message, target }) => {
            assert_eq!(name, "stash@{0}");
            assert_eq!(message, "WIP on main");
            assert_eq!(target.as_str(), "abc");
        }
        other => panic!("{other:?}"),
    }
    assert!(parse_stash_ref_line("stash@{0}\u{1f}abc").is_none());
}

#[test]
fn stashes_go_right_before_their_base_commit() {
    let commits = vec![commit("c2", &["c1"], CommitType::Commit), commit("c1", &[], CommitType::Commit)];
    let stashes = vec![commit("s1", &["c1", "i1"], CommitType::Stash), commit("s9", &["gone"], CommitType::Stash)];
    let merged = merge_stashes_to_commits(&commits, &stashes);
    let order: Vec<&str> = merged.iter().map(|c| c.commit_hash.as_str()).collect();
    assert_eq!(order, vec!["c2", "s1", "c1"]);
}

#[test]
fn parent_rows_and_lookup() {
    let commits = vec![
        commit("c3", &["c2", "x"], CommitType::Commit),
        commit("c2", &["c1"], CommitType::Commit),
        commit("c1", &[], CommitType::Commit),
    ];
    assert_eq!(commit_parent_rows(&commits), vec![vec![Some(1), None], vec![Some(2)], vec![]]);
    let hashes: Vec<CommitHash> = commits.iter().map(|c| c.commit_hash.clone()).collect();
    let index = CommitIndex::new(&hashes);
    assert_eq!(index.len(), 3);
    assert_eq!(index.find(&CommitHash::new("c1")), Some(2));
    assert_eq!(index.find(&CommitHash::new("zz")), None);
}

#[test]
fn refs_are_sorted_and_grouped_by_row() {
    let h = |s: &str| CommitHash::new(s);
    let refs = vec![
        Ref::Branch { name: "main".into(), target: h("c1") },
        Ref::Tag { name: "v2".into(), target: h("c1") },
        Ref::Tag { name: "v1".into(), target: h("c1") },
        Ref::RemoteBranch { name: "origin/main".into(), target: h("c2") },
        Ref::Branch { name: "lost".into(), target: h("zz") },
    ];
    let sorted: Vec<String> = sort_refs(&refs).iter().map(|r| r.name().to_string()).collect();
    assert_eq!(sorted, vec!["v1", "v2", "lost", "main", "origin/main"]);
    let index = CommitIndex::new(&vec![h("c1"), h("c2")]);
    let table = refs_by_row(&index, &refs);
    let row0: Vec<&str> = table[0].iter().map(|r| r.name()).collect();
    let row1: Vec<&str> = table[1].iter().map(|r| r.name()).collect();
    assert_eq!(row0, vec!["v1", "v2", "main"]);
    assert_eq!(row1, vec!["origin/main"]);
}

#[test]
fn diff_summary_lines() {
    assert!(matches!(parse_diff_summary_line("A\tsrc/new.rs"), Ok(Some(FileChange::Add { path })) if path == "src/new.rs"));
    assert!(matches!(parse_diff_summary_line("M\ta.rs"), Ok(Some(FileChange::Modify { path })) if path == "a.rs"));
    assert!(matches!(parse_diff_summary_line("D\tb.rs"), Ok(Some(FileChange::Delete { path })) if path == "b.rs"));
    assert!(matches!(
        parse_diff_summary_line("R100\told.rs\tnew.rs"),
        Ok(Some(FileChange::Move { from, to })) if from == "old.rs" && to == "new.rs"
    ));
    assert!(matches!(parse_diff_summary_line("T\tlink"), Ok(None)));
    assert!(parse_diff_summary_line("").is_err());
    assert!(parse_diff_summary_line("A").is_err());
    assert!(parse_diff_summary_line("R100\told.rs").is_err());
}

#[test]
fn repository_check_and_remote_names() {
    assert!(check_git_repository(true, false).is_ok());
    assert!(check_git_repository(false, true).is_ok());
    assert_eq!(
        check_git_repository(false, false),
        Err("not a git repository (or any of the parent directories)".to_string())
    );
    assert_eq!(
        split_remote_branch_name("origin/feature/x"),
        Some(("origin".to_string(), "feature/x".to_string()))
    );
    assert_eq!(split_remote_branch_name("main"), None);
}

#[test]
fn ref_operations_run_git_with_their_arguments() {
    let hash = CommitHash::new("abc");
    assert_eq!(create_tag_args("v1", &hash, Some("msg")), vec!["tag", "-a", "-m", "msg", "v1", "abc"]);
    assert_eq!(create_tag_args("v1", &hash, Some("")), vec!["tag", "v1", "abc"]);
    assert_eq!(create_tag_args("v1", &hash, None), vec!["tag", "v1", "abc"]);
    let op = RefOperation::DeleteRemoteBranch { name: "origin/feature".into() };
    assert_eq!(op.args(), Ok(vec!["push".to_string(), "origin".into(), "--delete".into(), "feature".into()]));
    let bad = RefOperation::DeleteRemoteBranch { name: "feature".into() };
    assert_eq!(bad.args(), Err("Invalid remote branch name format: feature".to_string()));
    let tag = RefOperation::DeleteTag { name: "v1".into() };
    assert_eq!(tag.args(), Ok(vec!["tag".to_string(), "-d".into(), "v1".into()]));
    assert_eq!(tag.failure_message("oops"), "Failed to delete tag: oops");
    let push = RefOperation::PushTag { name: "v1".into() };
    assert_eq!(push.spawn_failure_message("no git"), "Failed to execute git push: no git");
}

#[test]
fn mailmap_format_reads_mapped_identities() {
    assert_eq!(commits_format(true), "%H%x1f%aN%x1f%aE%x1f%ad%x1f%cN%x1f%cE%x1f%cd%x1f%s%x1f%b%x1f%P");
    assert_eq!(commits_format(false), load_commits_format());
}
