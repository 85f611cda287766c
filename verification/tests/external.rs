use serie::external::{
    build_user_command, command_parameters, copy_to_clipboard, replace_command_arg, ClipboardConfig,
    ClipboardRequest, ExternalCommandParameters,
};
use serie::git::{Commit, CommitDate, CommitHash, CommitType, Ref};

fn words(ws: &[&str]) -> Vec<String> {
    ws.iter().map(|w| w.to_string()).collect()
}

fn params(command: &[&str]) -> ExternalCommandParameters {
    ExternalCommandParameters {
        command: words(command),
        target_hash: "b0ce4cb".into(),
        parent_hashes: words(&["c103d97", "a1b2c3d"]),
        all_refs: words(&["master", "v1.0.0"]),
        branches: words(&["master", "feature branch"]),
        remote_branches: words(&["origin/master"]),
        tags: words(&["v1.0.0"]),
        area_width: 80,
        area_height: 19,
    }
}

#[test]
fn markers_inside_words_are_replaced() {
    let p = params(&[]);
    assert_eq!(replace_command_arg("{{first_parent_hash}}..{{target_hash}}", &p), "c103d97..b0ce4cb");
    assert_eq!(replace_command_arg("--size={{area_width}}x{{area_height}}", &p), "--size=80x19");
    assert_eq!(replace_command_arg("{{parent_hashes}}", &p), "c103d97 a1b2c3d");
    assert_eq!(replace_command_arg("refs: {{refs}}", &p), "refs: master v1.0.0");
    assert_eq!(replace_command_arg("plain", &p), "plain");
}

#[test]
fn list_markers_alone_become_one_word_each() {
    let p = params(&["git", "branch", "-D", "{{branches}}", "{{tags}}", "{{target_hash}}"]);
    assert_eq!(
        build_user_command(&p),
        words(&["git", "branch", "-D", "master", "feature branch", "v1.0.0", "b0ce4cb"])
    );
}

#[test]
fn first_parent_of_a_root_commit_is_empty() {
    let mut p = params(&[]);
    p.parent_hashes = Vec::new();
    assert_eq!(replace_command_arg("x{{first_parent_hash}}y", &p), "xy");
}

#[test]
fn clipboard_requests() {
    match copy_to_clipboard("abc".into(), &ClipboardConfig::Auto) {
        Ok(ClipboardRequest::System(v)) => assert_eq!(v, "abc"),
        _ => panic!("system clipboard expected"),
    }
    let custom = ClipboardConfig::Custom { commands: words(&["pbcopy", "-x"]) };
    match copy_to_clipboard("abc".into(), &custom) {
        Ok(ClipboardRequest::Command { program, args, input }) => {
            assert_eq!(program, "pbcopy");
            assert_eq!(args, words(&["-x"]));
            assert_eq!(input, "abc");
        }
        _ => panic!("command expected"),
    }
    let empty = ClipboardConfig::Custom { commands: Vec::new() };
    assert_eq!(copy_to_clipboard("abc".into(), &empty).err(), Some("No clipboard command specified".to_string()));
}

#[test]
fn parameters_list_the_refs_by_kind() {
    let hash = CommitHash::new("b0ce4cb9c798576af9b4accc9f26ddce5e72063d");
    let commit = Commit {
        commit_hash: hash.clone(),
        author_name: String::new(),
        author_email: String::new(),
        author_date: CommitDate::default(),
        committer_name: String::new(),
        committer_email: String::new(),
        committer_date: CommitDate::default(),
        subject: String::new(),
        body: String::new(),
        parent_commit_hashes: vec![CommitHash::new("c103d97"), CommitHash::new("a1b2c3d")],
        commit_type: CommitType::Commit,
    };
    let refs = vec![
        Ref::Branch { name: "master".into(), target: hash.clone() },
        Ref::Tag { name: "v1.0.0".into(), target: hash.clone() },
        Ref::RemoteBranch { name: "origin/master".into(), target: hash.clone() },
        Ref::Stash { name: "stash@{0}".into(), message: "wip".into(), target: hash.clone() },
    ];
    let p = command_parameters(&words(&["git", "show"]), &commit, &refs, 80, 19);
    assert_eq!(p.command, words(&["git", "show"]));
    assert_eq!(p.target_hash, "b0ce4cb9c798576af9b4accc9f26ddce5e72063d");
    assert_eq!(p.parent_hashes, words(&["c103d97", "a1b2c3d"]));
    assert_eq!(p.all_refs, words(&["master", "v1.0.0", "origin/master", "stash@{0}"]));
    assert_eq!(p.branches, words(&["master"]));
    assert_eq!(p.remote_branches, words(&["origin/master"]));
    assert_eq!(p.tags, words(&["v1.0.0"]));
    assert_eq!((p.area_width, p.area_height), (80, 19));
}
