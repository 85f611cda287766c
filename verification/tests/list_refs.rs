use serie::git::{CommitHash, Head, Ref};
use serie::widget::commit_list::SearchMatchPosition;
use serie::widget::list_refs::{refs_spans, ListRefSpan, ListRefStyle};

fn hash(s: &str) -> CommitHash {
    CommitHash::new(s)
}

fn texts(spans: &[ListRefSpan]) -> Vec<(String, ListRefStyle)> {
    spans.iter().map(|s| (s.text.clone(), s.style)).collect()
}

fn branch(name: &str) -> Ref {
    Ref::Branch { name: name.into(), target: hash("aaa") }
}

#[test]
fn no_refs_give_no_label() {
    let spans = refs_spans(&vec![], &hash("aaa"), &Head::Branch { name: "main".into() }, &vec![]);
    assert!(spans.is_empty());
}

#[test]
fn head_branch_gets_an_arrow() {
    let refs = vec![branch("main"), Ref::Tag { name: "v1".into(), target: hash("aaa") }];
    let spans = refs_spans(&refs, &hash("aaa"), &Head::Branch { name: "main".into() }, &vec![]);
    assert_eq!(
        texts(&spans),
        vec![
            ("(".to_string(), ListRefStyle::Paren),
            ("HEAD -> ".to_string(), ListRefStyle::Head),
            ("main".to_string(), ListRefStyle::Branch),
            (", ".to_string(), ListRefStyle::Paren),
            ("v1".to_string(), ListRefStyle::Tag),
            (") ".to_string(), ListRefStyle::Paren),
        ]
    );
}

#[test]
fn detached_head_is_named_first() {
    let refs = vec![Ref::RemoteBranch { name: "origin/main".into(), target: hash("aaa") }];
    let spans = refs_spans(&refs, &hash("aaa"), &Head::Detached { target: hash("aaa") }, &vec![]);
    assert_eq!(
        texts(&spans),
        vec![
            ("(".to_string(), ListRefStyle::Paren),
            ("HEAD".to_string(), ListRefStyle::Head),
            (", ".to_string(), ListRefStyle::Paren),
            ("origin/main".to_string(), ListRefStyle::RemoteBranch),
            (") ".to_string(), ListRefStyle::Paren),
        ]
    );
    let alone = refs_spans(&vec![], &hash("aaa"), &Head::Detached { target: hash("aaa") }, &vec![]);
    assert_eq!(alone.len(), 3);
}

#[test]
fn a_lone_stash_shows_its_name() {
    let refs = vec![Ref::Stash { name: "stash@{0}".into(), message: "wip".into(), target: hash("aaa") }];
    let spans = refs_spans(&refs, &hash("aaa"), &Head::Branch { name: "main".into() }, &vec![]);
    assert_eq!(
        texts(&spans),
        vec![("stash@{0}".to_string(), ListRefStyle::Stash), (" ".to_string(), ListRefStyle::Plain)]
    );
}

#[test]
fn matched_names_carry_their_positions() {
    let refs = vec![branch("feature")];
    let matches = vec![("feature".to_string(), SearchMatchPosition::new(vec![0, 1]))];
    let spans = refs_spans(&refs, &hash("aaa"), &Head::Branch { name: "main".into() }, &matches);
    assert_eq!(spans[1].matched, Some(vec![0, 1]));
    assert_eq!(spans[0].matched, None);
}
