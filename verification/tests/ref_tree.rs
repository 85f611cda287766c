use serie::event::{AppEvent, UserEvent};
use serie::git::{CommitHash, Ref};
use serie::view::refs::{handle_refs_event, TreeMove};
use serie::widget::ref_list::{
    build_ref_tree_nodes, refs_to_ref_tree_nodes, selected_branch, selected_tag, RefTreeNode,
};

fn render(nodes: &[RefTreeNode], depth: usize, out: &mut Vec<String>) {
    for n in nodes {
        out.push(format!("{}{}={}", "  ".repeat(depth), n.identifier, n.name));
        render(&n.children, depth + 1, out);
    }
}

fn h() -> CommitHash {
    CommitHash::new("abc")
}

#[test]
fn ref_names_become_a_tree_of_paths() {
    let names = vec!["feature/a".to_string(), "main".to_string(), "feature/b/c".to_string()];
    let nodes = refs_to_ref_tree_nodes(names);
    let mut out = Vec::new();
    render(&nodes, 0, &mut out);
    assert_eq!(
        out,
        vec![
            "feature=feature",
            "  feature/a=a",
            "  feature/b=b",
            "    feature/b/c=c",
            "main=main",
        ]
    );
}

#[test]
fn ref_tree_roots_sort_each_kind() {
    let refs = vec![
        Ref::Branch { name: "main".to_string(), target: h() },
        Ref::Branch { name: "feature/x".to_string(), target: h() },
        Ref::Branch { name: "dev".to_string(), target: h() },
        Ref::RemoteBranch { name: "origin/main".to_string(), target: h() },
        Ref::Tag { name: "v1.2.0".to_string(), target: h() },
        Ref::Tag { name: "nightly".to_string(), target: h() },
        Ref::Tag { name: "v1.10.0".to_string(), target: h() },
        Ref::Stash { name: "stash@{1}".to_string(), message: "second".to_string(), target: h() },
        Ref::Stash { name: "stash@{0}".to_string(), message: "first".to_string(), target: h() },
    ];
    let nodes = build_ref_tree_nodes(&refs);
    let mut out = Vec::new();
    render(&nodes, 0, &mut out);
    assert_eq!(
        out,
        vec![
            "__branches__=Branches",
            "  feature=feature",
            "    feature/x=x",
            "  dev=dev",
            "  main=main",
            "__remotes__=Remotes",
            "  origin=origin",
            "    origin/main=main",
            "__tags__=Tags",
            "  v1.10.0=v1.10.0",
            "  v1.2.0=v1.2.0",
            "  nightly=nightly",
            "__stashes__=Stashes",
            "  stash@{0}=first",
            "  stash@{1}=second",
        ]
    );
}

#[test]
fn refs_view_selection_and_copy() {
    let branch = vec!["__branches__".to_string(), "feature".to_string(), "feature/x".to_string()];
    let tag = vec!["__tags__".to_string(), "v1".to_string()];
    let root = vec!["__tags__".to_string()];
    assert_eq!(selected_branch(&branch), Some("feature/x".to_string()));
    assert_eq!(selected_tag(&branch), None);
    assert_eq!(selected_tag(&tag), Some("v1".to_string()));
    assert_eq!(selected_tag(&root), None);
    let (evs, mv) = handle_refs_event(UserEvent::ShortCopy, &tag);
    assert!(mv.is_none());
    assert!(matches!(&evs[0], AppEvent::CopyToClipboard { name, value } if name == "Tag Name" && value == "v1"));
    let (evs, _) = handle_refs_event(UserEvent::FullCopy, &root);
    assert!(evs.is_empty());
    let (evs, mv) = handle_refs_event(UserEvent::NavigateDown, &root);
    assert!(evs.is_empty());
    assert_eq!(mv, Some(TreeMove::Next));
    let (evs, _) = handle_refs_event(UserEvent::RefListToggle, &root);
    assert!(matches!(evs[0], AppEvent::CloseRefs));
}
