use serie::color::TermColor;
use serie::event::{user_event_from_name, UserEvent};
use serie::git::{Commit, CommitDate, CommitHash, CommitType, Head, Ref};
use serie::graph::image::{graph_cell_width, CellWidthType};
use serie::view::list::ListView;
use serie::widget::commit_list::{ref_name_rows, CommitInfo, CommitListState};

fn commit(hash: &str, subject: &str, parents: &[&str]) -> Commit {
    Commit {
        commit_hash: CommitHash::new(hash),
        author_name: "Alice".into(),
        author_email: "alice@example.com".into(),
        author_date: CommitDate::default(),
        committer_name: "Alice".into(),
        committer_email: "alice@example.com".into(),
        committer_date: CommitDate::default(),
        subject: subject.into(),
        body: String::new(),
        parent_commit_hashes: parents.iter().map(|p| CommitHash::new(p)).collect(),
        commit_type: CommitType::Commit,
    }
}

fn list(n: usize, height: usize) -> CommitListState {
    let mut infos = Vec::new();
    let mut refs_rows = Vec::new();
    for i in 0..n {
        let hash = format!("{:040}", i);
        let parent = format!("{:040}", i + 1);
        let parents: Vec<&str> = if i + 1 < n { vec![parent.as_str()] } else { vec![] };
        let refs = if i == 2 { vec![Ref::Tag { name: "v1".into(), target: CommitHash::new(&hash) }] } else { vec![] };
        if i == 2 {
            refs_rows.push(("v1".to_string(), 2));
        }
        infos.push(CommitInfo::new(commit(&hash, &format!("subject {i}"), &parents), refs, TermColor::Reset));
    }
    let mut s = CommitListState::new(infos, 2, Head::Branch { name: "main".into() }, refs_rows, false, false);
    s.update_state(height);
    s
}

#[test]
fn next_then_prev_returns_to_the_same_commit() {
    let mut s = list(10, 3);
    for _ in 0..5 {
        s.select_next();
    }
    assert_eq!(s.current_selected_index(), 5);
    assert_eq!(s.selected_in_window(), 2);
    assert_eq!(s.window_offset(), 3);
    s.select_prev();
    assert_eq!(s.current_selected_index(), 4);
    s.select_next();
    assert_eq!(s.current_selected_index(), 5);
}

#[test]
fn moving_stops_at_both_ends() {
    let mut s = list(4, 10);
    s.select_prev();
    assert_eq!(s.current_selected_index(), 0);
    for _ in 0..10 {
        s.select_next();
    }
    assert_eq!(s.current_selected_index(), 3);
}

#[test]
fn select_ref_jumps_to_its_commit() {
    let mut s = list(10, 3);
    s.select_ref("v1");
    assert_eq!(s.current_selected_index(), 2);
    s.select_ref("unknown");
    assert_eq!(s.current_selected_index(), 2);
}

#[test]
fn search_reports_its_matches() {
    let mut s = list(10, 3);
    s.start_search();
    assert_eq!(s.search_query_string(), Some("/".to_string()));
    s.handle_search_input("subject 7");
    assert_eq!(s.search_query_string(), Some("/subject 7".to_string()));
    s.apply_search();
    assert_eq!(s.current_selected_index(), 7);
    assert_eq!(
        s.matched_query_string(),
        Some(("Match 1 of 1 (query: \"subject 7\")".to_string(), true))
    );
}

#[test]
fn search_without_matches_warns() {
    let mut s = list(5, 3);
    s.start_search();
    s.handle_search_input("nothing like this");
    s.apply_search();
    assert_eq!(
        s.matched_query_string(),
        Some(("No matches found (query: \"nothing like this\")".to_string(), false))
    );
}

#[test]
fn every_action_name_reads_back_as_its_event() {
    let table = [
        ("force_quit", UserEvent::ForceQuit),
        ("quit", UserEvent::Quit),
        ("help_toggle", UserEvent::HelpToggle),
        ("cancel", UserEvent::Cancel),
        ("close", UserEvent::Close),
        ("navigate_up", UserEvent::NavigateUp),
        ("navigate_down", UserEvent::NavigateDown),
        ("navigate_right", UserEvent::NavigateRight),
        ("navigate_left", UserEvent::NavigateLeft),
        ("select_up", UserEvent::SelectUp),
        ("select_down", UserEvent::SelectDown),
        ("go_to_top", UserEvent::GoToTop),
        ("go_to_bottom", UserEvent::GoToBottom),
        ("go_to_parent", UserEvent::GoToParent),
        ("scroll_up", UserEvent::ScrollUp),
        ("scroll_down", UserEvent::ScrollDown),
        ("page_up", UserEvent::PageUp),
        ("page_down", UserEvent::PageDown),
        ("half_page_up", UserEvent::HalfPageUp),
        ("half_page_down", UserEvent::HalfPageDown),
        ("select_top", UserEvent::SelectTop),
        ("select_middle", UserEvent::SelectMiddle),
        ("select_bottom", UserEvent::SelectBottom),
        ("go_to_next", UserEvent::GoToNext),
        ("go_to_previous", UserEvent::GoToPrevious),
        ("confirm", UserEvent::Confirm),
        ("ref_list_toggle", UserEvent::RefListToggle),
        ("search", UserEvent::Search),
        ("filter", UserEvent::Filter),
        ("ignore_case_toggle", UserEvent::IgnoreCaseToggle),
        ("fuzzy_toggle", UserEvent::FuzzyToggle),
        ("short_copy", UserEvent::ShortCopy),
        ("full_copy", UserEvent::FullCopy),
        ("create_tag", UserEvent::CreateTag),
        ("delete_tag", UserEvent::DeleteTag),
        ("refresh", UserEvent::Refresh),
        ("unknown", UserEvent::Unknown),
    ];
    for (name, event) in table {
        assert_eq!(user_event_from_name(name), Some(event), "{name}");
    }
    assert_eq!(user_event_from_name("user_command_view_toggle_3"), Some(UserEvent::UserCommandViewToggle(3)));
    assert_eq!(user_event_from_name("user_command_view_toggle_"), None);
    assert_eq!(user_event_from_name("navigate"), None);
}

#[test]
fn ref_names_map_to_their_rows() {
    let tag = |n: &str| Ref::Tag { name: n.into(), target: CommitHash::new("x") };
    let branch = |n: &str| Ref::Branch { name: n.into(), target: CommitHash::new("x") };
    let rows = vec![vec![branch("main"), tag("v1")], vec![], vec![tag("v0")]];
    assert_eq!(
        ref_name_rows(&rows),
        vec![("main".to_string(), 0), ("v1".to_string(), 0), ("v0".to_string(), 2)]
    );
}

#[test]
fn graph_column_is_one_or_two_cells_per_lane() {
    assert_eq!(graph_cell_width(0, CellWidthType::Single), 1);
    assert_eq!(graph_cell_width(3, CellWidthType::Double), 8);
    assert_eq!(graph_cell_width(3, CellWidthType::Single), 4);
}

#[test]
fn list_view_records_and_drops_a_tag() {
    let mut view = ListView::new(list(5, 3));
    let target = CommitHash::new(&format!("{:040}", 1));
    view.add_ref_to_commit(&target, Ref::Tag { name: "v0".into(), target: target.clone() });
    let s = view.list_state_mut().unwrap();
    s.select_ref("v0");
    assert_eq!(s.current_selected_index(), 1);
    let names: Vec<String> = s.selected_commit_refs().iter().map(|r| r.name().to_string()).collect();
    assert_eq!(names, vec!["v0".to_string()]);

    view.remove_ref_from_commit(&target, "v0");
    let s = view.list_state_mut().unwrap();
    assert!(s.selected_commit_refs().is_empty());
    s.select_ref("v1");
    assert_eq!(s.current_selected_index(), 2);
    s.select_ref("v0");
    assert_eq!(s.current_selected_index(), 2);
}

#[test]
fn list_view_ignores_an_unknown_commit() {
    let mut view = ListView::new(list(5, 3));
    let other = CommitHash::new(&format!("{:040}", 99));
    view.add_ref_to_commit(&other, Ref::Tag { name: "v9".into(), target: other.clone() });
    let s = view.list_state_mut().unwrap();
    s.select_ref("v9");
    assert_eq!(s.current_selected_index(), 0);
}
