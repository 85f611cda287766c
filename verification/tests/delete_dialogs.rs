use serie::event::{AppEvent, UserEvent};
use serie::git::{CommitHash, Ref, RefOperation, RefType};
use serie::view::delete_ref::{DeleteRefDialog, RefJobStep};
use serie::view::delete_tag::{compare_semver, sort_tag_names, DeleteTagDialog};
use std::cmp::Ordering;

fn hash(s: &str) -> CommitHash {
    CommitHash::new(s)
}

fn tag(name: &str) -> Ref {
    Ref::Tag { name: name.to_string(), target: hash("abc") }
}

#[test]
fn compare_semver_orders_versions_then_names() {
    assert_eq!(compare_semver("v1.2.3", "1.10.0"), Ordering::Less);
    assert_eq!(compare_semver("1.2.3", "v1.2.3"), Ordering::Equal);
    assert_eq!(compare_semver("1.2.3-rc1", "1.2.3"), Ordering::Greater);
    assert_eq!(compare_semver("1.2", "0.0.1"), Ordering::Greater);
    assert_eq!(compare_semver("beta", "alpha"), Ordering::Greater);
    assert_eq!(compare_semver("2.0.0", "zzz"), Ordering::Less);
    assert_eq!(compare_semver("1.x.0", "1.0.0"), Ordering::Greater);
}

#[test]
fn sort_tag_names_is_stable_and_ascending() {
    let names: Vec<String> = ["release", "v2.0.0", "1.0.0", "v1.0.0", "alpha", "1.10.0"]
        .iter()
        .map(|s| s.to_string())
        .collect();
    let sorted = sort_tag_names(names);
    assert_eq!(sorted, vec!["1.0.0", "v1.0.0", "1.10.0", "v2.0.0", "alpha", "release"]);
}

#[test]
fn delete_tag_dialog_lists_sorted_tags_and_moves_selection() {
    let refs = vec![
        tag("v2.0.0"),
        Ref::Branch { name: "main".to_string(), target: hash("abc") },
        tag("v1.0.0"),
    ];
    let mut d = DeleteTagDialog::new(hash("abc"), &refs);
    assert_eq!(d.tag_names(), &vec!["v1.0.0".to_string(), "v2.0.0".to_string()]);
    assert_eq!(d.selected_index(), 0);
    assert!(d.delete_from_remote());
    d.handle_event(UserEvent::NavigateDown);
    d.handle_event(UserEvent::NavigateDown);
    assert_eq!(d.selected_index(), 1);
    d.handle_event(UserEvent::SelectUp);
    assert_eq!(d.selected_index(), 0);
    d.handle_event(UserEvent::NavigateLeft);
    assert!(!d.delete_from_remote());
    let (evs, job) = d.handle_event(UserEvent::Confirm);
    assert_eq!(evs.len(), 2);
    match &evs[0] {
        AppEvent::ShowPendingOverlay { message } => assert_eq!(message, "Deleting tag 'v1.0.0'..."),
        e => panic!("unexpected {e:?}"),
    }
    assert!(matches!(evs[1], AppEvent::CloseDeleteTag));
    let job = job.unwrap();
    assert_eq!(job.tag_name, "v1.0.0");
    assert!(matches!(job.first(), RefOperation::DeleteTag { ref name } if name == "v1.0.0"));
    match job.step(1, Ok(())) {
        RefJobStep::Done(evs) => {
            assert_eq!(evs.len(), 3);
            assert!(matches!(&evs[1], AppEvent::NotifySuccess(m) if m == "Tag 'v1.0.0' deleted locally"));
        }
        s => panic!("unexpected {s:?}"),
    }
}

#[test]
fn delete_tag_dialog_with_no_tags_does_nothing_on_confirm() {
    let mut d = DeleteTagDialog::new(hash("abc"), &vec![]);
    let (evs, job) = d.handle_event(UserEvent::Confirm);
    assert!(evs.is_empty());
    assert!(job.is_none());
    let (evs, _) = d.handle_event(UserEvent::Cancel);
    assert!(matches!(evs[0], AppEvent::CloseDeleteTag));
}

#[test]
fn delete_tag_job_reports_remote_failure_and_still_removes_tag() {
    let mut d = DeleteTagDialog::new(hash("abc"), &vec![tag("v1")]);
    let (_, job) = d.handle_event(UserEvent::Confirm);
    let job = job.unwrap();
    let op = match job.step(1, Ok(())) {
        RefJobStep::Run(op) => op,
        s => panic!("unexpected {s:?}"),
    };
    assert_eq!(op.args().unwrap(), vec!["push", "origin", "--delete", "v1"]);
    match job.step(2, Err("denied".to_string())) {
        RefJobStep::Done(evs) => {
            assert_eq!(evs.len(), 3);
            assert!(matches!(evs[0], AppEvent::HidePendingOverlay));
            assert!(matches!(&evs[1], AppEvent::NotifyError(m)
                if m == "Local tag deleted, but failed to delete from remote: denied"));
            assert!(matches!(&evs[2], AppEvent::RemoveTagFromCommit { tag_name, .. } if tag_name == "v1"));
        }
        s => panic!("unexpected {s:?}"),
    }
}

#[test]
fn delete_ref_dialog_toggles_and_runs_branch_deletion() {
    let mut d = DeleteRefDialog::new("feature".to_string(), RefType::Branch);
    assert!(!d.delete_from_remote);
    d.handle_event(UserEvent::NavigateRight);
    assert!(d.force_delete);
    let (evs, job) = d.handle_event(UserEvent::Confirm);
    assert!(matches!(&evs[0], AppEvent::ShowPendingOverlay { message } if message == "Force deleting branch 'feature'..."));
    assert!(matches!(evs[1], AppEvent::CloseDeleteRef));
    let job = job.unwrap();
    let op = job.first();
    assert_eq!(op.args().unwrap(), vec!["branch", "-D", "feature"]);
    match job.step(1, Ok(())) {
        RefJobStep::Done(evs) => {
            assert!(matches!(&evs[0], AppEvent::RemoveRefFromList { ref_name } if ref_name == "feature"));
            assert!(matches!(&evs[1], AppEvent::NotifySuccess(m) if m == "Branch 'feature' deleted"));
            assert!(matches!(evs[2], AppEvent::HidePendingOverlay));
        }
        s => panic!("unexpected {s:?}"),
    }
}

#[test]
fn delete_remote_branch_needs_a_remote() {
    let d = DeleteRefDialog::new("origin/feature".to_string(), RefType::RemoteBranch);
    assert!(d.delete_from_remote);
    let op = RefOperation::DeleteRemoteBranch { name: "origin/feature".to_string() };
    assert_eq!(op.args().unwrap(), vec!["push", "origin", "--delete", "feature"]);
    let bad = RefOperation::DeleteRemoteBranch { name: "feature".to_string() };
    assert_eq!(bad.args().unwrap_err(), "Invalid remote branch name format: feature");
    assert_eq!(bad.failure_message("boom"), "Failed to delete remote branch: boom");
    assert_eq!(bad.spawn_failure_message("no git"), "Failed to execute git push --delete: no git");
    let job_fail = {
        let mut d = DeleteRefDialog::new("v1".to_string(), RefType::Tag);
        let (_, job) = d.handle_event(UserEvent::Confirm);
        job.unwrap()
    };
    match job_fail.step(1, Err("no such tag".to_string())) {
        RefJobStep::Done(evs) => {
            assert_eq!(evs.len(), 2);
            assert!(matches!(&evs[1], AppEvent::NotifyError(m) if m == "no such tag"));
        }
        s => panic!("unexpected {s:?}"),
    }
}
