use chrono::{Local, NaiveDate, TimeZone};
use serie::git::{Commit, CommitDate, CommitHash, CommitType};
use serie::graph::queue::PriorityQueue;

fn parse_date(date: &str) -> CommitDate {
    let local = NaiveDate::parse_from_str(date, "%Y-%m-%d").unwrap().and_hms_opt(1, 2, 3).unwrap();
    let dt = Local.from_local_datetime(&local).unwrap();
    CommitDate { timestamp: dt.timestamp(), nanos: 0, offset_seconds: dt.offset().local_minus_utc() }
}

fn commit(hash: &str, parent_hashes: &[&str], date: &str) -> Commit {
    Commit {
        commit_hash: CommitHash::new(hash),
        author_name: String::new(),
        author_email: String::new(),
        author_date: CommitDate::default(),
        committer_name: String::new(),
        committer_email: String::new(),
        committer_date: parse_date(date),
        subject: String::new(),
        body: String::new(),
        parent_commit_hashes: parent_hashes.iter().map(|s| CommitHash::new(s)).collect(),
        commit_type: CommitType::Commit,
    }
}

#[test]
fn test_priority_queue() {
    let mut queue = PriorityQueue::new();
    let c1 = commit("1", &[], "2024-01-04");
    let c2 = commit("2", &[], "2024-01-01");
    let c3 = commit("3", &[], "2024-01-02");
    let c4 = commit("4", &[], "2024-01-05");
    let c5 = commit("5", &[], "2024-01-03");

    queue.enqueue(&c1);
    queue.enqueue(&c2);

    assert_eq!(queue.dequeue().unwrap().commit_hash.as_short_hash(), "2");

    queue.enqueue(&c3);
    queue.enqueue(&c4);
    queue.enqueue(&c5);

    assert_eq!(queue.dequeue().unwrap().commit_hash.as_short_hash(), "3");
    assert_eq!(queue.dequeue().unwrap().commit_hash.as_short_hash(), "5");
    assert_eq!(queue.dequeue().unwrap().commit_hash.as_short_hash(), "1");
    assert_eq!(queue.dequeue().unwrap().commit_hash.as_short_hash(), "4");
}

#[test]
fn empty_queue_gives_nothing() {
    let mut queue = PriorityQueue::new();
    assert!(queue.dequeue().is_none());
    let c = commit("a", &[], "2024-01-01");
    queue.enqueue(&c);
    assert!(queue.dequeue().is_some());
    assert!(queue.dequeue().is_none());
}
