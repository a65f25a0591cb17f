use funnel::job::{IllegalTransition, Job, JobStatus, User};
use funnel::queue::Queue;
use funnel::sequence::Sequence;

fn job(user: &str, id: &str, status: JobStatus) -> Job {
    Job::new(User::new(user.to_string()), id.to_string(), status)
}

#[test]
fn job_accessors() {
    let j = job("alice", "scan1", JobStatus::Inbox);
    assert_eq!(j.user().to_string(), "alice");
    assert_eq!(j.id(), "scan1");
    assert_eq!(j.status(), JobStatus::Inbox);
}

#[test]
fn transitions_in_order() {
    let mut j = job("alice", "scan1", JobStatus::Inbox);
    assert_eq!(j.from_inbox_to_queued(), Ok(()));
    assert_eq!(j.status(), JobStatus::Queued);
    assert_eq!(j.from_queued_to_running(), Ok(()));
    assert_eq!(j.status(), JobStatus::Running);
    assert_eq!(j.from_running_to_finished(), Ok(()));
    assert_eq!(j.status(), JobStatus::Finished);
}

#[test]
fn queued_to_running_refuses_an_inbox_job() {
    let mut j = job("alice", "scan1", JobStatus::Inbox);
    assert_eq!(
        j.from_queued_to_running(),
        Err(IllegalTransition { expected: JobStatus::Queued, found: JobStatus::Inbox })
    );
    assert_eq!(j.status(), JobStatus::Inbox);
}

#[test]
fn out_of_order_transitions_are_refused() {
    let mut j = job("bob", "x", JobStatus::Running);
    assert_eq!(
        j.from_inbox_to_queued(),
        Err(IllegalTransition { expected: JobStatus::Inbox, found: JobStatus::Running })
    );
    let mut k = job("bob", "y", JobStatus::Queued);
    assert_eq!(
        k.from_running_to_finished(),
        Err(IllegalTransition { expected: JobStatus::Running, found: JobStatus::Queued })
    );
    let mut f = job("bob", "z", JobStatus::Finished);
    assert!(f.from_queued_to_running().is_err());
    assert_eq!(f.status(), JobStatus::Finished);
}

#[test]
fn jobs_equal_by_owner_and_id() {
    assert!(job("a", "1", JobStatus::Queued) == job("a", "1", JobStatus::Running));
    assert!(job("a", "1", JobStatus::Queued) != job("a", "2", JobStatus::Queued));
    assert!(job("a", "1", JobStatus::Queued) != job("b", "1", JobStatus::Queued));
    assert!(User::new("a".to_string()) == User::new("a".to_string()));
}

#[test]
fn pushing_the_same_job_twice_adds_one() {
    let mut q = Queue::new();
    assert!(q.push(job("alice", "1", JobStatus::Queued)));
    assert!(!q.push(job("alice", "1", JobStatus::Queued)));
    assert_eq!(q.len(), 1);
    assert!(q.push(job("alice", "2", JobStatus::Queued)));
    assert!(q.push(job("bob", "1", JobStatus::Queued)));
    assert_eq!(q.len(), 3);
}

#[test]
fn same_job_with_other_status_is_a_duplicate() {
    let mut q = Queue::new();
    assert!(q.push(job("alice", "1", JobStatus::Queued)));
    assert!(!q.push(job("alice", "1", JobStatus::Running)));
    assert_eq!(q.len(), 1);
}

#[test]
fn take_by_user_takes_one_queued_job() {
    let mut q = Queue::new();
    q.push(job("alice", "r", JobStatus::Running));
    q.push(job("bob", "b1", JobStatus::Queued));
    q.push(job("alice", "a1", JobStatus::Queued));
    q.push(job("alice", "a2", JobStatus::Queued));
    let taken = q.seq_by_user("alice".to_string()).unwrap();
    assert_eq!(taken.id(), "a1");
    assert_eq!(taken.status(), JobStatus::Queued);
    assert_eq!(q.len(), 3);
    let taken = q.seq_by_user("alice".to_string()).unwrap();
    assert_eq!(taken.id(), "a2");
    assert_eq!(q.len(), 2);
}

#[test]
fn take_by_user_never_takes_running_jobs() {
    let mut q = Queue::new();
    q.push(job("alice", "r", JobStatus::Running));
    q.push(job("alice", "f", JobStatus::Finished));
    assert!(q.seq_by_user("alice".to_string()).is_none());
    assert!(q.seq_by_user("bob".to_string()).is_none());
    assert_eq!(q.len(), 2);
}

#[test]
fn dump_empties_the_queue() {
    let mut q = Queue::new();
    q.push(job("alice", "1", JobStatus::Queued));
    q.push(job("bob", "1", JobStatus::Running));
    q.dump();
    assert_eq!(q.len(), 0);
}

#[test]
fn sequence_accessors() {
    let sq = Sequence::new("alice".to_string(), "scan1".to_string());
    assert_eq!(sq.get_user(), "alice");
    assert_eq!(sq.get_name(), "scan1");
}
