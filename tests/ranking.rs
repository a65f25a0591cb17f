use funnel::accounting::{Accounting, User};

fn s(x: &str) -> String {
    x.to_string()
}

#[test]
fn unseen_user_enters_with_one_pending() {
    let mut acc = Accounting::new();
    acc.queued(s("alice"));
    assert_eq!(acc.pending(&s("alice")), 1);
    assert_eq!(acc.served(&s("alice")), 0);
    assert_eq!(acc.next_user(), Some(s("alice")));
}

#[test]
fn queued_twice_counts_two() {
    let mut acc = Accounting::new();
    acc.queued(s("alice"));
    acc.queued(s("alice"));
    assert_eq!(acc.pending(&s("alice")), 2);
}

#[test]
fn scheduled_moves_one_from_pending_to_served() {
    let mut acc = Accounting::new();
    acc.queued(s("alice"));
    acc.queued(s("alice"));
    acc.scheduled(s("alice"));
    assert_eq!(acc.pending(&s("alice")), 1);
    assert_eq!(acc.served(&s("alice")), 1);
}

#[test]
fn scheduled_for_unseen_user_counts_one_served_none_pending() {
    let mut acc = Accounting::new();
    acc.scheduled(s("carol"));
    assert_eq!(acc.served(&s("carol")), 1);
    assert_eq!(acc.pending(&s("carol")), 0);
    assert_eq!(acc.next_user(), None);
}

#[test]
fn ties_go_to_the_first_seen_user() {
    let mut acc = Accounting::new();
    acc.queued(s("alice"));
    acc.queued(s("bob"));
    assert_eq!(acc.next_user(), Some(s("alice")));
    let mut acc = Accounting::new();
    acc.queued(s("bob"));
    acc.queued(s("alice"));
    assert_eq!(acc.next_user(), Some(s("bob")));
}

#[test]
fn served_user_goes_behind_less_served_users() {
    let mut acc = Accounting::new();
    acc.queued(s("alice"));
    acc.queued(s("alice"));
    acc.queued(s("bob"));
    acc.scheduled(s("alice"));
    // alice has been served once, bob never: bob comes first.
    assert_eq!(acc.next_user(), Some(s("bob")));
    acc.scheduled(s("bob"));
    // both served once; bob was ahead of alice before, and stays so.
    acc.queued(s("bob"));
    assert_eq!(acc.next_user(), Some(s("bob")));
}

#[test]
fn ranking_stays_ordered_over_a_run_of_updates() {
    let mut acc = Accounting::new();
    let names = ["a", "b", "c"];
    for n in names.iter() {
        acc.queued(s(n));
        acc.queued(s(n));
        acc.queued(s(n));
    }
    let mut order = Vec::new();
    for _ in 0..9 {
        let next = acc.next_user().unwrap();
        acc.scheduled(next.clone());
        order.push(next);
    }
    // Each round serves every user once; among users served equally often the
    // earlier order is kept, so the second round runs backwards.
    assert_eq!(order, vec!["a", "b", "c", "c", "b", "a", "a", "b", "c"]);
    assert_eq!(acc.next_user(), None);
}

#[test]
fn next_user_skips_users_without_pending_work() {
    let mut acc = Accounting::new();
    acc.queued(s("alice"));
    acc.scheduled(s("alice"));
    acc.queued(s("bob"));
    acc.scheduled(s("bob"));
    acc.queued(s("bob"));
    assert_eq!(acc.pending(&s("alice")), 0);
    assert_eq!(acc.next_user(), Some(s("bob")));
}

#[test]
fn empty_ranking_has_nobody_next() {
    let acc = Accounting::new();
    assert_eq!(acc.next_user(), None);
    assert_eq!(acc.pending(&s("nobody")), 0);
    assert_eq!(acc.served(&s("nobody")), 0);
}

#[test]
fn ranking_entry_counts() {
    let mut u = User::new(s("dave"));
    assert_eq!(u.get_name(), "dave");
    assert_eq!(u.num_queued(), 1);
    u.increment_queued();
    assert_eq!(u.num_queued(), 2);
    u.increment_scheduled();
    assert_eq!(u.num_queued(), 1);
}
