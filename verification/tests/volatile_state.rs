use tfar::state_machine::states::volatile::count_replicas;
use tfar::state_machine::states::{LeaderVolatileState, ServerVolatileState};

#[test]
fn new_volatile_state_is_zero() {
    let v = ServerVolatileState::new();
    assert_eq!(v.commit_index, 0);
    assert_eq!(v.last_applied, 0);
}

#[test]
fn commit_index_moves_only_forward() {
    let v = ServerVolatileState::new().with_commit_index(4);
    assert_eq!(v, ServerVolatileState { commit_index: 4, last_applied: 0 });
    let v = v.with_commit_index(2);
    assert_eq!(v.commit_index, 4);
    let v = v.with_commit_index(4);
    assert_eq!(v.commit_index, 4);
    let v = ServerVolatileState { commit_index: 4, last_applied: 3 }.with_commit_index(9);
    assert_eq!(v, ServerVolatileState { commit_index: 9, last_applied: 3 });
}

#[test]
fn new_leader_state_points_after_last_applied() {
    let l = LeaderVolatileState::new(0, 3);
    assert_eq!(l.next_index, vec![1, 1, 1]);
    assert_eq!(l.match_index, vec![0, 0, 0]);
    let l = LeaderVolatileState::new(6, 2);
    assert_eq!(l.next_index, vec![7, 7]);
    assert_eq!(l.match_index, vec![0, 0]);
    let l = LeaderVolatileState::new(6, 0);
    assert!(l.next_index.is_empty());
    assert!(l.match_index.is_empty());
}

#[test]
fn success_moves_match_and_next_of_one_server() {
    let l = LeaderVolatileState::new(0, 3).with_success(1, 5);
    assert_eq!(l.match_index, vec![0, 5, 0]);
    assert_eq!(l.next_index, vec![1, 6, 1]);
}

#[test]
fn success_never_moves_match_back() {
    let l = LeaderVolatileState::new(0, 3).with_success(1, 5).with_success(1, 3);
    assert_eq!(l.match_index, vec![0, 5, 0]);
    assert_eq!(l.next_index, vec![1, 6, 1]);
}

#[test]
fn success_of_an_unknown_server_changes_nothing() {
    let l = LeaderVolatileState::new(2, 3).with_success(3, 5);
    assert_eq!(l.match_index, vec![0, 0, 0]);
    assert_eq!(l.next_index, vec![3, 3, 3]);
}

#[test]
fn failure_steps_next_back_by_one_but_not_below_one() {
    let l = LeaderVolatileState::new(2, 3).with_failure(2);
    assert_eq!(l.next_index, vec![3, 3, 2]);
    assert_eq!(l.match_index, vec![0, 0, 0]);
    let l = l.with_failure(2);
    assert_eq!(l.next_index, vec![3, 3, 1]);
    let l = l.with_failure(2);
    assert_eq!(l.next_index, vec![3, 3, 1]);
    let l = l.with_failure(7);
    assert_eq!(l.next_index, vec![3, 3, 1]);
}

#[test]
fn replicas_are_the_servers_at_or_beyond_an_index() {
    let m: Vec<u64> = vec![0, 3, 5, 3, 9];
    assert_eq!(count_replicas(&m, 0), 5);
    assert_eq!(count_replicas(&m, 3), 4);
    assert_eq!(count_replicas(&m, 4), 2);
    assert_eq!(count_replicas(&m, 9), 1);
    assert_eq!(count_replicas(&m, 10), 0);
    assert_eq!(count_replicas(&Vec::new(), 0), 0);
}
