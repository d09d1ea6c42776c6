use std::time::Duration;
use tfar::rpc::append_entries::AppendEntriesResponse;
use tfar::rpc::vote::VoteResponse;
use tfar::state_machine::events::StateEvent;
use tfar::state_machine::machines::{Reply, Transition, TransitionError};
use tfar::state_machine::states::log::is_batch_after;
use tfar::state_machine::states::{
    Command, InternalState, LogEntry, LogEntryId, PersistentState, Server, ServerVolatileState,
    VoteResult,
};
use tfar::state_machine::{Follower, StateMachine};

fn entry(index: u64, term: u64) -> LogEntry {
    LogEntry { term, index, command: Command::Client(vec![index as u8]) }
}

fn id(index: u64, term: u64) -> LogEntryId {
    LogEntryId { index, term }
}

fn ids(log: &Vec<LogEntry>) -> Vec<(u64, u64)> {
    log.iter().map(|e| (e.index, e.term)).collect()
}

fn roster(n: usize) -> Vec<Server> {
    (0..n).map(|i| Server::new(format!("10.0.0.{}", i + 1), 7000 + i as u16)).collect()
}

fn persistent(term: u64, vote: Option<usize>, log: &[(u64, u64)]) -> PersistentState {
    let batch: Vec<LogEntry> = log.iter().map(|&(i, t)| entry(i, t)).collect();
    assert!(is_batch_after(&id(0, 0), &batch));
    let p = PersistentState::new().with_log_entries(id(0, 0), batch).with_new_term(term);
    match vote {
        Some(v) => p.with_vote_for(v),
        None => p,
    }
}

/// The follower 1 of a cluster of three.
fn follower(term: u64, vote: Option<usize>, log: &[(u64, u64)], leader: Option<usize>) -> Follower {
    let internal = InternalState::for_cluster(1, roster(3));
    let internal = match leader {
        Some(l) => internal.with_leader(l),
        None => internal,
    };
    Follower::new(persistent(term, vote, log), ServerVolatileState::new(), internal)
}

fn vote_request(term: u64, candidate: usize, last_log: LogEntryId) -> StateEvent {
    StateEvent::VoteRequest { term, candidate, last_log }
}

fn append(
    term: u64,
    leader: usize,
    prev_log: LogEntryId,
    entries: &[(u64, u64)],
    commit_idx: u64,
) -> StateEvent {
    StateEvent::AppendEntriesRequest {
        term,
        leader,
        prev_log,
        entries: entries.iter().map(|&(i, t)| entry(i, t)).collect(),
        commit_idx,
    }
}

fn unwrap_follower(t: &Transition) -> &Follower {
    match &t.next {
        StateMachine::Follower(f) => f,
        _ => panic!("not a follower"),
    }
}

fn vote_reply(term: u64, vote_granted: bool) -> Reply {
    Reply::Vote(VoteResponse { term, vote_granted })
}

fn append_reply(term: u64, success: bool) -> Reply {
    Reply::Append(AppendEntriesResponse { term, success })
}

#[test]
fn follower_new_keeps_what_it_is_given() {
    let f = follower(3, Some(2), &[(1, 1)], Some(2));
    assert_eq!(f.term(), 3);
    assert_eq!(f.persistent().voted_for(), Some(2));
    assert_eq!(ids(f.persistent().log()), vec![(1, 1)]);
    assert_eq!(f.volatile(), ServerVolatileState { commit_index: 0, last_applied: 0 });
    assert_eq!(f.internal().leader(), Some(2));
    assert_eq!(f.internal().id(), 1);
}

#[test]
fn follower_timeout_starts_an_election_in_the_next_term() {
    let t = follower(4, Some(2), &[(1, 1)], Some(2))
        .on_events(StateEvent::Timeout(Duration::from_millis(150)))
        .unwrap();
    assert_eq!(t.reply, Reply::Silent);
    assert!(t.persist);
    match t.next {
        StateMachine::Candidate(c) => {
            assert_eq!(c.term(), 5);
            assert_eq!(c.persistent().voted_for(), None);
            assert_eq!(ids(c.persistent().log()), vec![(1, 1)]);
            assert!(c.internal().is_voting());
            assert!(c.internal().has_voted(1));
            assert_eq!(c.internal().vote_granted(), VoteResult::NotYet(1));
            assert_eq!(c.internal().leader(), Some(2));
        },
        _ => panic!("not a candidate"),
    }
}

#[test]
fn follower_timeout_in_the_last_term_is_an_overflow() {
    let r = follower(u64::MAX, None, &[], None).on_events(StateEvent::Timeout(Duration::ZERO));
    assert!(matches!(r, Err(TransitionError::Overflow)));
}

#[test]
fn follower_grants_a_vote_and_moves_to_the_term() {
    let t = follower(1, None, &[(1, 1)], None).on_events(vote_request(3, 2, id(1, 1))).unwrap();
    assert_eq!(t.reply, vote_reply(3, true));
    assert!(t.persist);
    let f = unwrap_follower(&t);
    assert_eq!(f.term(), 3);
    assert_eq!(f.persistent().voted_for(), Some(2));
    assert_eq!(ids(f.persistent().log()), vec![(1, 1)]);
}

#[test]
fn follower_grants_the_same_candidate_again_without_a_write() {
    let t = follower(3, Some(2), &[], None).on_events(vote_request(3, 2, id(0, 0))).unwrap();
    assert_eq!(t.reply, vote_reply(3, true));
    assert!(!t.persist);
    assert_eq!(unwrap_follower(&t).persistent().voted_for(), Some(2));
}

#[test]
fn follower_votes_once_in_a_term() {
    let t = follower(3, None, &[], None).on_events(vote_request(3, 2, id(0, 0))).unwrap();
    assert_eq!(t.reply, vote_reply(3, true));
    let t = t.next.on_message(vote_request(3, 0, id(0, 0))).unwrap();
    assert_eq!(t.reply, vote_reply(3, false));
    assert!(!t.persist);
    assert_eq!(t.next.persistent().voted_for(), Some(2));
    assert_eq!(t.next.term(), 3);
}

#[test]
fn follower_refuses_a_short_log_but_moves_to_a_newer_term() {
    let t = follower(2, Some(0), &[(1, 1), (2, 2)], None)
        .on_events(vote_request(4, 2, id(1, 1)))
        .unwrap();
    assert_eq!(t.reply, vote_reply(4, false));
    assert!(t.persist);
    let f = unwrap_follower(&t);
    assert_eq!(f.term(), 4);
    assert_eq!(f.persistent().voted_for(), None);
}

#[test]
fn follower_refuses_an_older_term_and_stays() {
    let t = follower(4, None, &[], None).on_events(vote_request(3, 2, id(5, 5))).unwrap();
    assert_eq!(t.reply, vote_reply(4, false));
    assert!(!t.persist);
    let f = unwrap_follower(&t);
    assert_eq!(f.term(), 4);
    assert_eq!(f.persistent().voted_for(), None);
}

#[test]
fn follower_of_a_new_leader_takes_the_entries_in() {
    let t = follower(1, Some(0), &[(1, 1)], None)
        .on_events(append(2, 2, id(1, 1), &[(2, 2), (3, 2)], 2))
        .unwrap();
    assert_eq!(t.reply, append_reply(2, true));
    assert!(t.persist);
    let f = unwrap_follower(&t);
    assert_eq!(f.term(), 2);
    assert_eq!(f.persistent().voted_for(), None);
    assert_eq!(ids(f.persistent().log()), vec![(1, 1), (2, 2), (3, 2)]);
    assert_eq!(f.volatile().commit_index, 2);
    assert_eq!(f.internal().leader(), Some(2));
}

#[test]
fn follower_learns_the_leader_of_its_own_term_and_keeps_its_vote() {
    let t = follower(2, Some(2), &[], None).on_events(append(2, 2, id(0, 0), &[(1, 2)], 0)).unwrap();
    assert_eq!(t.reply, append_reply(2, true));
    let f = unwrap_follower(&t);
    assert_eq!(f.term(), 2);
    assert_eq!(f.persistent().voted_for(), Some(2));
    assert_eq!(ids(f.persistent().log()), vec![(1, 2)]);
    assert_eq!(f.internal().leader(), Some(2));
}

#[test]
fn follower_of_a_known_leader_appends_without_changing_term_or_leader() {
    let t = follower(2, None, &[(1, 2)], Some(2))
        .on_events(append(2, 2, id(1, 2), &[(2, 2)], 5))
        .unwrap();
    assert_eq!(t.reply, append_reply(2, true));
    assert!(t.persist);
    let f = unwrap_follower(&t);
    assert_eq!(f.term(), 2);
    assert_eq!(ids(f.persistent().log()), vec![(1, 2), (2, 2)]);
    // the leader has committed further than the batch reaches
    assert_eq!(f.volatile().commit_index, 2);
    assert_eq!(f.internal().leader(), Some(2));
}

#[test]
fn follower_heartbeat_commits_up_to_prev_and_writes_nothing() {
    let t = follower(2, None, &[(1, 2), (2, 2)], Some(2))
        .on_events(append(2, 2, id(2, 2), &[], 7))
        .unwrap();
    assert_eq!(t.reply, append_reply(2, true));
    assert!(!t.persist);
    let f = unwrap_follower(&t);
    assert_eq!(ids(f.persistent().log()), vec![(1, 2), (2, 2)]);
    assert_eq!(f.volatile().commit_index, 2);
}

#[test]
fn follower_never_moves_its_commit_index_back() {
    let f = Follower::new(
        persistent(2, None, &[(1, 2), (2, 2), (3, 2)]),
        ServerVolatileState { commit_index: 3, last_applied: 1 },
        InternalState::for_cluster(1, roster(3)).with_leader(2),
    );
    let t = f.on_events(append(2, 2, id(3, 2), &[], 1)).unwrap();
    assert_eq!(t.next.volatile(), ServerVolatileState { commit_index: 3, last_applied: 1 });
}

#[test]
fn follower_of_a_new_leader_with_a_mismatch_follows_but_appends_nothing() {
    let t = follower(1, Some(0), &[(1, 1), (2, 1)], None)
        .on_events(append(3, 2, id(1, 1), &[(2, 3)], 2))
        .unwrap();
    assert_eq!(t.reply, append_reply(3, false));
    assert!(t.persist);
    let f = unwrap_follower(&t);
    assert_eq!(f.term(), 3);
    assert_eq!(f.persistent().voted_for(), None);
    assert_eq!(ids(f.persistent().log()), vec![(1, 1), (2, 1)]);
    assert_eq!(f.volatile().commit_index, 0);
    assert_eq!(f.internal().leader(), Some(2));
}

#[test]
fn follower_refuses_a_mismatch_from_the_known_leader_and_stays() {
    let t = follower(2, None, &[(1, 2), (2, 2)], Some(2))
        .on_events(append(2, 2, id(1, 2), &[(2, 2)], 2))
        .unwrap();
    assert_eq!(t.reply, append_reply(2, false));
    assert!(!t.persist);
    let f = unwrap_follower(&t);
    assert_eq!(ids(f.persistent().log()), vec![(1, 2), (2, 2)]);
    assert_eq!(f.volatile().commit_index, 0);
}

#[test]
fn follower_refuses_a_leader_of_an_older_term() {
    let t = follower(3, None, &[], None).on_events(append(2, 2, id(0, 0), &[(1, 2)], 1)).unwrap();
    assert_eq!(t.reply, append_reply(3, false));
    assert!(!t.persist);
    let f = unwrap_follower(&t);
    assert_eq!(f.term(), 3);
    assert!(f.persistent().log().is_empty());
    assert_eq!(f.internal().leader(), None);
    assert_eq!(f.volatile().commit_index, 0);
}

#[test]
fn follower_finds_nothing_to_take_in_a_batch_that_is_out_of_order() {
    let t = follower(2, None, &[(1, 2)], Some(2))
        .on_events(append(2, 2, id(1, 2), &[(3, 2), (2, 2)], 3))
        .unwrap();
    // the log accepts prev, so the answer is a success; the batch counts as empty
    assert_eq!(t.reply, append_reply(2, true));
    assert!(!t.persist);
    let f = unwrap_follower(&t);
    assert_eq!(ids(f.persistent().log()), vec![(1, 2)]);
    assert_eq!(f.volatile().commit_index, 1);
}

#[test]
fn follower_finds_nothing_to_take_in_a_batch_that_does_not_come_after_prev() {
    let t = follower(1, None, &[], None)
        .on_events(append(2, 2, id(3, 1), &[(3, 2), (4, 2)], 2))
        .unwrap();
    assert_eq!(t.reply, append_reply(2, true));
    assert!(t.persist);
    let f = unwrap_follower(&t);
    assert_eq!(f.term(), 2);
    assert!(f.persistent().log().is_empty());
    assert_eq!(f.internal().leader(), Some(2));
    assert_eq!(f.volatile().commit_index, 2);
}

#[test]
fn follower_takes_the_next_request_of_its_leader_if_the_log_accepts_prev() {
    // a follower that has followed a leader without taking its first batch in
    let t = follower(3, None, &[(1, 1), (2, 3)], None)
        .on_events(append(4, 0, id(1, 2), &[(2, 4)], 1))
        .unwrap();
    assert_eq!(t.reply, append_reply(4, false));
    assert_eq!(t.next.internal().leader(), Some(0));
    // the leader goes back to an entry of its own term that the log accepts
    let t = t.next.on_message(append(4, 0, id(0, 4), &[(1, 4), (2, 4)], 1)).unwrap();
    assert_eq!(t.reply, append_reply(4, true));
    assert!(t.persist);
    let f = unwrap_follower(&t);
    assert_eq!(f.term(), 4);
    assert_eq!(f.internal().leader(), Some(0));
    assert_eq!(ids(f.persistent().log()), vec![(1, 4), (2, 4)]);
    assert_eq!(f.volatile().commit_index, 1);
}

#[test]
fn follower_takes_a_vote_response_for_a_violation() {
    let r = follower(1, None, &[], None)
        .on_events(StateEvent::VoteResponse { term: 1, vote_granted: true, server_id: 2 });
    assert!(matches!(r, Err(TransitionError::ProtocolViolation)));
}

#[test]
fn follower_takes_an_append_response_for_a_violation() {
    let r = follower(1, None, &[], None)
        .on_events(StateEvent::AppendEntriesResponse { term: 1, success: true, server_id: 2 });
    assert!(matches!(r, Err(TransitionError::ProtocolViolation)));
}

#[test]
fn follower_gets_the_same_request_twice_and_has_the_same_log() {
    let first = follower(1, None, &[(1, 1), (2, 1), (3, 1)], None)
        .on_events(append(2, 2, id(1, 2), &[(2, 1), (3, 2), (4, 2)], 4))
        .unwrap();
    assert_eq!(first.reply, append_reply(2, true));
    let log = ids(first.next.persistent().log());
    assert_eq!(log, vec![(1, 1), (2, 1), (3, 2), (4, 2)]);
    let second = first.next.on_message(append(2, 2, id(1, 2), &[(2, 1), (3, 2), (4, 2)], 4)).unwrap();
    assert_eq!(ids(second.next.persistent().log()), log);
    assert!(!second.persist);
}

#[test]
fn a_new_server_is_a_follower_in_term_zero() {
    let m = StateMachine::new();
    assert!(matches!(m, StateMachine::Follower(_)));
    assert_eq!(m.term(), 0);
    assert_eq!(m.persistent().voted_for(), None);
    assert!(m.persistent().log().is_empty());
    assert_eq!(m.volatile(), ServerVolatileState { commit_index: 0, last_applied: 0 });
    assert_eq!(m.internal().id(), 0);
    assert!(m.internal().servers().is_empty());
    assert_eq!(m.internal().leader(), None);
    assert!(!m.internal().is_voting());
}

#[test]
fn become_leader_is_a_violation_for_a_follower() {
    let r = StateMachine::Follower(follower(1, None, &[], None)).become_leader();
    assert!(matches!(r, Err(TransitionError::ProtocolViolation)));
}
