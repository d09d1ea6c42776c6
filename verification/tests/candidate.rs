use std::time::Duration;
use tfar::rpc::append_entries::AppendEntriesResponse;
use tfar::rpc::vote::{VoteRequest, VoteResponse};
use tfar::state_machine::events::StateEvent;
use tfar::state_machine::machines::{Reply, TransitionError};
use tfar::state_machine::states::log::is_batch_after;
use tfar::state_machine::states::{
    Command, InternalState, LogEntry, LogEntryId, PersistentState, Server, ServerVolatileState,
    VoteResult,
};
use tfar::state_machine::{Candidate, StateMachine};

fn entry(index: u64, term: u64) -> LogEntry {
    LogEntry { term, index, command: Command::Tfar {} }
}

fn id(index: u64, term: u64) -> LogEntryId {
    LogEntryId { index, term }
}

fn ids(log: &Vec<LogEntry>) -> Vec<(u64, u64)> {
    log.iter().map(|e| (e.index, e.term)).collect()
}

fn roster(n: usize) -> Vec<Server> {
    (0..n).map(|i| Server::new(format!("10.0.0.{}", i + 1), 7000 + i as u16)).collect()
}

fn persistent(term: u64, vote: Option<usize>, log: &[(u64, u64)]) -> PersistentState {
    let batch: Vec<LogEntry> = log.iter().map(|&(i, t)| entry(i, t)).collect();
    assert!(is_batch_after(&id(0, 0), &batch));
    let p = PersistentState::new().with_log_entries(id(0, 0), batch).with_new_term(term);
    match vote {
        Some(v) => p.with_vote_for(v),
        None => p,
    }
}

/// The candidate 0 of a cluster of `n`, with only its own vote.
fn candidate_in(n: usize, term: u64, vote: Option<usize>, log: &[(u64, u64)]) -> Candidate {
    let internal = InternalState::for_cluster(0, roster(n)).start_voting();
    assert!(internal.is_voting());
    Candidate::new(persistent(term, vote, log), ServerVolatileState::new(), internal)
}

fn candidate(term: u64, vote: Option<usize>, log: &[(u64, u64)]) -> Candidate {
    candidate_in(5, term, vote, log)
}

fn vote_request(term: u64, candidate: usize, last_log: LogEntryId) -> StateEvent {
    StateEvent::VoteRequest { term, candidate, last_log }
}

fn vote_response(term: u64, vote_granted: bool, server_id: usize) -> StateEvent {
    StateEvent::VoteResponse { term, vote_granted, server_id }
}

fn append(
    term: u64,
    leader: usize,
    prev_log: LogEntryId,
    entries: &[(u64, u64)],
    commit_idx: u64,
) -> StateEvent {
    StateEvent::AppendEntriesRequest {
        term,
        leader,
        prev_log,
        entries: entries.iter().map(|&(i, t)| entry(i, t)).collect(),
        commit_idx,
    }
}

fn vote_reply(term: u64, vote_granted: bool) -> Reply {
    Reply::Vote(VoteResponse { term, vote_granted })
}

fn append_reply(term: u64, success: bool) -> Reply {
    Reply::Append(AppendEntriesResponse { term, success })
}

#[test]
fn candidate_new_keeps_what_it_is_given() {
    let c = candidate(3, Some(1), &[(1, 1), (2, 3)]);
    assert_eq!(c.term(), 3);
    assert_eq!(c.persistent().voted_for(), Some(1));
    assert_eq!(ids(c.persistent().log()), vec![(1, 1), (2, 3)]);
    assert_eq!(c.volatile(), ServerVolatileState { commit_index: 0, last_applied: 0 });
    assert!(c.internal().is_voting());
    assert_eq!(c.internal().servers().len(), 5);
}

#[test]
fn candidate_asks_for_votes_with_its_term_name_and_log_end() {
    let c = candidate(3, None, &[(1, 1), (4, 2)]);
    assert_eq!(
        c.vote_request(),
        VoteRequest { term: 3, candidate_id: 0, last_log_index: 4, last_log_term: 2 }
    );
    let c = candidate(1, None, &[]);
    assert_eq!(
        c.vote_request(),
        VoteRequest { term: 1, candidate_id: 0, last_log_index: 0, last_log_term: 0 }
    );
}

#[test]
fn candidate_timeout_starts_a_fresh_election_in_the_next_term() {
    let c = candidate(3, Some(1), &[(1, 1)]);
    let t = c.on_events(vote_response(3, false, 1)).unwrap();
    let t = t.next.on_message(StateEvent::Timeout(Duration::from_millis(300))).unwrap();
    assert_eq!(t.reply, Reply::Silent);
    assert!(t.persist);
    match t.next {
        StateMachine::Candidate(c) => {
            assert_eq!(c.term(), 4);
            assert_eq!(c.persistent().voted_for(), None);
            assert_eq!(ids(c.persistent().log()), vec![(1, 1)]);
            // the answers of the failed election are gone, the own vote is in
            assert!(c.internal().has_voted(0));
            assert!(!c.internal().has_voted(1));
            assert_eq!(c.internal().vote_granted(), VoteResult::NotYet(1));
        },
        _ => panic!("not a candidate"),
    }
}

#[test]
fn candidate_timeout_in_the_last_term_is_an_overflow() {
    let r = candidate(u64::MAX, None, &[]).on_events(StateEvent::Timeout(Duration::ZERO));
    assert!(matches!(r, Err(TransitionError::Overflow)));
}

#[test]
fn candidate_counts_answers_until_a_quorum_agrees() {
    let t = candidate(3, None, &[]).on_events(vote_response(3, true, 1)).unwrap();
    assert_eq!(t.reply, Reply::Silent);
    assert!(!t.persist);
    match &t.next {
        StateMachine::Candidate(c) => {
            assert_eq!(c.internal().vote_granted(), VoteResult::NotYet(2))
        },
        _ => panic!("not a candidate"),
    }
    let t = t.next.on_message(vote_response(2, false, 4)).unwrap();
    match &t.next {
        StateMachine::Candidate(c) => {
            assert_eq!(c.internal().vote_granted(), VoteResult::NotYet(3))
        },
        _ => panic!("not a candidate"),
    }
    let t = t.next.on_message(vote_response(3, true, 2)).unwrap();
    assert!(!t.persist);
    match &t.next {
        StateMachine::Leader(l) => {
            assert_eq!(l.term(), 3);
            assert_eq!(l.leader_volatile().next_index, vec![1, 1, 1, 1, 1]);
            assert_eq!(l.leader_volatile().match_index, vec![0, 0, 0, 0, 0]);
            assert!(!l.internal().is_voting());
        },
        _ => panic!("not a leader"),
    }
}

#[test]
fn candidate_waits_after_a_quorum_of_rejections() {
    let t = candidate_in(3, 3, None, &[]).on_events(vote_response(3, false, 1)).unwrap();
    let t = t.next.on_message(vote_response(3, false, 2)).unwrap();
    match &t.next {
        StateMachine::Candidate(c) => {
            assert_eq!(c.term(), 3);
            assert_eq!(c.internal().vote_granted(), VoteResult::Rejected(2));
        },
        _ => panic!("not a candidate"),
    }
}

#[test]
fn candidate_ignores_a_second_answer_of_a_server() {
    let t = candidate(3, None, &[]).on_events(vote_response(3, true, 1)).unwrap();
    let t = t.next.on_message(vote_response(3, true, 1)).unwrap();
    match &t.next {
        StateMachine::Candidate(c) => {
            assert_eq!(c.internal().vote_granted(), VoteResult::NotYet(2))
        },
        _ => panic!("not a candidate"),
    }
}

#[test]
fn candidate_leads_from_last_applied() {
    let internal = InternalState::for_cluster(0, roster(3)).start_voting();
    let c = Candidate::new(
        persistent(2, None, &[(1, 1), (2, 1)]),
        ServerVolatileState { commit_index: 2, last_applied: 1 },
        internal,
    );
    let t = c.on_events(vote_response(2, true, 2)).unwrap();
    match &t.next {
        StateMachine::Leader(l) => {
            assert_eq!(l.leader_volatile().next_index, vec![2, 2, 2]);
            assert_eq!(l.leader_volatile().match_index, vec![0, 0, 0]);
            assert_eq!(l.volatile(), ServerVolatileState { commit_index: 2, last_applied: 1 });
            assert_eq!(ids(l.persistent().log()), vec![(1, 1), (2, 1)]);
        },
        _ => panic!("not a leader"),
    }
}

#[test]
fn candidate_that_cannot_count_further_reports_an_overflow() {
    let internal = InternalState::for_cluster(0, roster(3)).start_voting();
    let c = Candidate::new(
        persistent(2, None, &[]),
        ServerVolatileState { commit_index: u64::MAX, last_applied: u64::MAX },
        internal,
    );
    let r = c.on_events(vote_response(2, true, 2));
    assert!(matches!(r, Err(TransitionError::Overflow)));
}

#[test]
fn candidate_alone_in_its_cluster_leads_without_any_answer() {
    let c = candidate_in(1, 1, None, &[]);
    assert_eq!(c.internal().vote_granted(), VoteResult::Agreed(1));
    let t = c.become_leader().unwrap();
    assert_eq!(t.reply, Reply::Silent);
    assert!(!t.persist);
    match &t.next {
        StateMachine::Leader(l) => {
            assert_eq!(l.term(), 1);
            assert_eq!(l.leader_volatile().next_index, vec![1]);
            assert_eq!(l.leader_volatile().match_index, vec![0]);
        },
        _ => panic!("not a leader"),
    }
}

#[test]
fn candidate_without_a_quorum_does_not_become_leader() {
    let t = StateMachine::Candidate(candidate_in(3, 1, None, &[])).become_leader().unwrap();
    assert!(matches!(t.next, StateMachine::Candidate(_)));
    assert!(!t.persist);
}

#[test]
fn candidate_follows_a_newer_term_in_an_answer() {
    let t = candidate(3, Some(1), &[(1, 1)]).on_events(vote_response(5, false, 2)).unwrap();
    assert_eq!(t.reply, Reply::Silent);
    assert!(t.persist);
    match &t.next {
        StateMachine::Follower(f) => {
            assert_eq!(f.term(), 5);
            assert_eq!(f.persistent().voted_for(), None);
            assert!(!f.internal().is_voting());
        },
        _ => panic!("not a follower"),
    }
}

#[test]
fn candidate_gives_way_and_votes_in_a_newer_term() {
    let t = candidate(3, None, &[(1, 1)]).on_events(vote_request(4, 2, id(1, 1))).unwrap();
    assert_eq!(t.reply, vote_reply(4, true));
    assert!(t.persist);
    match &t.next {
        StateMachine::Follower(f) => {
            assert_eq!(f.term(), 4);
            assert_eq!(f.persistent().voted_for(), Some(2));
            assert!(!f.internal().is_voting());
        },
        _ => panic!("not a follower"),
    }
}

#[test]
fn candidate_gives_way_without_a_vote_to_a_short_log_in_a_newer_term() {
    let t = candidate(3, None, &[(1, 1), (2, 3)]).on_events(vote_request(4, 2, id(1, 1))).unwrap();
    assert_eq!(t.reply, vote_reply(4, false));
    assert!(t.persist);
    match &t.next {
        StateMachine::Follower(f) => {
            assert_eq!(f.term(), 4);
            assert_eq!(f.persistent().voted_for(), None);
            assert!(!f.internal().is_voting());
        },
        _ => panic!("not a follower"),
    }
}

#[test]
fn candidate_votes_in_its_own_term_and_goes_on() {
    let t = candidate(3, None, &[]).on_events(vote_request(3, 2, id(0, 0))).unwrap();
    assert_eq!(t.reply, vote_reply(3, true));
    assert!(t.persist);
    match &t.next {
        StateMachine::Candidate(c) => {
            assert_eq!(c.term(), 3);
            assert_eq!(c.persistent().voted_for(), Some(2));
            assert_eq!(c.internal().vote_granted(), VoteResult::NotYet(1));
        },
        _ => panic!("not a candidate"),
    }
}

#[test]
fn candidate_refuses_a_second_candidate_in_its_term() {
    let t = candidate(3, Some(2), &[]).on_events(vote_request(3, 4, id(0, 0))).unwrap();
    assert_eq!(t.reply, vote_reply(3, false));
    assert!(!t.persist);
    match &t.next {
        StateMachine::Candidate(c) => {
            assert_eq!(c.persistent().voted_for(), Some(2));
        },
        _ => panic!("not a candidate"),
    }
}

#[test]
fn candidate_refuses_an_older_term() {
    let t = candidate(3, None, &[]).on_events(vote_request(2, 4, id(9, 9))).unwrap();
    assert_eq!(t.reply, vote_reply(3, false));
    assert!(!t.persist);
    assert!(matches!(t.next, StateMachine::Candidate(_)));
    assert_eq!(t.next.persistent().voted_for(), None);
}

#[test]
fn candidate_refuses_a_leader_of_an_older_term() {
    let t = candidate(3, None, &[]).on_events(append(2, 1, id(0, 0), &[(1, 2)], 1)).unwrap();
    assert_eq!(t.reply, append_reply(3, false));
    assert!(!t.persist);
    match &t.next {
        StateMachine::Candidate(c) => {
            assert!(c.persistent().log().is_empty());
            assert_eq!(c.internal().leader(), None);
        },
        _ => panic!("not a candidate"),
    }
}

#[test]
fn candidate_follows_the_leader_of_its_own_term_and_keeps_its_vote() {
    let t = candidate(3, Some(2), &[(1, 1)])
        .on_events(append(3, 2, id(1, 1), &[(2, 3), (3, 3)], 2))
        .unwrap();
    assert_eq!(t.reply, append_reply(3, true));
    assert!(t.persist);
    match &t.next {
        StateMachine::Follower(f) => {
            assert_eq!(f.term(), 3);
            assert_eq!(f.persistent().voted_for(), Some(2));
            assert_eq!(ids(f.persistent().log()), vec![(1, 1), (2, 3), (3, 3)]);
            assert_eq!(f.volatile().commit_index, 2);
            assert_eq!(f.internal().leader(), Some(2));
            assert!(!f.internal().is_voting());
        },
        _ => panic!("not a follower"),
    }
}

#[test]
fn candidate_follows_a_leader_of_a_newer_term() {
    let t = candidate(3, Some(0), &[]).on_events(append(5, 2, id(0, 0), &[], 0)).unwrap();
    assert_eq!(t.reply, append_reply(5, true));
    assert!(t.persist);
    match &t.next {
        StateMachine::Follower(f) => {
            assert_eq!(f.term(), 5);
            assert_eq!(f.persistent().voted_for(), None);
            assert_eq!(f.internal().leader(), Some(2));
        },
        _ => panic!("not a follower"),
    }
}

#[test]
fn candidate_follows_a_leader_whose_batch_does_not_fit() {
    let t = candidate(3, None, &[(1, 1), (2, 3)])
        .on_events(append(3, 2, id(1, 1), &[(2, 3)], 2))
        .unwrap();
    assert_eq!(t.reply, append_reply(3, false));
    assert!(!t.persist);
    match &t.next {
        StateMachine::Follower(f) => {
            assert_eq!(f.term(), 3);
            assert_eq!(ids(f.persistent().log()), vec![(1, 1), (2, 3)]);
            assert_eq!(f.volatile().commit_index, 0);
            assert_eq!(f.internal().leader(), Some(2));
        },
        _ => panic!("not a follower"),
    }
}

#[test]
fn candidate_takes_an_append_response_for_a_violation() {
    let r = candidate(3, None, &[])
        .on_events(StateEvent::AppendEntriesResponse { term: 3, success: true, server_id: 1 });
    assert!(matches!(r, Err(TransitionError::ProtocolViolation)));
}

#[test]
fn candidate_grants_in_a_newer_term_whatever_it_voted_before() {
    // the vote for 2 belongs to term 3 and does not count in term 4
    let t = candidate(3, Some(2), &[(1, 1)]).on_events(vote_request(4, 4, id(1, 1))).unwrap();
    assert_eq!(t.reply, vote_reply(4, true));
    assert!(t.persist);
    match &t.next {
        StateMachine::Follower(f) => {
            assert_eq!(f.term(), 4);
            assert_eq!(f.persistent().voted_for(), Some(4));
            assert_eq!(ids(f.persistent().log()), vec![(1, 1)]);
            assert!(!f.internal().is_voting());
        },
        _ => panic!("not a follower"),
    }
}

#[test]
fn candidate_that_voted_refuses_a_short_log_in_a_newer_term() {
    let t = candidate(3, Some(2), &[(1, 1), (2, 3)])
        .on_events(vote_request(4, 4, id(1, 1)))
        .unwrap();
    assert_eq!(t.reply, vote_reply(4, false));
    match &t.next {
        StateMachine::Follower(f) => {
            assert_eq!(f.term(), 4);
            assert_eq!(f.persistent().voted_for(), None);
        },
        _ => panic!("not a follower"),
    }
}
