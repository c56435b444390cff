use lorax::model::{Ballot, VoteOption};
use lorax::phase::{LoraxError, LoraxState, Stage, SubmitKind, Timer, Transition};
use lorax::name_rules::NameError;
use lorax::tally::{count_for, resolve, tally, Outcome};

const U1: u64 = 101;
const U2: u64 = 102;
const U3: u64 = 103;
const U4: u64 = 104;
const U5: u64 = 105;
const U6: u64 = 106;

fn no_names() -> Vec<String> {
    Vec::new()
}

fn started(now: i64, submission: u64, voting: u64, tiebreak: u64) -> LoraxState {
    let mut s = LoraxState::new();
    assert_eq!(s.start(now, "US-East".to_string(), submission, voting, tiebreak), Ok(()));
    s
}

fn submission_names(s: &LoraxState) -> Vec<(u64, String)> {
    match s {
        LoraxState::Submissions { submissions, .. } => {
            submissions.iter().map(|c| (c.submitter, c.name.clone())).collect()
        }
        _ => panic!("not in the submission phase"),
    }
}

fn option_names(s: &LoraxState) -> Vec<String> {
    match s {
        LoraxState::Voting { options, .. } | LoraxState::TieBreaker { options, .. } => {
            options.iter().map(|o| o.name.clone()).collect()
        }
        _ => panic!("not in a voting phase"),
    }
}

fn ballots(s: &LoraxState) -> Vec<Ballot> {
    match s {
        LoraxState::Voting { votes, .. } | LoraxState::TieBreaker { votes, .. } => votes.clone(),
        _ => panic!("not in a voting phase"),
    }
}

fn option_id(s: &LoraxState, name: &str) -> usize {
    match s {
        LoraxState::Voting { options, .. } | LoraxState::TieBreaker { options, .. } => {
            options.iter().find(|o| o.name == name).expect("no such option").id
        }
        _ => panic!("not in a voting phase"),
    }
}

fn opt(id: usize, name: &str, submitter: u64) -> VoteOption {
    VoteOption { id, name: name.to_string(), submitter }
}

/// Starts at 0, takes "oak" from U1 and "elm" from U2, and opens the vote.
fn voting_on_oak_and_elm() -> LoraxState {
    let mut s = started(0, 1, 30, 15);
    let names = no_names();
    assert_eq!(s.submit(10, U1, "oak", Some(&names)), Ok(SubmitKind::Added));
    assert_eq!(s.submit(20, U2, "elm", Some(&names)), Ok(SubmitKind::Added));
    let t = s.timer().unwrap();
    assert!(matches!(s.fire(t, 60), Ok(Some(Transition::VotingOpened))));
    s
}

#[test]
fn scenario_a_oak_wins() {
    let mut s = voting_on_oak_and_elm();
    assert_eq!(option_names(&s), vec!["oak".to_string(), "elm".to_string()]);
    let t = s.timer().unwrap();
    assert_eq!(t, Timer { stage: Stage::Voting, end_time: 60 + 30 * 60 });
    let oak = option_id(&s, "oak");
    let elm = option_id(&s, "elm");
    assert_eq!(s.vote(100, U3, oak), Ok(()));
    // U1 submitted "oak": a vote for it is refused and not recorded.
    assert_eq!(s.vote(110, U1, oak), Err(LoraxError::SelfVote));
    assert_eq!(s.vote(120, U2, elm), Err(LoraxError::SelfVote));
    assert_eq!(s.vote(130, U2, oak), Ok(()));
    assert_eq!(ballots(&s).len(), 2);
    match s.fire(t, t.end_time) {
        Ok(Some(Transition::Winner { winner, votes })) => {
            assert_eq!(winner.name, "oak");
            assert_eq!(winner.submitter, U1);
            assert_eq!(votes, 2);
        }
        other => panic!("unexpected {:?}", other),
    }
    assert!(s.is_idle());
}

#[test]
fn scenario_b_even_split_goes_to_tiebreak() {
    let mut s = voting_on_oak_and_elm();
    let oak = option_id(&s, "oak");
    let elm = option_id(&s, "elm");
    assert_eq!(s.vote(100, U3, oak), Ok(()));
    assert_eq!(s.vote(100, U4, oak), Ok(()));
    assert_eq!(s.vote(100, U5, elm), Ok(()));
    assert_eq!(s.vote(100, U6, elm), Ok(()));
    let t = s.timer().unwrap();
    let r = s.fire(t, t.end_time + 5);
    assert!(matches!(r, Ok(Some(Transition::TieBreak { round: 1 }))));
    match &s {
        LoraxState::TieBreaker { end_time, options, votes, round, .. } => {
            assert_eq!(*round, 1);
            assert_eq!(*end_time, t.end_time + 5 + 15 * 60);
            assert_eq!(options.len(), 2);
            assert_eq!(options[0].name, "oak");
            assert_eq!(options[1].name, "elm");
            assert!(votes.is_empty());
        }
        other => panic!("unexpected {:?}", other),
    }
}

#[test]
fn tie_of_two_among_three_keeps_only_the_tied() {
    let mut s = LoraxState::Voting {
        end_time: 500,
        options: vec![opt(0, "oak", U1), opt(1, "elm", U2), opt(2, "ash", U3)],
        votes: vec![
            Ballot { voter: U4, option: 0 },
            Ballot { voter: U5, option: 2 },
            Ballot { voter: U6, option: 0 },
            Ballot { voter: U1, option: 2 },
            Ballot { voter: U2, option: 2 },
            Ballot { voter: U3, option: 0 },
        ],
        location: "EU".to_string(),
        tiebreaker_duration: 10,
    };
    assert!(matches!(s.end_phase(600), Ok(Transition::TieBreak { round: 1 })));
    assert_eq!(option_names(&s), vec!["oak".to_string(), "ash".to_string()]);
    assert!(ballots(&s).is_empty());
    // The ids stay those of the first vote.
    assert_eq!(option_id(&s, "ash"), 2);
}

#[test]
fn tiebreak_rounds_count_up() {
    let mut s = LoraxState::TieBreaker {
        end_time: 500,
        options: vec![opt(0, "oak", U1), opt(1, "elm", U2)],
        votes: vec![Ballot { voter: U3, option: 0 }, Ballot { voter: U4, option: 1 }],
        location: "EU".to_string(),
        round: 3,
        tiebreaker_duration: 10,
    };
    assert!(matches!(s.end_phase(600), Ok(Transition::TieBreak { round: 4 })));
    assert_eq!(s.timer(), Some(Timer { stage: Stage::TieBreaker { round: 4 }, end_time: 1200 }));
}

#[test]
fn unique_leader_wins_in_tiebreak() {
    let mut s = LoraxState::TieBreaker {
        end_time: 500,
        options: vec![opt(4, "oak", U1), opt(7, "elm", U2)],
        votes: vec![
            Ballot { voter: U3, option: 7 },
            Ballot { voter: U4, option: 4 },
            Ballot { voter: U5, option: 7 },
        ],
        location: "EU".to_string(),
        round: 2,
        tiebreaker_duration: 10,
    };
    match s.end_phase(600) {
        Ok(Transition::Winner { winner, votes }) => {
            assert_eq!(winner.name, "elm");
            assert_eq!(votes, 2);
        }
        other => panic!("unexpected {:?}", other),
    }
    assert!(s.is_idle());
    assert_eq!(s.timer(), None);
}

#[test]
fn no_ballots_gives_the_first_option() {
    let mut s = LoraxState::Voting {
        end_time: 500,
        options: vec![opt(0, "oak", U1), opt(1, "elm", U2)],
        votes: Vec::new(),
        location: "EU".to_string(),
        tiebreaker_duration: 10,
    };
    match s.end_phase(600) {
        Ok(Transition::Winner { winner, votes }) => {
            assert_eq!(winner.name, "oak");
            assert_eq!(votes, 0);
        }
        other => panic!("unexpected {:?}", other),
    }
}

#[test]
fn no_options_gives_no_winner() {
    let mut s = LoraxState::Voting {
        end_time: 500,
        options: Vec::new(),
        votes: Vec::new(),
        location: "EU".to_string(),
        tiebreaker_duration: 10,
    };
    assert!(matches!(s.end_phase(600), Ok(Transition::NoWinner)));
    assert!(s.is_idle());
}

#[test]
fn empty_submissions_end_the_event() {
    let mut s = started(0, 5, 30, 15);
    let t = s.timer().unwrap();
    assert_eq!(t, Timer { stage: Stage::Submissions, end_time: 300 });
    assert!(matches!(s.fire(t, 300), Ok(Some(Transition::NoSubmissions))));
    assert!(s.is_idle());
}

#[test]
fn resubmission_replaces_the_earlier_name() {
    let mut s = started(0, 10, 30, 15);
    let names = no_names();
    assert_eq!(s.submit(1, U1, "oak", Some(&names)), Ok(SubmitKind::Added));
    assert_eq!(s.submit(2, U2, "elm", Some(&names)), Ok(SubmitKind::Added));
    assert_eq!(s.submit(3, U1, "birch", Some(&names)), Ok(SubmitKind::Replaced));
    assert_eq!(s.submit(4, U1, "birch", Some(&names)), Ok(SubmitKind::Replaced));
    assert_eq!(
        submission_names(&s),
        vec![(U1, "birch".to_string()), (U2, "elm".to_string())]
    );
    // "oak" is free again once U1 moved on.
    assert_eq!(s.submit(5, U3, "oak", Some(&names)), Ok(SubmitKind::Added));
}

#[test]
fn name_held_by_another_member_is_refused() {
    let mut s = started(0, 10, 30, 15);
    let names = no_names();
    assert_eq!(s.submit(1, U1, "oak", Some(&names)), Ok(SubmitKind::Added));
    assert_eq!(s.submit(2, U2, "oak", Some(&names)), Err(LoraxError::NameTaken));
    assert_eq!(s.submit(2, U2, "OAK", Some(&names)), Err(LoraxError::NameTaken));
    assert_eq!(submission_names(&s), vec![(U1, "oak".to_string())]);
}

#[test]
fn submissions_are_lowercased() {
    let mut s = started(0, 10, 30, 15);
    let names = no_names();
    assert_eq!(s.submit(1, U1, "Willow", Some(&names)), Ok(SubmitKind::Added));
    assert_eq!(submission_names(&s), vec![(U1, "willow".to_string())]);
}

#[test]
fn submission_errors() {
    let names = no_names();
    let mut idle = LoraxState::new();
    assert_eq!(idle.submit(0, U1, "oak", Some(&names)), Err(LoraxError::SubmissionsClosed));
    let mut s = started(0, 1, 30, 15);
    assert_eq!(s.submit(1, U1, "ok", Some(&names)), Err(LoraxError::InvalidName(NameError::Length)));
    assert_eq!(s.submit(1, U1, "oak7", Some(&names)), Err(LoraxError::InvalidName(NameError::Charset)));
    assert_eq!(s.submit(1, U1, "maple", Some(&names)), Err(LoraxError::InvalidName(NameError::Reserved)));
    assert_eq!(s.submit(1, U1, "oak", None), Err(LoraxError::OracleUnavailable));
    let in_use = vec!["spruce".to_string(), "oak".to_string()];
    assert_eq!(s.submit(1, U1, "oak", Some(&in_use)), Err(LoraxError::NameInUse));
    assert_eq!(s.submit(61, U1, "oak", Some(&names)), Err(LoraxError::DeadlinePassed));
    assert_eq!(s.submit(60, U1, "oak", Some(&names)), Ok(SubmitKind::Added));
    // An invalid name is refused before the oracle is consulted.
    assert_eq!(s.submit(1, U2, "x", None), Err(LoraxError::InvalidName(NameError::Length)));
}

#[test]
fn start_errors() {
    let mut s = started(0, 1, 30, 15);
    assert_eq!(s.start(5, "EU".to_string(), 1, 1, 1), Err(LoraxError::AlreadyRunning));
    let mut far = LoraxState::new();
    assert_eq!(far.start(i64::MAX - 10, "EU".to_string(), 1, 1, 1), Err(LoraxError::OutOfRange));
    assert!(far.is_idle());
}

#[test]
fn vote_errors() {
    let mut idle = LoraxState::new();
    assert_eq!(idle.vote(0, U3, 0), Err(LoraxError::VotingClosed));
    let mut sub = started(0, 1, 30, 15);
    assert_eq!(sub.vote(0, U3, 0), Err(LoraxError::VotingClosed));
    let mut s = voting_on_oak_and_elm();
    assert_eq!(s.vote(100, U3, 9), Err(LoraxError::UnknownOption));
    let end = s.timer().unwrap().end_time;
    assert_eq!(s.vote(end + 1, U3, 0), Err(LoraxError::DeadlinePassed));
    assert_eq!(s.vote(end, U3, 0), Ok(()));
}

#[test]
fn later_vote_replaces_earlier_one() {
    let mut s = voting_on_oak_and_elm();
    let oak = option_id(&s, "oak");
    let elm = option_id(&s, "elm");
    assert_eq!(s.vote(100, U3, oak), Ok(()));
    assert_eq!(s.vote(101, U4, oak), Ok(()));
    assert_eq!(s.vote(102, U3, elm), Ok(()));
    assert_eq!(
        ballots(&s),
        vec![Ballot { voter: U3, option: elm }, Ballot { voter: U4, option: oak }]
    );
}

#[test]
fn no_ballot_names_its_voters_own_option() {
    let mut s = voting_on_oak_and_elm();
    let oak = option_id(&s, "oak");
    let elm = option_id(&s, "elm");
    for (voter, option) in [(U1, oak), (U1, elm), (U2, elm), (U2, oak), (U3, elm)] {
        let _ = s.vote(100, voter, option);
    }
    assert_eq!(s.remove("oak"), Ok(()));
    for b in ballots(&s) {
        let own = (b.voter == U1 && b.option == oak) || (b.voter == U2 && b.option == elm);
        assert!(!own);
    }
    assert_eq!(
        ballots(&s),
        vec![Ballot { voter: U1, option: elm }, Ballot { voter: U3, option: elm }]
    );
}

#[test]
fn removal_keeps_other_ballots_on_their_names() {
    let mut s = LoraxState::Voting {
        end_time: 500,
        options: vec![opt(0, "oak", U1), opt(1, "elm", U2), opt(2, "ash", U3)],
        votes: vec![
            Ballot { voter: U4, option: 0 },
            Ballot { voter: U5, option: 2 },
            Ballot { voter: U6, option: 1 },
        ],
        location: "EU".to_string(),
        tiebreaker_duration: 10,
    };
    assert_eq!(s.remove("oak"), Ok(()));
    assert_eq!(option_names(&s), vec!["elm".to_string(), "ash".to_string()]);
    assert_eq!(
        ballots(&s),
        vec![Ballot { voter: U5, option: 2 }, Ballot { voter: U6, option: 1 }]
    );
    assert_eq!(option_id(&s, "ash"), 2);
    assert_eq!(option_id(&s, "elm"), 1);
    assert_eq!(s.remove("oak"), Err(LoraxError::CandidateNotFound));
}

#[test]
fn removal_during_submissions() {
    let mut s = started(0, 10, 30, 15);
    let names = no_names();
    assert_eq!(s.submit(1, U1, "oak", Some(&names)), Ok(SubmitKind::Added));
    assert_eq!(s.submit(2, U2, "elm", Some(&names)), Ok(SubmitKind::Added));
    assert_eq!(s.remove("oak"), Ok(()));
    assert_eq!(submission_names(&s), vec![(U2, "elm".to_string())]);
    assert_eq!(s.remove("birch"), Err(LoraxError::CandidateNotFound));
    let mut idle = LoraxState::new();
    assert_eq!(idle.remove("oak"), Err(LoraxError::NoActiveEvent));
}

#[test]
fn extend_moves_the_deadline_and_retires_the_old_timer() {
    let mut s = started(1000, 10, 30, 15);
    let old = s.timer().unwrap();
    assert_eq!(old.end_time, 1600);
    assert_eq!(s.extend(1100, 5), Ok(1900));
    let new = s.timer().unwrap();
    assert_eq!(new, Timer { stage: Stage::Submissions, end_time: 1900 });
    // The timer armed for the old deadline does nothing.
    assert!(matches!(s.fire(old, 1600), Ok(None)));
    assert!(matches!(s.fire(old, 5000), Ok(None)));
    assert!(matches!(s, LoraxState::Submissions { .. }));
    // The new one acts at the new deadline and not before.
    assert!(matches!(s.fire(new, 1899), Ok(None)));
    assert!(matches!(s.fire(new, 1900), Ok(Some(Transition::NoSubmissions))));
}

#[test]
fn extend_errors() {
    let mut idle = LoraxState::new();
    assert_eq!(idle.extend(0, 5), Err(LoraxError::NoActiveEvent));
    let mut s = started(1000, 10, 30, 15);
    assert_eq!(s.extend(1100, -9), Err(LoraxError::EndInPast));
    assert_eq!(s.extend(1541, -1), Err(LoraxError::EndInPast));
    // A deadline equal to now is accepted.
    assert_eq!(s.extend(1120, -8), Ok(1120));
    assert_eq!(s.extend(1100, 1), Ok(1180));
    assert_eq!(s.extend(1100, i64::MAX), Err(LoraxError::OutOfRange));
    assert_eq!(s.timer().unwrap().end_time, 1180);
}

#[test]
fn cancel_returns_to_idle() {
    let mut s = voting_on_oak_and_elm();
    assert_eq!(s.cancel(), Ok(()));
    assert!(s.is_idle());
    assert_eq!(s.cancel(), Err(LoraxError::NoActiveEvent));
}

#[test]
fn ending_an_idle_event_is_refused() {
    let mut s = LoraxState::new();
    assert!(matches!(s.end_phase(0), Err(LoraxError::NoActiveEvent)));
}

#[test]
fn recovery_resolves_an_expired_vote_first() {
    let mut s = LoraxState::Voting {
        end_time: 100,
        options: vec![opt(0, "oak", U1), opt(1, "elm", U2)],
        votes: vec![Ballot { voter: U3, option: 1 }],
        location: "EU".to_string(),
        tiebreaker_duration: 10,
    };
    match s.recover(5000) {
        Ok(Some(Transition::Winner { winner, votes })) => {
            assert_eq!(winner.name, "elm");
            assert_eq!(votes, 1);
        }
        other => panic!("unexpected {:?}", other),
    }
    // A command after recovery sees the resolved state.
    assert_eq!(s.vote(5001, U4, 0), Err(LoraxError::VotingClosed));
}

#[test]
fn recovery_of_an_expired_tie_opens_a_tiebreak() {
    let mut s = LoraxState::Voting {
        end_time: 100,
        options: vec![opt(0, "oak", U1), opt(1, "elm", U2)],
        votes: vec![Ballot { voter: U3, option: 1 }, Ballot { voter: U4, option: 0 }],
        location: "EU".to_string(),
        tiebreaker_duration: 10,
    };
    assert!(matches!(s.recover(5000), Ok(Some(Transition::TieBreak { round: 1 }))));
    assert_eq!(s.timer(), Some(Timer { stage: Stage::TieBreaker { round: 1 }, end_time: 5600 }));
}

#[test]
fn recovery_leaves_a_running_phase_armed() {
    let mut s = started(0, 10, 30, 15);
    assert!(matches!(s.recover(100), Ok(None)));
    assert_eq!(s.timer(), Some(Timer { stage: Stage::Submissions, end_time: 600 }));
    let mut idle = LoraxState::new();
    assert!(matches!(idle.recover(100), Ok(None)));
}

#[test]
fn tally_counts_each_option() {
    let options = vec![opt(0, "oak", U1), opt(1, "elm", U2), opt(2, "ash", U3)];
    let votes = vec![
        Ballot { voter: U4, option: 2 },
        Ballot { voter: U5, option: 0 },
        Ballot { voter: U6, option: 2 },
    ];
    assert_eq!(tally(&options, &votes), vec![1, 0, 2]);
    assert_eq!(count_for(&votes, 2), 2);
    assert_eq!(count_for(&votes, 1), 0);
    match resolve(&options, &votes) {
        Outcome::Winner { winner, votes } => {
            assert_eq!(winner.name, "ash");
            assert_eq!(votes, 2);
        }
        other => panic!("unexpected {:?}", other),
    }
}

#[test]
fn round_counter_at_its_limit_refuses_another_round() {
    let mut s = LoraxState::TieBreaker {
        end_time: 500,
        options: vec![opt(0, "oak", U1), opt(1, "elm", U2)],
        votes: vec![Ballot { voter: U3, option: 0 }, Ballot { voter: U4, option: 1 }],
        location: "EU".to_string(),
        round: u32::MAX,
        tiebreaker_duration: 10,
    };
    assert!(matches!(s.end_phase(600), Err(LoraxError::OutOfRange)));
    assert!(matches!(s, LoraxState::TieBreaker { round: u32::MAX, end_time: 500, .. }));
}
