//! The naming event's state machine: one spec function per command or
//! phase change, and the executable operations proved to follow them.
use vstd::prelude::*;
use crate::laws::{
    lemma_advance_wf, lemma_cast_wf, lemma_remove_option_wf, lemma_remove_submission_wf,
    lemma_submissions_after_wf,
};
use crate::model::{
    Ballot, Candidate, CandidateView, OptionView, VoteOption, candidate_pos, candidates_view,
    find_candidate, find_option, find_option_named, find_submitter, find_voter,
    is_taken_by_other, lemma_first_true_found, option_name_flags, option_name_pos, option_pos,
    options_view, submitter_pos, taken_by_other, voter_pos,
};
use crate::name_rules::{lower_of, lowercase, name_verdict, same_text, validate_tree_name};
use crate::phase::{
    LoraxError, LoraxState, PhaseView, Stage, SubmitKind, Timer, Transition, TransitionView,
};
use crate::tally::{Outcome, OutcomeView, outcome, resolve};

verus! {

pub open spec fn fits_i64(x: int) -> bool {
    i64::MIN <= x <= i64::MAX
}

/// The instant `minutes` minutes after `t`.
pub open spec fn minutes_after(t: i64, minutes: int) -> int {
    t + minutes * 60
}

/// Whether `name` is among the names in use.
pub open spec fn listed(names: Seq<String>, name: Seq<char>) -> bool {
    exists|i: int| 0 <= i < names.len() && names[i]@ == name
}

/// What the namespace oracle said of `name`: `None` when it could not be
/// asked, else whether the name is in use.
pub open spec fn oracle_says(names: Option<&Vec<String>>, name: Seq<char>) -> Option<bool> {
    match names {
        None => None,
        Some(v) => Some(listed(v@, name)),
    }
}

pub open spec fn start_spec(
    s: PhaseView,
    now: i64,
    location: Seq<char>,
    submission_minutes: u64,
    voting_minutes: u64,
    tiebreaker_minutes: u64,
) -> (PhaseView, Result<(), LoraxError>) {
    if !(s is Idle) {
        (s, Err(LoraxError::AlreadyRunning))
    } else if !fits_i64(minutes_after(now, submission_minutes as int)) {
        (s, Err(LoraxError::OutOfRange))
    } else {
        (
            PhaseView::Submissions {
                end_time: minutes_after(now, submission_minutes as int) as i64,
                submissions: Seq::empty(),
                location,
                voting_duration: voting_minutes,
                tiebreaker_duration: tiebreaker_minutes,
            },
            Ok(()),
        )
    }
}

pub open spec fn cancel_spec(s: PhaseView) -> (PhaseView, Result<(), LoraxError>) {
    if s is Idle {
        (s, Err(LoraxError::NoActiveEvent))
    } else {
        (PhaseView::Idle, Ok(()))
    }
}

pub open spec fn extend_spec(s: PhaseView, now: i64, minutes: i64) -> (PhaseView, Result<
    i64,
    LoraxError,
>) {
    if s is Idle {
        (s, Err(LoraxError::NoActiveEvent))
    } else if !fits_i64(minutes_after(s.end(), minutes as int)) {
        (s, Err(LoraxError::OutOfRange))
    } else if minutes_after(s.end(), minutes as int) < now {
        (s, Err(LoraxError::EndInPast))
    } else {
        let e = minutes_after(s.end(), minutes as int) as i64;
        (s.with_end(e), Ok(e))
    }
}

/// The submission list after `user` proposes `name`: the member's earlier
/// entry is replaced in place, a first entry goes to the end.
pub open spec fn submissions_after(s: Seq<CandidateView>, user: u64, name: Seq<char>) -> Seq<
    CandidateView,
> {
    let c = CandidateView { submitter: user, name };
    let p = submitter_pos(s, user);
    if p >= 0 {
        s.update(p, c)
    } else {
        s.push(c)
    }
}

pub open spec fn submit_spec(
    s: PhaseView,
    now: i64,
    user: u64,
    name: Seq<char>,
    in_use: Option<bool>,
) -> (PhaseView, Result<SubmitKind, LoraxError>) {
    if name_verdict(name) is Err {
        (s, Err(LoraxError::InvalidName(name_verdict(name)->Err_0)))
    } else if in_use is None {
        (s, Err(LoraxError::OracleUnavailable))
    } else if in_use == Some(true) {
        (s, Err(LoraxError::NameInUse))
    } else {
        match s {
            PhaseView::Submissions {
                end_time,
                submissions,
                location,
                voting_duration,
                tiebreaker_duration,
            } => if now > end_time {
                (s, Err(LoraxError::DeadlinePassed))
            } else if taken_by_other(submissions, user, name) {
                (s, Err(LoraxError::NameTaken))
            } else {
                (
                    PhaseView::Submissions {
                        end_time,
                        submissions: submissions_after(submissions, user, name),
                        location,
                        voting_duration,
                        tiebreaker_duration,
                    },
                    Ok(
                        if submitter_pos(submissions, user) >= 0 {
                            SubmitKind::Replaced
                        } else {
                            SubmitKind::Added
                        },
                    ),
                )
            },
            _ => (s, Err(LoraxError::SubmissionsClosed)),
        }
    }
}

/// Whether `name` is among `names`.
pub fn is_listed(names: &Vec<String>, name: &str) -> (r: bool)
    ensures
        r == listed(names@, name@),
{
    let mut i: usize = 0;
    while i < names.len()
        invariant
            i <= names@.len(),
            forall|j: int| 0 <= j < i ==> names@[j]@ != name@,
        decreases names@.len() - i,
    {
        if same_text(names[i].as_str(), name) {
            return true;
        }
        i += 1;
    }
    false
}

/// `now` plus `minutes` minutes, when that fits an `i64`.
fn deadline_after(now: i64, minutes: u64) -> (r: Option<i64>)
    ensures
        match r {
            Some(e) => fits_i64(minutes_after(now, minutes as int)) && e == minutes_after(
                now,
                minutes as int,
            ),
            None => !fits_i64(minutes_after(now, minutes as int)),
        },
{
    let e: i128 = now as i128 + minutes as i128 * 60;
    if e > i64::MAX as i128 {
        None
    } else {
        Some(e as i64)
    }
}

impl LoraxState {
    /// A guild's state before its first event.
    pub fn new() -> (r: LoraxState)
        ensures
            r@ == PhaseView::Idle,
    {
        LoraxState::Idle
    }

    pub fn is_idle(&self) -> (r: bool)
        ensures
            r == (self@ is Idle),
    {
        match self {
            LoraxState::Idle => true,
            _ => false,
        }
    }

    /// The deadline that the scheduler should arm, if a phase is running.
    pub fn timer(&self) -> (r: Option<Timer>)
        ensures
            r == self@.timer(),
    {
        match self {
            LoraxState::Idle => None,
            LoraxState::Submissions { end_time, .. } => Some(
                Timer { stage: Stage::Submissions, end_time: *end_time },
            ),
            LoraxState::Voting { end_time, .. } => Some(
                Timer { stage: Stage::Voting, end_time: *end_time },
            ),
            LoraxState::TieBreaker { end_time, round, .. } => Some(
                Timer { stage: Stage::TieBreaker { round: *round }, end_time: *end_time },
            ),
        }
    }

    /// Opens submissions until `submission_minutes` after `now`. The voting
    /// and tie-break durations are kept for the later phases.
    pub fn start(
        &mut self,
        now: i64,
        location: String,
        submission_minutes: u64,
        voting_minutes: u64,
        tiebreaker_minutes: u64,
    ) -> (r: Result<(), LoraxError>)
        ensures
            (final(self)@, r) == start_spec(
                old(self)@,
                now,
                location@,
                submission_minutes,
                voting_minutes,
                tiebreaker_minutes,
            ),
            old(self)@.wf() ==> final(self)@.wf(),
    {
        if !self.is_idle() {
            return Err(LoraxError::AlreadyRunning);
        }
        match deadline_after(now, submission_minutes) {
            None => Err(LoraxError::OutOfRange),
            Some(end_time) => {
                let ghost loc = location@;
                *self = LoraxState::Submissions {
                    end_time,
                    submissions: Vec::new(),
                    location,
                    voting_duration: voting_minutes,
                    tiebreaker_duration: tiebreaker_minutes,
                };
                assert(candidates_view(Seq::<Candidate>::empty()) =~= Seq::empty());
                Ok(())
            },
        }
    }

    /// Ends the running event without a result.
    pub fn cancel(&mut self) -> (r: Result<(), LoraxError>)
        ensures
            (final(self)@, r) == cancel_spec(old(self)@),
            old(self)@.wf() ==> final(self)@.wf(),
    {
        if self.is_idle() {
            return Err(LoraxError::NoActiveEvent);
        }
        *self = LoraxState::Idle;
        Ok(())
    }

    /// Moves the current deadline by `minutes` (negative to shorten). Returns
    /// the new deadline.
    pub fn extend(&mut self, now: i64, minutes: i64) -> (r: Result<i64, LoraxError>)
        ensures
            (final(self)@, r) == extend_spec(old(self)@, now, minutes),
            old(self)@.wf() ==> final(self)@.wf(),
    {
        let end: i64 = match self {
            LoraxState::Idle => {
                return Err(LoraxError::NoActiveEvent);
            },
            LoraxState::Submissions { end_time, .. } => *end_time,
            LoraxState::Voting { end_time, .. } => *end_time,
            LoraxState::TieBreaker { end_time, .. } => *end_time,
        };
        let e: i128 = end as i128 + minutes as i128 * 60;
        if e > i64::MAX as i128 || e < i64::MIN as i128 {
            return Err(LoraxError::OutOfRange);
        }
        if e < now as i128 {
            return Err(LoraxError::EndInPast);
        }
        let e = e as i64;
        match self {
            LoraxState::Idle => {},
            LoraxState::Submissions { end_time, .. } => {
                *end_time = e;
            },
            LoraxState::Voting { end_time, .. } => {
                *end_time = e;
            },
            LoraxState::TieBreaker { end_time, .. } => {
                *end_time = e;
            },
        }
        Ok(e)
    }

    /// Records a submission, lowercasing the proposed name first (see
    /// `submit_name`).
    pub fn submit(&mut self, now: i64, user: u64, name: &str, in_use: Option<&Vec<String>>) -> (r:
        Result<SubmitKind, LoraxError>)
        ensures
            (final(self)@, r) == submit_spec(
                old(self)@,
                now,
                user,
                lower_of(name@),
                oracle_says(in_use, lower_of(name@)),
            ),
            old(self)@.wf() ==> final(self)@.wf(),
    {
        let lowered = lowercase(name);
        self.submit_name(now, user, lowered.as_str(), in_use)
    }

    /// Records `user`'s proposal of `name`. The name must pass the naming
    /// rules, must not be in use outside the event (`in_use` lists the names in
    /// use, `None` when they could not be had), and must not be held by another
    /// member. A member's later proposal replaces their earlier one.
    pub fn submit_name(&mut self, now: i64, user: u64, name: &str, in_use: Option<&Vec<String>>) -> (r:
        Result<SubmitKind, LoraxError>)
        ensures
            (final(self)@, r) == submit_spec(old(self)@, now, user, name@, oracle_says(in_use, name@)),
            old(self)@.wf() ==> final(self)@.wf(),
    {
        match validate_tree_name(name) {
            Err(e) => {
                return Err(LoraxError::InvalidName(e));
            },
            Ok(()) => {},
        }
        match in_use {
            None => {
                return Err(LoraxError::OracleUnavailable);
            },
            Some(names) => {
                if is_listed(names, name) {
                    return Err(LoraxError::NameInUse);
                }
            },
        }
        match self {
            LoraxState::Submissions { end_time, submissions, .. } => {
                if now > *end_time {
                    return Err(LoraxError::DeadlinePassed);
                }
                if is_taken_by_other(submissions, user, name) {
                    return Err(LoraxError::NameTaken);
                }
                proof {
                    if old(self)@.wf() {
                        lemma_submissions_after_wf(candidates_view(submissions@), user, name@);
                    }
                }
                let c = Candidate { submitter: user, name: name.to_owned() };
                let ghost old_subs = submissions@;
                let ghost cv = CandidateView { submitter: user, name: name@ };
                match find_submitter(submissions, user) {
                    Some(i) => {
                        submissions[i] = c;
                        assert(candidates_view(submissions@) =~= candidates_view(old_subs).update(
                            i as int,
                            cv,
                        ));
                        Ok(SubmitKind::Replaced)
                    },
                    None => {
                        submissions.push(c);
                        assert(candidates_view(submissions@) =~= candidates_view(old_subs).push(
                            cv,
                        ));
                        Ok(SubmitKind::Added)
                    },
                }
            },
            _ => Err(LoraxError::SubmissionsClosed),
        }
    }
}


/// The ballots after `voter` chooses `option`: their earlier ballot is
/// replaced in place, a first ballot goes to the end.
pub open spec fn ballots_after(v: Seq<Ballot>, voter: u64, option: usize) -> Seq<Ballot> {
    let b = Ballot { voter, option };
    let p = voter_pos(v, voter);
    if p >= 0 {
        v.update(p, b)
    } else {
        v.push(b)
    }
}

pub open spec fn cast_spec(
    end: i64,
    o: Seq<OptionView>,
    v: Seq<Ballot>,
    now: i64,
    voter: u64,
    option: usize,
) -> (Seq<Ballot>, Result<(), LoraxError>) {
    if now > end {
        (v, Err(LoraxError::DeadlinePassed))
    } else if option_pos(o, option) < 0 {
        (v, Err(LoraxError::UnknownOption))
    } else if o[option_pos(o, option)].submitter == voter {
        (v, Err(LoraxError::SelfVote))
    } else {
        (ballots_after(v, voter, option), Ok(()))
    }
}

pub open spec fn vote_spec(s: PhaseView, now: i64, voter: u64, option: usize) -> (PhaseView, Result<
    (),
    LoraxError,
>) {
    if !s.is_voting_like() {
        (s, Err(LoraxError::VotingClosed))
    } else {
        let c = cast_spec(s.end(), s.opts(), s.ballots(), now, voter, option);
        (s.with_vote(s.opts(), c.0), c.1)
    }
}

/// The ballots that do not name the option `id`, in order.
pub open spec fn without_option(v: Seq<Ballot>, id: usize) -> Seq<Ballot>
    decreases v.len(),
{
    if v.len() == 0 {
        v
    } else {
        let r = without_option(v.drop_last(), id);
        if v.last().option != id { r.push(v.last()) } else { r }
    }
}

pub open spec fn strike_spec(o: Seq<OptionView>, v: Seq<Ballot>, name: Seq<char>) -> (Seq<OptionView>, Seq<Ballot>, Result<(), LoraxError>) {
    let k = option_name_pos(o, name);
    if k < 0 {
        (o, v, Err(LoraxError::CandidateNotFound))
    } else {
        (o.remove(k), without_option(v, o[k].id), Ok(()))
    }
}

pub open spec fn remove_spec(s: PhaseView, name: Seq<char>) -> (PhaseView, Result<(), LoraxError>) {
    match s {
        PhaseView::Idle => (s, Err(LoraxError::NoActiveEvent)),
        PhaseView::Submissions {
            end_time,
            submissions,
            location,
            voting_duration,
            tiebreaker_duration,
        } => {
            let p = candidate_pos(submissions, name);
            if p < 0 {
                (s, Err(LoraxError::CandidateNotFound))
            } else {
                (
                    PhaseView::Submissions {
                        end_time,
                        submissions: submissions.remove(p),
                        location,
                        voting_duration,
                        tiebreaker_duration,
                    },
                    Ok(()),
                )
            }
        },
        _ => {
            let c = strike_spec(s.opts(), s.ballots(), name);
            (s.with_vote(c.0, c.1), c.2)
        },
    }
}

/// The options that a vote opens with: every submission, in order, with its
/// position as id.
pub open spec fn ballot_options(s: Seq<CandidateView>) -> Seq<OptionView> {
    Seq::new(
        s.len(),
        |i: int| OptionView { id: i as usize, name: s[i].name, submitter: s[i].submitter },
    )
}

/// How a finished vote moves the event on.
pub open spec fn conclude_spec(s: PhaseView, now: i64) -> (PhaseView, Result<TransitionView, LoraxError>) {
    match outcome(s.opts(), s.ballots()) {
        OutcomeView::NoWinner => (PhaseView::Idle, Ok(TransitionView::NoWinner)),
        OutcomeView::Winner { winner, votes } => (
            PhaseView::Idle,
            Ok(TransitionView::Winner { winner, votes }),
        ),
        OutcomeView::Tie { leaders } => {
            if s.round() + 1 > u32::MAX {
                (s, Err(LoraxError::OutOfRange))
            } else if !fits_i64(minutes_after(now, s.tiebreak_minutes() as int)) {
                (s, Err(LoraxError::OutOfRange))
            } else {
                (
                    PhaseView::TieBreaker {
                        end_time: minutes_after(now, s.tiebreak_minutes() as int) as i64,
                        options: leaders,
                        votes: Seq::empty(),
                        location: s.location(),
                        round: (s.round() + 1) as u32,
                        tiebreaker_duration: s.tiebreak_minutes(),
                    },
                    Ok(TransitionView::TieBreak { round: (s.round() + 1) as u32 }),
                )
            }
        },
    }
}

/// Ends the current phase at `now`.
pub open spec fn advance_spec(s: PhaseView, now: i64) -> (PhaseView, Result<TransitionView, LoraxError>) {
    match s {
        PhaseView::Idle => (s, Err(LoraxError::NoActiveEvent)),
        PhaseView::Submissions { submissions, location, voting_duration, tiebreaker_duration, .. } => {
            if submissions.len() == 0 {
                (PhaseView::Idle, Ok(TransitionView::NoSubmissions))
            } else if !fits_i64(minutes_after(now, voting_duration as int)) {
                (s, Err(LoraxError::OutOfRange))
            } else {
                (
                    PhaseView::Voting {
                        end_time: minutes_after(now, voting_duration as int) as i64,
                        options: ballot_options(submissions),
                        votes: Seq::empty(),
                        location,
                        tiebreaker_duration,
                    },
                    Ok(TransitionView::VotingOpened),
                )
            }
        },
        _ => conclude_spec(s, now),
    }
}

/// A timer's firing: it acts only when the event still shows the armed
/// phase and deadline, and the deadline has come.
pub open spec fn fire_spec(s: PhaseView, t: Timer, now: i64) -> (PhaseView, Result<Option<TransitionView>, LoraxError>) {
    if s.timer() != Some(t) || now < t.end_time {
        (s, Ok(None))
    } else {
        let a = advance_spec(s, now);
        (
            a.0,
            match a.1 {
                Ok(tr) => Ok(Some(tr)),
                Err(e) => Err(e),
            },
        )
    }
}

/// At start-up: a phase whose deadline has passed ends at once.
pub open spec fn recover_spec(s: PhaseView, now: i64) -> (PhaseView, Result<Option<TransitionView>, LoraxError>) {
    match s.timer() {
        None => (s, Ok(None)),
        Some(t) => fire_spec(s, t, now),
    }
}

pub open spec fn transition_result(r: Result<Transition, LoraxError>) -> Result<TransitionView, LoraxError> {
    match r {
        Ok(t) => Ok(t@),
        Err(e) => Err(e),
    }
}

pub open spec fn fired_result(r: Result<Option<Transition>, LoraxError>) -> Result<Option<TransitionView>, LoraxError> {
    match r {
        Ok(Some(t)) => Ok(Some(t@)),
        Ok(None) => Ok(None),
        Err(e) => Err(e),
    }
}

fn cast(
    end: i64,
    options: &Vec<VoteOption>,
    votes: &mut Vec<Ballot>,
    now: i64,
    voter: u64,
    option: usize,
) -> (r: Result<(), LoraxError>)
    ensures
        (final(votes)@, r) == cast_spec(end, options_view(options@), old(votes)@, now, voter, option),
{
    if now > end {
        return Err(LoraxError::DeadlinePassed);
    }
    let k = match find_option(options, option) {
        None => {
            return Err(LoraxError::UnknownOption);
        },
        Some(k) => k,
    };
    if options[k].submitter == voter {
        return Err(LoraxError::SelfVote);
    }
    let b = Ballot { voter, option };
    match find_voter(votes, voter) {
        Some(i) => {
            votes[i] = b;
        },
        None => {
            votes.push(b);
        },
    }
    Ok(())
}

/// The ballots that do not name `id`.
pub fn drop_votes_for(votes: &Vec<Ballot>, id: usize) -> (r: Vec<Ballot>)
    ensures
        r@ == without_option(votes@, id),
{
    let mut r: Vec<Ballot> = Vec::new();
    let mut i: usize = 0;
    while i < votes.len()
        invariant
            i <= votes@.len(),
            r@ == without_option(votes@.take(i as int), id),
        decreases votes@.len() - i,
    {
        assert(votes@.take(i as int + 1).drop_last() =~= votes@.take(i as int));
        if votes[i].option != id {
            r.push(votes[i]);
        }
        i += 1;
    }
    assert(votes@.take(i as int) =~= votes@);
    r
}

fn strike(options: &mut Vec<VoteOption>, votes: &mut Vec<Ballot>, name: &str) -> (r: Result<(), LoraxError>)
    ensures
        (options_view(final(options)@), final(votes)@, r) == strike_spec(
            options_view(old(options)@),
            old(votes)@,
            name@,
        ),
{
    match find_option_named(options, name) {
        None => Err(LoraxError::CandidateNotFound),
        Some(k) => {
            let ghost before = options@;
            let gone = options.remove(k);
            assert(options_view(options@) =~= options_view(before).remove(k as int));
            let kept = drop_votes_for(votes, gone.id);
            *votes = kept;
            Ok(())
        },
    }
}

/// The options of a vote over `subs`.
fn open_options(subs: &Vec<Candidate>) -> (r: Vec<VoteOption>)
    ensures
        options_view(r@) == ballot_options(candidates_view(subs@)),
{
    let ghost target = ballot_options(candidates_view(subs@));
    let mut r: Vec<VoteOption> = Vec::new();
    let mut i: usize = 0;
    while i < subs.len()
        invariant
            target == ballot_options(candidates_view(subs@)),
            i <= subs@.len(),
            options_view(r@) == target.take(i as int),
        decreases subs@.len() - i,
    {
        let o = VoteOption { id: i, name: subs[i].name.clone(), submitter: subs[i].submitter };
        assert(candidates_view(subs@)[i as int] == subs@[i as int]@);
        assert(target[i as int] == o@);
        let ghost before = r@;
        r.push(o);
        assert(options_view(r@) =~= options_view(before).push(o@));
        assert(options_view(r@) =~= target.take(i as int + 1));
        i += 1;
    }
    assert(target.take(i as int) =~= target);
    r
}

/// The phase that follows a finished vote, with what happened.
fn conclude(
    options: &Vec<VoteOption>,
    votes: &Vec<Ballot>,
    location: &String,
    tiebreak_minutes: u64,
    round: u32,
    now: i64,
) -> (r: Result<(LoraxState, Transition), LoraxError>)
    ensures
        ({
            let s = if round == 0 {
                PhaseView::Voting {
                    end_time: 0,
                    options: options_view(options@),
                    votes: votes@,
                    location: location@,
                    tiebreaker_duration: tiebreak_minutes,
                }
            } else {
                PhaseView::TieBreaker {
                    end_time: 0,
                    options: options_view(options@),
                    votes: votes@,
                    location: location@,
                    round,
                    tiebreaker_duration: tiebreak_minutes,
                }
            };
            let c = conclude_spec(s, now);
            match r {
                Ok((next, tr)) => c.1 == Ok::<TransitionView, LoraxError>(tr@) && next@ == c.0,
                Err(e) => c.1 == Err::<TransitionView, LoraxError>(e),
            }
        }),
{
    match resolve(options, votes) {
        Outcome::NoWinner => Ok((LoraxState::Idle, Transition::NoWinner)),
        Outcome::Winner { winner, votes } => Ok(
            (LoraxState::Idle, Transition::Winner { winner, votes }),
        ),
        Outcome::Tie { leaders } => {
            if round == u32::MAX {
                return Err(LoraxError::OutOfRange);
            }
            let next_round = round + 1;
            match deadline_after(now, tiebreak_minutes) {
                None => Err(LoraxError::OutOfRange),
                Some(end_time) => {
                    let next = LoraxState::TieBreaker {
                        end_time,
                        options: leaders,
                        votes: Vec::new(),
                        location: location.clone(),
                        round: next_round,
                        tiebreaker_duration: tiebreak_minutes,
                    };
                    Ok((next, Transition::TieBreak { round: next_round }))
                },
            }
        },
    }
}

impl LoraxState {
    /// Records `voter`'s choice of the option `option` (an option id). A later
    /// choice replaces the voter's earlier one. Members cannot vote for a name
    /// they submitted.
    pub fn vote(&mut self, now: i64, voter: u64, option: usize) -> (r: Result<(), LoraxError>)
        ensures
            (final(self)@, r) == vote_spec(old(self)@, now, voter, option),
            old(self)@.wf() ==> final(self)@.wf(),
    {
        proof {
            if self@.wf() {
                lemma_cast_wf(self@.end(), self@.opts(), self@.ballots(), now, voter, option);
            }
        }
        match self {
            LoraxState::Voting { end_time, options, votes, .. } => cast(
                *end_time,
                options,
                votes,
                now,
                voter,
                option,
            ),
            LoraxState::TieBreaker { end_time, options, votes, .. } => cast(
                *end_time,
                options,
                votes,
                now,
                voter,
                option,
            ),
            _ => Err(LoraxError::VotingClosed),
        }
    }

    /// Withdraws the submission or option called `name`. During a vote the
    /// ballots for it are discarded; every other ballot keeps its option.
    pub fn remove(&mut self, name: &str) -> (r: Result<(), LoraxError>)
        ensures
            (final(self)@, r) == remove_spec(old(self)@, name@),
            old(self)@.wf() ==> final(self)@.wf(),
    {
        proof {
            let k = option_name_pos(self@.opts(), name@);
            if self@.wf() && self@.is_voting_like() && k >= 0 {
                lemma_first_true_found(option_name_flags(self@.opts(), name@));
                lemma_remove_option_wf(self@.opts(), self@.ballots(), k);
            }
        }
        match self {
            LoraxState::Idle => Err(LoraxError::NoActiveEvent),
            LoraxState::Submissions { submissions, .. } => {
                match find_candidate(submissions, name) {
                    None => Err(LoraxError::CandidateNotFound),
                    Some(p) => {
                        proof {
                            if old(self)@.wf() {
                                lemma_remove_submission_wf(candidates_view(submissions@), p as int);
                            }
                        }
                        let ghost before = submissions@;
                        submissions.remove(p);
                        assert(candidates_view(submissions@) =~= candidates_view(before).remove(
                            p as int,
                        ));
                        Ok(())
                    },
                }
            },
            LoraxState::Voting { options, votes, .. } => strike(options, votes, name),
            LoraxState::TieBreaker { options, votes, .. } => strike(options, votes, name),
        }
    }

    /// Ends the current phase at `now`, whether its deadline came or it was
    /// ended early. Submissions open the vote (or end the event when there
    /// are none); a vote ends with a winner, with no winner, or with a
    /// tie-break round among the leaders.
    pub fn end_phase(&mut self, now: i64) -> (r: Result<Transition, LoraxError>)
        ensures
            final(self)@ == advance_spec(old(self)@, now).0,
            transition_result(r) == advance_spec(old(self)@, now).1,
            old(self)@.wf() ==> final(self)@.wf(),
    {
        let step: Result<(LoraxState, Transition), LoraxError> = match &*self {
            LoraxState::Idle => Err(LoraxError::NoActiveEvent),
            LoraxState::Submissions {
                submissions,
                location,
                voting_duration,
                tiebreaker_duration,
                ..
            } => {
                let n = submissions.len();
                proof {
                    if self@.wf() {
                        lemma_advance_wf(self@, now);
                    }
                }
                if n == 0 {
                    Ok((LoraxState::Idle, Transition::NoSubmissions))
                } else {
                    match deadline_after(now, *voting_duration) {
                        None => Err(LoraxError::OutOfRange),
                        Some(end_time) => {
                            let next = LoraxState::Voting {
                                end_time,
                                options: open_options(submissions),
                                votes: Vec::new(),
                                location: location.clone(),
                                tiebreaker_duration: *tiebreaker_duration,
                            };
                            assert(next@ == advance_spec(self@, now).0);
                            Ok((next, Transition::VotingOpened))
                        },
                    }
                }
            },
            LoraxState::Voting { options, votes, location, tiebreaker_duration, .. } => conclude(
                options,
                votes,
                location,
                *tiebreaker_duration,
                0,
                now,
            ),
            LoraxState::TieBreaker { options, votes, location, round, tiebreaker_duration, .. } => {
                conclude(options, votes, location, *tiebreaker_duration, *round, now)
            },
        };
        proof {
            if self@.wf() && !(self@ is Submissions) {
                lemma_advance_wf(self@, now);
            }
        }
        match step {
            Ok((next, tr)) => {
                *self = next;
                Ok(tr)
            },
            Err(e) => Err(e),
        }
    }

    /// Fires the timer `t` at `now`: ends the phase when the event still
    /// shows the phase and deadline that `t` was armed for and the deadline
    /// has come; otherwise does nothing and returns `Ok(None)`.
    pub fn fire(&mut self, t: Timer, now: i64) -> (r: Result<Option<Transition>, LoraxError>)
        ensures
            final(self)@ == fire_spec(old(self)@, t, now).0,
            fired_result(r) == fire_spec(old(self)@, t, now).1,
            old(self)@.wf() ==> final(self)@.wf(),
    {
        match self.timer() {
            None => Ok(None),
            Some(cur) => {
                if cur != t || now < t.end_time {
                    return Ok(None);
                }
                match self.end_phase(now) {
                    Ok(tr) => Ok(Some(tr)),
                    Err(e) => Err(e),
                }
            },
        }
    }

    /// At start-up: ends the phase at once when its deadline has passed.
    /// Otherwise nothing changes, and `timer` gives the deadline to arm.
    pub fn recover(&mut self, now: i64) -> (r: Result<Option<Transition>, LoraxError>)
        ensures
            final(self)@ == recover_spec(old(self)@, now).0,
            fired_result(r) == recover_spec(old(self)@, now).1,
            old(self)@.wf() ==> final(self)@.wf(),
    {
        match self.timer() {
            None => Ok(None),
            Some(t) => self.fire(t, now),
        }
    }
}

} // verus!
