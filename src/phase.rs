//! The phases of a naming event, their view, and the event's invariant.
use vstd::prelude::*;
use crate::model::{
    Ballot, Candidate, CandidateView, OptionView, VoteOption, candidates_view, options_view,
};
use crate::name_rules::{NameError, valid_name};

verus! {

/// The state of one guild's naming event. Exactly one phase is active.
#[derive(Clone, Debug)]
pub enum LoraxState {
    /// No event is running.
    Idle,
    /// Members put names forward until `end_time` (seconds since the epoch).
    Submissions {
        end_time: i64,
        submissions: Vec<Candidate>,
        location: String,
        voting_duration: u64,
        tiebreaker_duration: u64,
    },
    /// The first vote over all submitted names.
    Voting {
        end_time: i64,
        options: Vec<VoteOption>,
        votes: Vec<Ballot>,
        location: String,
        tiebreaker_duration: u64,
    },
    /// A further vote among the names that tied; `round` counts from 1.
    TieBreaker {
        end_time: i64,
        options: Vec<VoteOption>,
        votes: Vec<Ballot>,
        location: String,
        round: u32,
        tiebreaker_duration: u64,
    },
}

pub ghost enum PhaseView {
    Idle,
    Submissions {
        end_time: i64,
        submissions: Seq<CandidateView>,
        location: Seq<char>,
        voting_duration: u64,
        tiebreaker_duration: u64,
    },
    Voting {
        end_time: i64,
        options: Seq<OptionView>,
        votes: Seq<Ballot>,
        location: Seq<char>,
        tiebreaker_duration: u64,
    },
    TieBreaker {
        end_time: i64,
        options: Seq<OptionView>,
        votes: Seq<Ballot>,
        location: Seq<char>,
        round: u32,
        tiebreaker_duration: u64,
    },
}

impl View for LoraxState {
    type V = PhaseView;

    open spec fn view(&self) -> PhaseView {
        match self {
            LoraxState::Idle => PhaseView::Idle,
            LoraxState::Submissions {
                end_time,
                submissions,
                location,
                voting_duration,
                tiebreaker_duration,
            } => PhaseView::Submissions {
                end_time: *end_time,
                submissions: candidates_view(submissions@),
                location: location@,
                voting_duration: *voting_duration,
                tiebreaker_duration: *tiebreaker_duration,
            },
            LoraxState::Voting { end_time, options, votes, location, tiebreaker_duration } =>
                PhaseView::Voting {
                end_time: *end_time,
                options: options_view(options@),
                votes: votes@,
                location: location@,
                tiebreaker_duration: *tiebreaker_duration,
            },
            LoraxState::TieBreaker {
                end_time,
                options,
                votes,
                location,
                round,
                tiebreaker_duration,
            } => PhaseView::TieBreaker {
                end_time: *end_time,
                options: options_view(options@),
                votes: votes@,
                location: location@,
                round: *round,
                tiebreaker_duration: *tiebreaker_duration,
            },
        }
    }
}

/// Why a command was refused. A refused command changes nothing.
#[derive(Clone, Copy, Debug, PartialEq, Eq, Structural)]
pub enum LoraxError {
    /// An event is already running.
    AlreadyRunning,
    /// No event is running.
    NoActiveEvent,
    /// The event is not taking submissions.
    SubmissionsClosed,
    /// The current phase's deadline has passed.
    DeadlinePassed,
    /// The proposed name breaks the naming rules.
    InvalidName(NameError),
    /// The name is already used outside this event.
    NameInUse,
    /// Another member already submitted the name.
    NameTaken,
    /// The list of names in use could not be had.
    OracleUnavailable,
    /// The event is not taking votes.
    VotingClosed,
    /// No option under vote has that id.
    UnknownOption,
    /// The option was submitted by the voter.
    SelfVote,
    /// No submission or option has that name.
    CandidateNotFound,
    /// The new deadline would lie in the past.
    EndInPast,
    /// A deadline or round number would not fit its integer type.
    OutOfRange,
}

/// Which phase a deadline belongs to.
#[derive(Clone, Copy, Debug, PartialEq, Eq, Structural)]
pub enum Stage {
    Submissions,
    Voting,
    TieBreaker { round: u32 },
}

/// The deadline of one phase, as armed by the scheduler. A timer fires only
/// while the event still shows the same phase with the same deadline.
#[derive(Clone, Copy, Debug, PartialEq, Eq, Structural)]
pub struct Timer {
    pub stage: Stage,
    pub end_time: i64,
}

/// Whether a submission was new or replaced the member's earlier one.
#[derive(Clone, Copy, Debug, PartialEq, Eq, Structural)]
pub enum SubmitKind {
    Added,
    Replaced,
}

/// What ending a phase did.
#[derive(Clone, Debug)]
pub enum Transition {
    /// Submissions closed with no name: the event is over.
    NoSubmissions,
    /// Submissions closed and the vote is open.
    VotingOpened,
    /// The vote ended with no option left: the event is over.
    NoWinner,
    /// The vote ended with a winner: the event is over.
    Winner { winner: VoteOption, votes: usize },
    /// The vote ended in a tie: a tie-break round is open.
    TieBreak { round: u32 },
}

pub ghost enum TransitionView {
    NoSubmissions,
    VotingOpened,
    NoWinner,
    Winner { winner: OptionView, votes: nat },
    TieBreak { round: u32 },
}

impl View for Transition {
    type V = TransitionView;

    open spec fn view(&self) -> TransitionView {
        match self {
            Transition::NoSubmissions => TransitionView::NoSubmissions,
            Transition::VotingOpened => TransitionView::VotingOpened,
            Transition::NoWinner => TransitionView::NoWinner,
            Transition::Winner { winner, votes } => TransitionView::Winner {
                winner: winner@,
                votes: *votes as nat,
            },
            Transition::TieBreak { round } => TransitionView::TieBreak { round: *round },
        }
    }
}

pub open spec fn submitters_unique(s: Seq<CandidateView>) -> bool {
    forall|i: int, j: int|
        0 <= i < s.len() && 0 <= j < s.len() && i != j ==> #[trigger] s[i].submitter
            != #[trigger] s[j].submitter
}

pub open spec fn names_unique(s: Seq<CandidateView>) -> bool {
    forall|i: int, j: int|
        0 <= i < s.len() && 0 <= j < s.len() && i != j ==> #[trigger] s[i].name
            != #[trigger] s[j].name
}

pub open spec fn ids_unique(o: Seq<OptionView>) -> bool {
    forall|i: int, j: int|
        0 <= i < o.len() && 0 <= j < o.len() && i != j ==> #[trigger] o[i].id != #[trigger] o[j].id
}

pub open spec fn voters_unique(v: Seq<Ballot>) -> bool {
    forall|i: int, j: int|
        0 <= i < v.len() && 0 <= j < v.len() && i != j ==> #[trigger] v[i].voter
            != #[trigger] v[j].voter
}

/// Every stored name passes the naming rules, so it is its own lowercase form.
pub open spec fn candidate_names_valid(s: Seq<CandidateView>) -> bool {
    forall|i: int| 0 <= i < s.len() ==> valid_name(#[trigger] s[i].name)
}

pub open spec fn option_names_valid(o: Seq<OptionView>) -> bool {
    forall|i: int| 0 <= i < o.len() ==> valid_name(#[trigger] o[i].name)
}

pub open spec fn option_names_unique(o: Seq<OptionView>) -> bool {
    forall|i: int, j: int|
        0 <= i < o.len() && 0 <= j < o.len() && i != j ==> #[trigger] o[i].name
            != #[trigger] o[j].name
}

/// Every ballot names an option under vote.
pub open spec fn ballots_resolve(o: Seq<OptionView>, v: Seq<Ballot>) -> bool {
    forall|i: int|
        0 <= i < v.len() ==> exists|k: int| 0 <= k < o.len() && o[k].id == (#[trigger] v[i]).option
}

/// No ballot names an option that its own voter submitted.
pub open spec fn no_self_votes(o: Seq<OptionView>, v: Seq<Ballot>) -> bool {
    forall|i: int, k: int|
        0 <= i < v.len() && 0 <= k < o.len() && (#[trigger] o[k]).id == (#[trigger] v[i]).option
            ==> o[k].submitter != v[i].voter
}

pub open spec fn voting_wf(o: Seq<OptionView>, v: Seq<Ballot>) -> bool {
    &&& ids_unique(o)
    &&& option_names_unique(o)
    &&& option_names_valid(o)
    &&& voters_unique(v)
    &&& ballots_resolve(o, v)
    &&& no_self_votes(o, v)
}

impl PhaseView {
    /// The invariant of every reachable state.
    pub open spec fn wf(self) -> bool {
        match self {
            PhaseView::Idle => true,
            PhaseView::Submissions { submissions, .. } => submitters_unique(submissions)
                && names_unique(submissions) && candidate_names_valid(submissions),
            PhaseView::Voting { options, votes, .. } => voting_wf(options, votes),
            PhaseView::TieBreaker { options, votes, round, .. } => voting_wf(options, votes)
                && round >= 1,
        }
    }

    pub open spec fn is_voting_like(self) -> bool {
        self is Voting || self is TieBreaker
    }

    pub open spec fn end(self) -> i64 {
        match self {
            PhaseView::Idle => 0,
            PhaseView::Submissions { end_time, .. } => end_time,
            PhaseView::Voting { end_time, .. } => end_time,
            PhaseView::TieBreaker { end_time, .. } => end_time,
        }
    }

    pub open spec fn opts(self) -> Seq<OptionView> {
        match self {
            PhaseView::Voting { options, .. } => options,
            PhaseView::TieBreaker { options, .. } => options,
            _ => Seq::empty(),
        }
    }

    pub open spec fn ballots(self) -> Seq<Ballot> {
        match self {
            PhaseView::Voting { votes, .. } => votes,
            PhaseView::TieBreaker { votes, .. } => votes,
            _ => Seq::empty(),
        }
    }

    pub open spec fn location(self) -> Seq<char> {
        match self {
            PhaseView::Idle => Seq::empty(),
            PhaseView::Submissions { location, .. } => location,
            PhaseView::Voting { location, .. } => location,
            PhaseView::TieBreaker { location, .. } => location,
        }
    }

    pub open spec fn tiebreak_minutes(self) -> u64 {
        match self {
            PhaseView::Idle => 0,
            PhaseView::Submissions { tiebreaker_duration, .. } => tiebreaker_duration,
            PhaseView::Voting { tiebreaker_duration, .. } => tiebreaker_duration,
            PhaseView::TieBreaker { tiebreaker_duration, .. } => tiebreaker_duration,
        }
    }

    /// The tie-break round under way; 0 outside tie-breaks.
    pub open spec fn round(self) -> int {
        match self {
            PhaseView::TieBreaker { round, .. } => round as int,
            _ => 0,
        }
    }

    /// The same phase with another deadline.
    pub open spec fn with_end(self, e: i64) -> PhaseView {
        match self {
            PhaseView::Idle => PhaseView::Idle,
            PhaseView::Submissions {
                submissions,
                location,
                voting_duration,
                tiebreaker_duration,
                ..
            } => PhaseView::Submissions {
                end_time: e,
                submissions,
                location,
                voting_duration,
                tiebreaker_duration,
            },
            PhaseView::Voting { options, votes, location, tiebreaker_duration, .. } =>
                PhaseView::Voting { end_time: e, options, votes, location, tiebreaker_duration },
            PhaseView::TieBreaker { options, votes, location, round, tiebreaker_duration, .. } =>
                PhaseView::TieBreaker {
                end_time: e,
                options,
                votes,
                location,
                round,
                tiebreaker_duration,
            },
        }
    }

    /// The same voting phase with other options and ballots.
    pub open spec fn with_vote(self, o: Seq<OptionView>, v: Seq<Ballot>) -> PhaseView {
        match self {
            PhaseView::Voting { end_time, location, tiebreaker_duration, .. } =>
                PhaseView::Voting { end_time, options: o, votes: v, location, tiebreaker_duration },
            PhaseView::TieBreaker { end_time, location, round, tiebreaker_duration, .. } =>
                PhaseView::TieBreaker {
                end_time,
                options: o,
                votes: v,
                location,
                round,
                tiebreaker_duration,
            },
            _ => self,
        }
    }

    /// The deadline that the scheduler arms for this phase.
    pub open spec fn timer(self) -> Option<Timer> {
        match self {
            PhaseView::Idle => None,
            PhaseView::Submissions { end_time, .. } => Some(
                Timer { stage: Stage::Submissions, end_time },
            ),
            PhaseView::Voting { end_time, .. } => Some(Timer { stage: Stage::Voting, end_time }),
            PhaseView::TieBreaker { end_time, round, .. } => Some(
                Timer { stage: Stage::TieBreaker { round }, end_time },
            ),
        }
    }
}

} // verus!
