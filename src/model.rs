//! Candidates, options and ballots, their views, and the searches over them.
use vstd::prelude::*;
use crate::name_rules::same_text;

verus! {

/// A name put forward by a member during the submission phase.
#[derive(Clone, Debug)]
pub struct Candidate {
    pub submitter: u64,
    pub name: String,
}

/// A name under vote. `id` is fixed when the vote opens and never changes,
/// so ballots keep pointing at the same name when other options leave.
#[derive(Clone, Debug)]
pub struct VoteOption {
    pub id: usize,
    pub name: String,
    pub submitter: u64,
}

/// One member's vote: the id of the option chosen.
#[derive(Clone, Copy, Debug, PartialEq, Eq, Structural)]
pub struct Ballot {
    pub voter: u64,
    pub option: usize,
}

pub ghost struct CandidateView {
    pub submitter: u64,
    pub name: Seq<char>,
}

pub ghost struct OptionView {
    pub id: usize,
    pub name: Seq<char>,
    pub submitter: u64,
}

impl View for Candidate {
    type V = CandidateView;

    open spec fn view(&self) -> CandidateView {
        CandidateView { submitter: self.submitter, name: self.name@ }
    }
}

impl View for VoteOption {
    type V = OptionView;

    open spec fn view(&self) -> OptionView {
        OptionView { id: self.id, name: self.name@, submitter: self.submitter }
    }
}

impl Candidate {
    pub fn duplicate(&self) -> (r: Candidate)
        ensures
            r@ == self@,
    {
        Candidate { submitter: self.submitter, name: self.name.clone() }
    }
}

impl VoteOption {
    pub fn duplicate(&self) -> (r: VoteOption)
        ensures
            r@ == self@,
    {
        VoteOption { id: self.id, name: self.name.clone(), submitter: self.submitter }
    }
}

pub open spec fn candidates_view(v: Seq<Candidate>) -> Seq<CandidateView> {
    v.map_values(|c: Candidate| c@)
}

pub open spec fn options_view(v: Seq<VoteOption>) -> Seq<OptionView> {
    v.map_values(|o: VoteOption| o@)
}

/// The first position whose flag is set, or -1 when none is.
pub open spec fn first_true(flags: Seq<bool>) -> int {
    if exists|i: int| is_first_true(flags, i) {
        choose|i: int| is_first_true(flags, i)
    } else {
        -1
    }
}

pub open spec fn is_first_true(flags: Seq<bool>, i: int) -> bool {
    &&& 0 <= i < flags.len()
    &&& flags[i]
    &&& forall|j: int| 0 <= j < i ==> !flags[j]
}

pub proof fn lemma_first_true_at(flags: Seq<bool>, i: int)
    requires
        is_first_true(flags, i),
    ensures
        first_true(flags) == i,
{
    let k = choose|k: int| is_first_true(flags, k);
    assert(is_first_true(flags, k));
    if k < i {
        assert(!flags[k]);
    } else if k > i {
        assert(!flags[i]);
    }
}

pub proof fn lemma_first_true_none(flags: Seq<bool>)
    requires
        forall|j: int| 0 <= j < flags.len() ==> !flags[j],
    ensures
        first_true(flags) == -1,
{
    if exists|i: int| is_first_true(flags, i) {
        let k = choose|k: int| is_first_true(flags, k);
        assert(flags[k]);
    }
}

/// When some flag is set, there is a first one.
pub proof fn lemma_first_true_some(flags: Seq<bool>, j: int)
    requires
        0 <= j < flags.len(),
        flags[j],
    ensures
        first_true(flags) >= 0,
    decreases j,
{
    if forall|k: int| 0 <= k < j ==> !flags[k] {
        lemma_first_true_at(flags, j);
    } else {
        let k = choose|k: int| 0 <= k < j && flags[k];
        lemma_first_true_some(flags, k);
    }
}

/// When no flag is found, none is set.
pub proof fn lemma_first_true_minus(flags: Seq<bool>)
    requires
        first_true(flags) < 0,
    ensures
        forall|j: int| 0 <= j < flags.len() ==> !flags[j],
{
    assert forall|j: int| 0 <= j < flags.len() implies !flags[j] by {
        if flags[j] {
            lemma_first_true_some(flags, j);
        }
    }
}

pub proof fn lemma_first_true_found(flags: Seq<bool>)
    requires
        first_true(flags) >= 0,
    ensures
        is_first_true(flags, first_true(flags)),
{
}

pub open spec fn submitter_flags(s: Seq<CandidateView>, user: u64) -> Seq<bool> {
    Seq::new(s.len(), |i: int| s[i].submitter == user)
}

pub open spec fn candidate_name_flags(s: Seq<CandidateView>, name: Seq<char>) -> Seq<bool> {
    Seq::new(s.len(), |i: int| s[i].name == name)
}

pub open spec fn option_id_flags(o: Seq<OptionView>, id: usize) -> Seq<bool> {
    Seq::new(o.len(), |i: int| o[i].id == id)
}

pub open spec fn option_name_flags(o: Seq<OptionView>, name: Seq<char>) -> Seq<bool> {
    Seq::new(o.len(), |i: int| o[i].name == name)
}

pub open spec fn voter_flags(v: Seq<Ballot>, voter: u64) -> Seq<bool> {
    Seq::new(v.len(), |i: int| v[i].voter == voter)
}

/// Where the member's submission stands, or -1.
pub open spec fn submitter_pos(s: Seq<CandidateView>, user: u64) -> int {
    first_true(submitter_flags(s, user))
}

/// Where the submission with this name stands, or -1.
pub open spec fn candidate_pos(s: Seq<CandidateView>, name: Seq<char>) -> int {
    first_true(candidate_name_flags(s, name))
}

/// Where the option with this id stands, or -1.
pub open spec fn option_pos(o: Seq<OptionView>, id: usize) -> int {
    first_true(option_id_flags(o, id))
}

/// Where the option with this name stands, or -1.
pub open spec fn option_name_pos(o: Seq<OptionView>, name: Seq<char>) -> int {
    first_true(option_name_flags(o, name))
}

/// Where the member's ballot stands, or -1.
pub open spec fn voter_pos(v: Seq<Ballot>, voter: u64) -> int {
    first_true(voter_flags(v, voter))
}

/// Whether another member already holds this name.
pub open spec fn taken_by_other(s: Seq<CandidateView>, user: u64, name: Seq<char>) -> bool {
    exists|i: int| 0 <= i < s.len() && s[i].name == name && s[i].submitter != user
}

pub open spec fn opt_pos(r: Option<usize>) -> int {
    match r {
        Some(i) => i as int,
        None => -1,
    }
}

pub fn find_submitter(s: &Vec<Candidate>, user: u64) -> (r: Option<usize>)
    ensures
        opt_pos(r) == submitter_pos(candidates_view(s@), user),
{
    let ghost flags = submitter_flags(candidates_view(s@), user);
    let mut i: usize = 0;
    while i < s.len()
        invariant
            flags == submitter_flags(candidates_view(s@), user),
            i <= s@.len(),
            forall|j: int| 0 <= j < i ==> !flags[j],
        decreases s@.len() - i,
    {
        if s[i].submitter == user {
            proof { lemma_first_true_at(flags, i as int); }
            return Some(i);
        }
        i += 1;
    }
    proof { lemma_first_true_none(flags); }
    None
}

pub fn find_candidate(s: &Vec<Candidate>, name: &str) -> (r: Option<usize>)
    ensures
        opt_pos(r) == candidate_pos(candidates_view(s@), name@),
{
    let ghost flags = candidate_name_flags(candidates_view(s@), name@);
    let mut i: usize = 0;
    while i < s.len()
        invariant
            flags == candidate_name_flags(candidates_view(s@), name@),
            i <= s@.len(),
            forall|j: int| 0 <= j < i ==> !flags[j],
        decreases s@.len() - i,
    {
        if same_text(s[i].name.as_str(), name) {
            proof { lemma_first_true_at(flags, i as int); }
            return Some(i);
        }
        i += 1;
    }
    proof { lemma_first_true_none(flags); }
    None
}

pub fn find_option(o: &Vec<VoteOption>, id: usize) -> (r: Option<usize>)
    ensures
        opt_pos(r) == option_pos(options_view(o@), id),
{
    let ghost flags = option_id_flags(options_view(o@), id);
    let mut i: usize = 0;
    while i < o.len()
        invariant
            flags == option_id_flags(options_view(o@), id),
            i <= o@.len(),
            forall|j: int| 0 <= j < i ==> !flags[j],
        decreases o@.len() - i,
    {
        if o[i].id == id {
            proof { lemma_first_true_at(flags, i as int); }
            return Some(i);
        }
        i += 1;
    }
    proof { lemma_first_true_none(flags); }
    None
}

pub fn find_option_named(o: &Vec<VoteOption>, name: &str) -> (r: Option<usize>)
    ensures
        opt_pos(r) == option_name_pos(options_view(o@), name@),
{
    let ghost flags = option_name_flags(options_view(o@), name@);
    let mut i: usize = 0;
    while i < o.len()
        invariant
            flags == option_name_flags(options_view(o@), name@),
            i <= o@.len(),
            forall|j: int| 0 <= j < i ==> !flags[j],
        decreases o@.len() - i,
    {
        if same_text(o[i].name.as_str(), name) {
            proof { lemma_first_true_at(flags, i as int); }
            return Some(i);
        }
        i += 1;
    }
    proof { lemma_first_true_none(flags); }
    None
}

pub fn find_voter(v: &Vec<Ballot>, voter: u64) -> (r: Option<usize>)
    ensures
        opt_pos(r) == voter_pos(v@, voter),
{
    let ghost flags = voter_flags(v@, voter);
    let mut i: usize = 0;
    while i < v.len()
        invariant
            flags == voter_flags(v@, voter),
            i <= v@.len(),
            forall|j: int| 0 <= j < i ==> !flags[j],
        decreases v@.len() - i,
    {
        if v[i].voter == voter {
            proof { lemma_first_true_at(flags, i as int); }
            return Some(i);
        }
        i += 1;
    }
    proof { lemma_first_true_none(flags); }
    None
}

/// Whether a member other than `user` already submitted `name`.
pub fn is_taken_by_other(s: &Vec<Candidate>, user: u64, name: &str) -> (r: bool)
    ensures
        r == taken_by_other(candidates_view(s@), user, name@),
{
    let ghost cv = candidates_view(s@);
    let mut i: usize = 0;
    while i < s.len()
        invariant
            cv == candidates_view(s@),
            i <= s@.len(),
            forall|j: int| 0 <= j < i ==> !(cv[j].name == name@ && cv[j].submitter != user),
        decreases s@.len() - i,
    {
        if s[i].submitter != user && same_text(s[i].name.as_str(), name) {
            assert(cv[i as int].name == name@ && cv[i as int].submitter != user);
            return true;
        }
        i += 1;
    }
    false
}

} // verus!
