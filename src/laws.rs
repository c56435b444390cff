//! The event's invariant and the laws that hold of its commands, proved over
//! the spec functions that the operations' contracts use.
use vstd::prelude::*;
use crate::machine::{
    advance_spec, ballot_options, ballots_after, cancel_spec, cast_spec, extend_spec, fire_spec,
    fits_i64, minutes_after, recover_spec, remove_spec, start_spec, submissions_after, submit_spec,
    vote_spec, without_option,
};
use crate::model::{
    Ballot, CandidateView, OptionView, candidate_name_flags, candidate_pos, lemma_first_true_at,
    lemma_first_true_found, lemma_first_true_minus, option_id_flags, option_name_flags,
    option_name_pos, option_pos, submitter_flags, submitter_pos, taken_by_other, voter_flags,
    voter_pos,
};
use crate::name_rules::{all_lower_letters, lower_of, valid_name};
use crate::phase::{
    LoraxError, PhaseView, SubmitKind, Timer, TransitionView, candidate_names_valid, ids_unique,
    names_unique, no_self_votes, option_names_unique, option_names_valid, submitters_unique,
    voters_unique, voting_wf,
};
use crate::tally::{OutcomeView, count_votes, leaders, max_votes, outcome, with_count};

verus! {

pub proof fn lemma_submissions_after_wf(s: Seq<CandidateView>, user: u64, name: Seq<char>)
    requires
        submitters_unique(s),
        names_unique(s),
        candidate_names_valid(s),
        valid_name(name),
        !taken_by_other(s, user, name),
    ensures
        submitters_unique(submissions_after(s, user, name)),
        names_unique(submissions_after(s, user, name)),
        candidate_names_valid(submissions_after(s, user, name)),
{
    let f = submitter_flags(s, user);
    let p = submitter_pos(s, user);
    let r = submissions_after(s, user, name);
    assert forall|i: int| 0 <= i < r.len() implies valid_name(#[trigger] r[i].name) by {
        if !(p >= 0 && i == p) && !(p < 0 && i == s.len()) {
            assert(r[i] == s[i]);
        }
    }
    if p >= 0 {
        lemma_first_true_found(f);
        assert(f[p]);
        assert(s[p].submitter == user);
        assert forall|j: int| 0 <= j < s.len() && j != p implies s[j].submitter != user by {
            assert(s[j].submitter != s[p].submitter);
        }
        assert forall|i: int, j: int|
            0 <= i < r.len() && 0 <= j < r.len() && i != j implies #[trigger] r[i].submitter
                != #[trigger] r[j].submitter by {
            assert(s[i].submitter != s[j].submitter);
        }
        assert forall|i: int, j: int|
            0 <= i < r.len() && 0 <= j < r.len() && i != j implies #[trigger] r[i].name
                != #[trigger] r[j].name by {
            if i != p && j != p {
                assert(s[i].name != s[j].name);
            }
        }
    } else {
        lemma_first_true_minus(f);
        assert forall|j: int| 0 <= j < s.len() implies s[j].submitter != user by {
            assert(!f[j]);
        }
        assert forall|i: int, j: int|
            0 <= i < r.len() && 0 <= j < r.len() && i != j implies #[trigger] r[i].submitter
                != #[trigger] r[j].submitter by {
            if i < s.len() && j < s.len() {
                assert(s[i].submitter != s[j].submitter);
            }
        }
        assert forall|i: int, j: int|
            0 <= i < r.len() && 0 <= j < r.len() && i != j implies #[trigger] r[i].name
                != #[trigger] r[j].name by {
            if i < s.len() && j < s.len() {
                assert(s[i].name != s[j].name);
            }
        }
    }
}

pub proof fn lemma_cast_wf(
    end: i64,
    o: Seq<OptionView>,
    v: Seq<Ballot>,
    now: i64,
    voter: u64,
    option: usize,
)
    requires
        voting_wf(o, v),
    ensures
        voting_wf(o, cast_spec(end, o, v, now, voter, option).0),
{
    let c = cast_spec(end, o, v, now, voter, option);
    if c.1 is Ok {
        let k = option_pos(o, option);
        lemma_first_true_found(option_id_flags(o, option));
        assert(option_id_flags(o, option)[k]);
        assert(o[k].id == option);
        let b = Ballot { voter, option };
        let f = voter_flags(v, voter);
        let p = voter_pos(v, voter);
        let r = c.0;
        assert(r == ballots_after(v, voter, option));
        if p >= 0 {
            lemma_first_true_found(f);
            assert(f[p]);
            assert forall|j: int| 0 <= j < v.len() && j != p implies v[j].voter != voter by {
                assert(v[j].voter != v[p].voter);
            }
            assert forall|i: int, j: int|
                0 <= i < r.len() && 0 <= j < r.len() && i != j implies #[trigger] r[i].voter
                    != #[trigger] r[j].voter by {
                assert(v[i].voter != v[j].voter);
            }
            assert forall|i: int| 0 <= i < r.len() implies exists|q: int|
                0 <= q < o.len() && o[q].id == (#[trigger] r[i]).option by {
                if i == p {
                    assert(o[k].id == r[i].option);
                } else {
                    assert(r[i] == v[i]);
                }
            }
            assert forall|i: int, q: int|
                0 <= i < r.len() && 0 <= q < o.len() && (#[trigger] o[q]).id == (
                #[trigger] r[i]).option implies o[q].submitter != r[i].voter by {
                if i == p {
                    if q != k {
                        assert(o[q].id != o[k].id);
                    }
                } else {
                    assert(r[i] == v[i]);
                }
            }
        } else {
            lemma_first_true_minus(f);
            assert forall|j: int| 0 <= j < v.len() implies v[j].voter != voter by {
                assert(!f[j]);
            }
            assert forall|i: int, j: int|
                0 <= i < r.len() && 0 <= j < r.len() && i != j implies #[trigger] r[i].voter
                    != #[trigger] r[j].voter by {
                if i < v.len() && j < v.len() {
                    assert(v[i].voter != v[j].voter);
                }
            }
            assert forall|i: int| 0 <= i < r.len() implies exists|q: int|
                0 <= q < o.len() && o[q].id == (#[trigger] r[i]).option by {
                if i == v.len() {
                    assert(o[k].id == r[i].option);
                } else {
                    assert(r[i] == v[i]);
                }
            }
            assert forall|i: int, q: int|
                0 <= i < r.len() && 0 <= q < o.len() && (#[trigger] o[q]).id == (
                #[trigger] r[i]).option implies o[q].submitter != r[i].voter by {
                if i == v.len() {
                    if q != k {
                        assert(o[q].id != o[k].id);
                    }
                } else {
                    assert(r[i] == v[i]);
                }
            }
        }
    }
}

/// Dropping the ballots for `id` keeps the others, in order, and nothing else.
pub proof fn lemma_without_option(v: Seq<Ballot>, id: usize)
    ensures
        forall|i: int|
            0 <= i < without_option(v, id).len() ==> (#[trigger] without_option(v, id)[i]).option
                != id && v.contains(without_option(v, id)[i]),
        forall|j: int|
            0 <= j < v.len() && (#[trigger] v[j]).option != id ==> without_option(v, id).contains(
                v[j],
            ),
        voters_unique(v) ==> voters_unique(without_option(v, id)),
    decreases v.len(),
{
    if v.len() > 0 {
        let d = v.drop_last();
        lemma_without_option(d, id);
        let r = without_option(d, id);
        let w = without_option(v, id);
        assert forall|i: int| 0 <= i < r.len() implies v.contains(r[i]) by {
            assert(d.contains(r[i]));
            let j = choose|j: int| 0 <= j < d.len() && d[j] == r[i];
            assert(v[j] == d[j]);
        }
        assert forall|i: int| 0 <= i < w.len() implies (#[trigger] w[i]).option != id && v.contains(
            w[i],
        ) by {
            if i < r.len() {
                assert(w[i] == r[i]);
            } else {
                assert(w[i] == v.last());
                assert(v[v.len() - 1] == v.last());
            }
        }
        assert forall|j: int| 0 <= j < v.len() && (#[trigger] v[j]).option != id implies w.contains(
            v[j],
        ) by {
            if j < v.len() - 1 {
                assert(d[j] == v[j]);
                assert(r.contains(d[j]));
                let i = choose|i: int| 0 <= i < r.len() && r[i] == d[j];
                assert(w[i] == r[i]);
            } else {
                assert(w[w.len() - 1] == v[j]);
            }
        }
        if voters_unique(v) {
            assert(voters_unique(d));
            if v.last().option != id {
                assert forall|i: int, j: int|
                    0 <= i < w.len() && 0 <= j < w.len() && i != j implies #[trigger] w[i].voter
                        != #[trigger] w[j].voter by {
                    if i < r.len() && j < r.len() {
                        assert(w[i] == r[i] && w[j] == r[j]);
                    } else if i < r.len() {
                        assert(d.contains(r[i]));
                        let k = choose|k: int| 0 <= k < d.len() && d[k] == r[i];
                        assert(v[k] == d[k]);
                        assert(v[k].voter != v[v.len() - 1].voter);
                    } else {
                        assert(d.contains(r[j]));
                        let k = choose|k: int| 0 <= k < d.len() && d[k] == r[j];
                        assert(v[k] == d[k]);
                        assert(v[k].voter != v[v.len() - 1].voter);
                    }
                }
            }
        }
    }
}

/// The options with a given count come from the options, in order, and
/// each has that count.
pub proof fn lemma_with_count(o: Seq<OptionView>, v: Seq<Ballot>, m: nat)
    ensures
        with_count(o, v, m).len() <= o.len(),
        forall|i: int|
            0 <= i < with_count(o, v, m).len() ==> count_votes(
                v,
                (#[trigger] with_count(o, v, m)[i]).id,
            ) == m && o.contains(with_count(o, v, m)[i]),
        ids_unique(o) ==> ids_unique(with_count(o, v, m)),
        option_names_unique(o) ==> option_names_unique(with_count(o, v, m)),
        option_names_valid(o) ==> option_names_valid(with_count(o, v, m)),
    decreases o.len(),
{
    if o.len() > 0 {
        let d = o.drop_last();
        lemma_with_count(d, v, m);
        let r = with_count(d, v, m);
        let w = with_count(o, v, m);
        assert forall|i: int| 0 <= i < r.len() implies o.contains(r[i]) by {
            assert(d.contains(r[i]));
            let j = choose|j: int| 0 <= j < d.len() && d[j] == r[i];
            assert(o[j] == d[j]);
        }
        assert forall|i: int| 0 <= i < w.len() implies count_votes(v, (#[trigger] w[i]).id) == m
            && o.contains(w[i]) by {
            if i < r.len() {
                assert(w[i] == r[i]);
            } else {
                assert(w[i] == o.last());
                assert(o[o.len() - 1] == o.last());
            }
        }
        if option_names_valid(o) {
            assert forall|i: int| 0 <= i < w.len() implies valid_name(#[trigger] w[i].name) by {
                assert(o.contains(w[i]));
            }
        }
        if option_names_unique(o) {
            assert(option_names_unique(d));
            if count_votes(v, o.last().id) == m {
                assert forall|i: int, j: int|
                    0 <= i < w.len() && 0 <= j < w.len() && i != j implies #[trigger] w[i].name
                        != #[trigger] w[j].name by {
                    if i < r.len() && j < r.len() {
                        assert(w[i] == r[i] && w[j] == r[j]);
                    } else if i < r.len() {
                        assert(d.contains(r[i]));
                        let k = choose|k: int| 0 <= k < d.len() && d[k] == r[i];
                        assert(o[k] == d[k]);
                        assert(o[k].name != o[o.len() - 1].name);
                    } else {
                        assert(d.contains(r[j]));
                        let k = choose|k: int| 0 <= k < d.len() && d[k] == r[j];
                        assert(o[k] == d[k]);
                        assert(o[k].name != o[o.len() - 1].name);
                    }
                }
            }
        }
        if ids_unique(o) {
            assert(ids_unique(d));
            if count_votes(v, o.last().id) == m {
                assert forall|i: int, j: int|
                    0 <= i < w.len() && 0 <= j < w.len() && i != j implies #[trigger] w[i].id
                        != #[trigger] w[j].id by {
                    if i < r.len() && j < r.len() {
                        assert(w[i] == r[i] && w[j] == r[j]);
                    } else if i < r.len() {
                        assert(d.contains(r[i]));
                        let k = choose|k: int| 0 <= k < d.len() && d[k] == r[i];
                        assert(o[k] == d[k]);
                        assert(o[k].id != o[o.len() - 1].id);
                    } else {
                        assert(d.contains(r[j]));
                        let k = choose|k: int| 0 <= k < d.len() && d[k] == r[j];
                        assert(o[k] == d[k]);
                        assert(o[k].id != o[o.len() - 1].id);
                    }
                }
            }
        }
    }
}

/// Removing an entry keeps the others, shifted down past it.
pub proof fn lemma_remove_index<A>(s: Seq<A>, p: int)
    requires
        0 <= p < s.len(),
    ensures
        s.remove(p).len() == s.len() - 1,
        forall|j: int| 0 <= j < p ==> s.remove(p)[j] == s[j],
        forall|j: int| p <= j < s.len() - 1 ==> s.remove(p)[j] == s[j + 1],
{
}

pub proof fn lemma_remove_submission_wf(s: Seq<CandidateView>, p: int)
    requires
        0 <= p < s.len(),
        submitters_unique(s),
        names_unique(s),
        candidate_names_valid(s),
    ensures
        submitters_unique(s.remove(p)),
        names_unique(s.remove(p)),
        candidate_names_valid(s.remove(p)),
{
    lemma_remove_index(s, p);
    let r = s.remove(p);
    assert forall|i: int| 0 <= i < r.len() implies valid_name(#[trigger] r[i].name) by {
        let a = if i < p { i } else { i + 1 };
        assert(r[i] == s[a]);
    }
    assert forall|i: int, j: int|
        0 <= i < r.len() && 0 <= j < r.len() && i != j implies #[trigger] r[i].submitter
            != #[trigger] r[j].submitter && r[i].name != r[j].name by {
        let a = if i < p { i } else { i + 1 };
        let b = if j < p { j } else { j + 1 };
        assert(r[i] == s[a] && r[j] == s[b]);
        assert(s[a].submitter != s[b].submitter);
        assert(s[a].name != s[b].name);
    }
}

pub proof fn lemma_remove_option_wf(o: Seq<OptionView>, v: Seq<Ballot>, k: int)
    requires
        0 <= k < o.len(),
        voting_wf(o, v),
    ensures
        voting_wf(o.remove(k), without_option(v, o[k].id)),
{
    lemma_remove_index(o, k);
    let id = o[k].id;
    lemma_without_option(v, id);
    let o2 = o.remove(k);
    let v2 = without_option(v, id);
    assert forall|i: int, j: int|
        0 <= i < o2.len() && 0 <= j < o2.len() && i != j implies #[trigger] o2[i].id
            != #[trigger] o2[j].id by {
        let a = if i < k { i } else { i + 1 };
        let b = if j < k { j } else { j + 1 };
        assert(o2[i] == o[a] && o2[j] == o[b]);
        assert(o[a].id != o[b].id);
        assert(o[a].name != o[b].name);
    }
    assert forall|i: int, j: int|
        0 <= i < o2.len() && 0 <= j < o2.len() && i != j implies #[trigger] o2[i].name
            != #[trigger] o2[j].name by {
        let a = if i < k { i } else { i + 1 };
        let b = if j < k { j } else { j + 1 };
        assert(o2[i] == o[a] && o2[j] == o[b]);
        assert(o[a].name != o[b].name);
    }
    assert forall|i: int| 0 <= i < o2.len() implies valid_name(#[trigger] o2[i].name) by {
        let a = if i < k { i } else { i + 1 };
        assert(o2[i] == o[a]);
    }
    assert forall|i: int| 0 <= i < v2.len() implies exists|q: int|
        0 <= q < o2.len() && o2[q].id == (#[trigger] v2[i]).option by {
        assert(v2[i].option != id && v.contains(v2[i]));
        let j = choose|j: int| 0 <= j < v.len() && v[j] == v2[i];
        assert(exists|q: int| 0 <= q < o.len() && o[q].id == (#[trigger] v[j]).option);
        let q = choose|q: int| 0 <= q < o.len() && o[q].id == v[j].option;
        assert(q != k);
        if q < k {
            assert(o2[q] == o[q]);
        } else {
            assert(o2[q - 1] == o[q]);
        }
    }
    assert forall|i: int, q: int|
        0 <= i < v2.len() && 0 <= q < o2.len() && (#[trigger] o2[q]).id == (
        #[trigger] v2[i]).option implies o2[q].submitter != v2[i].voter by {
        assert(v.contains(v2[i]));
        let j = choose|j: int| 0 <= j < v.len() && v[j] == v2[i];
        let a = if q < k { q } else { q + 1 };
        assert(o2[q] == o[a]);
        assert(o[a].id == v[j].option);
    }
}

/// Whether the submission list of `s` fits in memory, as every list held in
/// a `Vec` does.
pub open spec fn fits_usize(s: PhaseView) -> bool {
    match s {
        PhaseView::Submissions { submissions, .. } => submissions.len() <= usize::MAX,
        _ => true,
    }
}

pub proof fn lemma_advance_wf(s: PhaseView, now: i64)
    requires
        s.wf(),
        fits_usize(s),
    ensures
        advance_spec(s, now).0.wf(),
{
    match s {
        PhaseView::Submissions { submissions, .. } => {
            let o = ballot_options(submissions);
            assert(ids_unique(o));
            assert(option_names_unique(o)) by {
                assert forall|i: int, j: int|
                    0 <= i < o.len() && 0 <= j < o.len() && i != j implies #[trigger] o[i].name
                        != #[trigger] o[j].name by {
                    assert(submissions[i].name != submissions[j].name);
                }
            }
            assert(option_names_valid(o)) by {
                assert forall|i: int| 0 <= i < o.len() implies valid_name(#[trigger] o[i].name) by {
                    assert(valid_name(submissions[i].name));
                }
            }
        },
        PhaseView::Idle => {},
        _ => {
            let o = s.opts();
            let v = s.ballots();
            match outcome(o, v) {
                OutcomeView::Tie { leaders: l } => {
                    lemma_with_count(o, v, max_votes(o, v));
                },
                _ => {},
            }
        },
    }
}

/// The invariant of every event state is kept by every command and by every
/// phase change. In particular, no ballot ever names an option that its own
/// voter submitted, whatever sequence of submissions, votes and removals led
/// there.
pub proof fn operations_keep_invariant(
    s: PhaseView,
    now: i64,
    user: u64,
    name: Seq<char>,
    in_use: Option<bool>,
    option: usize,
    minutes: i64,
    t: Timer,
    location: Seq<char>,
    submission_minutes: u64,
    voting_minutes: u64,
    tiebreaker_minutes: u64,
)
    requires
        s.wf(),
        fits_usize(s),
    ensures
        no_self_votes(s.opts(), s.ballots()),
        start_spec(s, now, location, submission_minutes, voting_minutes, tiebreaker_minutes).0.wf(),
        submit_spec(s, now, user, name, in_use).0.wf(),
        vote_spec(s, now, user, option).0.wf(),
        remove_spec(s, name).0.wf(),
        extend_spec(s, now, minutes).0.wf(),
        cancel_spec(s).0.wf(),
        advance_spec(s, now).0.wf(),
        fire_spec(s, t, now).0.wf(),
        recover_spec(s, now).0.wf(),
{
    assert(start_spec(s, now, location, submission_minutes, voting_minutes, tiebreaker_minutes).0.wf());
    match s {
        PhaseView::Submissions { submissions, .. } => {
            if !taken_by_other(submissions, user, name) && valid_name(name) {
                lemma_submissions_after_wf(submissions, user, name);
            }
            let p = candidate_pos(submissions, name);
            if p >= 0 {
                lemma_first_true_found(candidate_name_flags(submissions, name));
                lemma_remove_submission_wf(submissions, p);
            }
        },
        PhaseView::Idle => {},
        _ => {
            lemma_cast_wf(s.end(), s.opts(), s.ballots(), now, user, option);
            let k = option_name_pos(s.opts(), name);
            if k >= 0 {
                lemma_first_true_found(option_name_flags(s.opts(), name));
                lemma_remove_option_wf(s.opts(), s.ballots(), k);
            }
        },
    }
    lemma_advance_wf(s, now);
}

/// A member's later submission replaces their earlier one: proposing `a` and
/// then `b` leaves the same submissions as proposing `b` alone (and proposing
/// the same name twice is the same as once). A valid name that another member
/// already holds is refused, and the submissions stay as they were.
pub proof fn submission_last_wins(s: PhaseView, now: i64, user: u64, a: Seq<char>, b: Seq<char>)
    requires
        s is Submissions,
        now <= s.end(),
        valid_name(a),
        valid_name(b),
    ensures
        ({
            let subs = s->Submissions_submissions;
            !taken_by_other(subs, user, a) && !taken_by_other(subs, user, b) ==> {
                let first = submit_spec(s, now, user, a, Some(false));
                &&& first.1 is Ok
                &&& submit_spec(first.0, now, user, b, Some(false)).1 == Ok::<
                    SubmitKind,
                    LoraxError,
                >(SubmitKind::Replaced)
                &&& submit_spec(first.0, now, user, b, Some(false)).0 == submit_spec(
                    s,
                    now,
                    user,
                    b,
                    Some(false),
                ).0
            }
        }),
        taken_by_other(s->Submissions_submissions, user, b) ==> submit_spec(
            s,
            now,
            user,
            b,
            Some(false),
        ) == (s, Err::<SubmitKind, LoraxError>(LoraxError::NameTaken)),
{
    let subs = s->Submissions_submissions;
    if !taken_by_other(subs, user, a) && !taken_by_other(subs, user, b) {
        let s1 = submissions_after(subs, user, a);
        let f = submitter_flags(subs, user);
        let p = submitter_pos(subs, user);
        let cb = CandidateView { submitter: user, name: b };
        if p >= 0 {
            lemma_first_true_found(f);
            assert(submitter_flags(s1, user) =~= f);
            assert(submissions_after(s1, user, b) =~= submissions_after(subs, user, b));
        } else {
            lemma_first_true_minus(f);
            let f1 = submitter_flags(s1, user);
            assert forall|j: int| 0 <= j < subs.len() implies !f1[j] by {
                assert(!f[j]);
            }
            lemma_first_true_at(f1, subs.len() as int);
            assert(submissions_after(s1, user, b) =~= submissions_after(subs, user, b));
        }
        assert forall|i: int| 0 <= i < s1.len() && s1[i].name == b implies s1[i].submitter
            == user by {
            if !(p < 0 && i == subs.len()) && !(p >= 0 && i == p) {
                assert(s1[i] == subs[i]);
            }
        }
    }
}

/// One entry per member: after a member proposes `a` and then a different
/// name `b`, their entry holds `b`, no entry holds `a` any more, and the list
/// is as long as after the first proposal.
pub proof fn resubmission_drops_first_name(
    s: PhaseView,
    now: i64,
    user: u64,
    a: Seq<char>,
    b: Seq<char>,
)
    requires
        s is Submissions,
        s.wf(),
        now <= s.end(),
        valid_name(a),
        valid_name(b),
        a != b,
        !taken_by_other(s->Submissions_submissions, user, a),
        !taken_by_other(s->Submissions_submissions, user, b),
    ensures
        ({
            let first = submit_spec(s, now, user, a, Some(false)).0;
            let second = submit_spec(first, now, user, b, Some(false)).0;
            let subs = second->Submissions_submissions;
            &&& second is Submissions
            &&& subs.len() == first->Submissions_submissions.len()
            &&& forall|i: int| 0 <= i < subs.len() ==> (#[trigger] subs[i]).name != a
            &&& exists|i: int|
                0 <= i < subs.len() && (#[trigger] subs[i]).submitter == user && subs[i].name == b
        }),
{
    submission_last_wins(s, now, user, a, b);
    let subs = s->Submissions_submissions;
    let f = submitter_flags(subs, user);
    let p = submitter_pos(subs, user);
    let s2 = submissions_after(subs, user, b);
    let first = submit_spec(s, now, user, a, Some(false)).0;
    let second = submit_spec(first, now, user, b, Some(false)).0;
    assert(first->Submissions_submissions == submissions_after(subs, user, a));
    assert(second == submit_spec(s, now, user, b, Some(false)).0);
    assert(second->Submissions_submissions == s2);
    if p >= 0 {
        lemma_first_true_found(f);
        assert(f[p]);
        assert forall|i: int| 0 <= i < s2.len() implies (#[trigger] s2[i]).name != a by {
            if i != p {
                assert(subs[i].submitter != subs[p].submitter);
                assert(s2[i] == subs[i]);
            }
        }
        assert(s2[p].submitter == user && s2[p].name == b);
    } else {
        lemma_first_true_minus(f);
        assert forall|i: int| 0 <= i < s2.len() implies (#[trigger] s2[i]).name != a by {
            if i < subs.len() {
                assert(!f[i]);
                assert(s2[i] == subs[i]);
            }
        }
        assert(s2[subs.len() as int].submitter == user);
    }
}

/// A proposal that matches another member's name ignoring case is refused
/// and changes nothing. Stored names are lowercase letters only (part of the
/// invariant), and `str::to_lowercase` keeps such text as it is, so matching
/// ignoring case means that the lowercase form of the proposal is the stored
/// name.
pub proof fn taken_name_refused_ignoring_case(
    s: PhaseView,
    now: i64,
    user: u64,
    raw: Seq<char>,
    other: int,
)
    requires
        s is Submissions,
        s.wf(),
        now <= s.end(),
        valid_name(lower_of(raw)),
        0 <= other < s->Submissions_submissions.len(),
        s->Submissions_submissions[other].submitter != user,
        s->Submissions_submissions[other].name == lower_of(raw),
    ensures
        forall|i: int|
            0 <= i < s->Submissions_submissions.len() ==> all_lower_letters(
                (#[trigger] s->Submissions_submissions[i]).name,
            ),
        submit_spec(s, now, user, lower_of(raw), Some(false)) == (
            s,
            Err::<SubmitKind, LoraxError>(LoraxError::NameTaken),
        ),
{
    let subs = s->Submissions_submissions;
    assert forall|i: int| 0 <= i < subs.len() implies all_lower_letters((#[trigger] subs[i]).name) by {
        assert(valid_name(subs[i].name));
    }
    assert(taken_by_other(subs, user, lower_of(raw)));
}

/// With no ballot every option has 0 votes, so all of them lead.
pub proof fn lemma_no_ballots(o: Seq<OptionView>, v: Seq<Ballot>)
    requires
        v.len() == 0,
    ensures
        max_votes(o, v) == 0,
        with_count(o, v, 0) == o,
    decreases o.len(),
{
    if o.len() > 0 {
        lemma_no_ballots(o.drop_last(), v);
        assert(count_votes(v, o.last().id) == 0);
        assert(o.drop_last().push(o.last()) =~= o);
    }
}

/// A tie for the most votes in a vote with ballots opens the first
/// tie-break round, over exactly the tied options and with no ballots.
pub proof fn tie_opens_tiebreak(s: PhaseView, now: i64)
    requires
        s is Voting,
        s.ballots().len() > 0,
        leaders(s.opts(), s.ballots()).len() >= 2,
        fits_i64(minutes_after(now, s.tiebreak_minutes() as int)),
    ensures
        advance_spec(s, now) == (
            PhaseView::TieBreaker {
                end_time: minutes_after(now, s.tiebreak_minutes() as int) as i64,
                options: leaders(s.opts(), s.ballots()),
                votes: Seq::empty(),
                location: s.location(),
                round: 1,
                tiebreaker_duration: s.tiebreak_minutes(),
            },
            Ok::<TransitionView, LoraxError>(TransitionView::TieBreak { round: 1 }),
        ),
{
    lemma_with_count(s.opts(), s.ballots(), max_votes(s.opts(), s.ballots()));
}

/// An option alone at the most votes wins: the event ends with that single
/// winner and no tie-break round.
pub proof fn unique_leader_wins(s: PhaseView, now: i64)
    requires
        s.is_voting_like(),
        leaders(s.opts(), s.ballots()).len() == 1,
    ensures
        advance_spec(s, now) == (
            PhaseView::Idle,
            Ok::<TransitionView, LoraxError>(
                TransitionView::Winner {
                    winner: leaders(s.opts(), s.ballots())[0],
                    votes: count_votes(s.ballots(), leaders(s.opts(), s.ballots())[0].id),
                },
            ),
        ),
{
    let o = s.opts();
    let v = s.ballots();
    let m = max_votes(o, v);
    lemma_with_count(o, v, m);
    if o.len() == 1 {
        assert(o.drop_last().len() == 0);
        assert(max_votes(o.drop_last(), v) == 0);
        assert(m == count_votes(v, o[0].id));
        assert(with_count(o.drop_last(), v, m) =~= Seq::<OptionView>::empty());
        assert(leaders(o, v)[0] == o[0]);
    } else if v.len() == 0 {
        lemma_no_ballots(o, v);
    }
}

/// Moving a deadline by `minutes` moves it by exactly `minutes * 60` seconds.
/// The timer armed for the old deadline then never acts, and the timer for
/// the new one acts at the new deadline and not before.
pub proof fn extend_moves_deadline(s: PhaseView, now: i64, minutes: i64)
    requires
        !(s is Idle),
        fits_i64(minutes_after(s.end(), minutes as int)),
        minutes_after(s.end(), minutes as int) >= now,
    ensures
        extend_spec(s, now, minutes).1 == Ok::<i64, LoraxError>(
            minutes_after(s.end(), minutes as int) as i64,
        ),
        extend_spec(s, now, minutes).0.end() == s.end() + minutes * 60,
        extend_spec(s, now, minutes).0.timer() == Some(
            Timer {
                stage: s.timer()->Some_0.stage,
                end_time: minutes_after(s.end(), minutes as int) as i64,
            },
        ),
        minutes != 0 ==> forall|n: i64|
            #[trigger] fire_spec(extend_spec(s, now, minutes).0, s.timer()->Some_0, n) == (
                extend_spec(s, now, minutes).0,
                Ok::<Option<TransitionView>, LoraxError>(None),
            ),
        forall|n: i64|
            n < extend_spec(s, now, minutes).0.end() ==> #[trigger] fire_spec(
                extend_spec(s, now, minutes).0,
                extend_spec(s, now, minutes).0.timer()->Some_0,
                n,
            ) == (
                extend_spec(s, now, minutes).0,
                Ok::<Option<TransitionView>, LoraxError>(None),
            ),
        forall|n: i64|
            n >= extend_spec(s, now, minutes).0.end() ==> (#[trigger] fire_spec(
                extend_spec(s, now, minutes).0,
                extend_spec(s, now, minutes).0.timer()->Some_0,
                n,
            )).0 == advance_spec(extend_spec(s, now, minutes).0, n).0,
{
}

/// The name of the option with this id.
pub open spec fn option_name(o: Seq<OptionView>, id: usize) -> Seq<char> {
    o[option_pos(o, id)].name
}

pub proof fn lemma_option_pos_of(o: Seq<OptionView>, q: int)
    requires
        ids_unique(o),
        0 <= q < o.len(),
    ensures
        option_pos(o, o[q].id) == q,
{
    let f = option_id_flags(o, o[q].id);
    assert forall|j: int| 0 <= j < q implies !f[j] by {
        assert(o[j].id != o[q].id);
    }
    lemma_first_true_at(f, q);
}

/// Removing a name during a vote discards exactly the ballots for it. Every
/// other ballot stays, and still names the same candidate as before.
pub proof fn removal_keeps_other_votes(s: PhaseView, name: Seq<char>)
    requires
        s.is_voting_like(),
        s.wf(),
        option_name_pos(s.opts(), name) >= 0,
    ensures
        ({
            let o = s.opts();
            let id = o[option_name_pos(o, name)].id;
            let s1 = remove_spec(s, name).0;
            &&& remove_spec(s, name).1 is Ok
            &&& forall|i: int| 0 <= i < s1.ballots().len() ==> (#[trigger] s1.ballots()[i]).option != id
            &&& forall|j: int|
                0 <= j < s.ballots().len() && (#[trigger] s.ballots()[j]).option != id ==> {
                    &&& s1.ballots().contains(s.ballots()[j])
                    &&& option_pos(s1.opts(), s.ballots()[j].option) >= 0
                    &&& option_name(s1.opts(), s.ballots()[j].option) == option_name(
                        o,
                        s.ballots()[j].option,
                    )
                }
        }),
{
    let o = s.opts();
    let v = s.ballots();
    let k = option_name_pos(o, name);
    let id = o[k].id;
    lemma_without_option(v, id);
    lemma_remove_option_wf(o, v, k);
    lemma_remove_index(o, k);
    let o2 = o.remove(k);
    assert(remove_spec(s, name).0.opts() == o2);
    assert(remove_spec(s, name).0.ballots() == without_option(v, id));
    assert forall|j: int| 0 <= j < v.len() && (#[trigger] v[j]).option != id implies option_pos(
        o2,
        v[j].option,
    ) >= 0 && option_name(o2, v[j].option) == option_name(o, v[j].option) by {
        assert(exists|q: int| 0 <= q < o.len() && o[q].id == (#[trigger] v[j]).option);
        let q = choose|q: int| 0 <= q < o.len() && o[q].id == v[j].option;
        lemma_option_pos_of(o, q);
        assert(q != k);
        let q2 = if q < k { q } else { q - 1 };
        assert(o2[q2] == o[q]);
        lemma_option_pos_of(o2, q2);
    }
}

} // verus!
