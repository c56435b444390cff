//! Counting ballots and deciding how a vote ends.
use vstd::prelude::*;
use crate::model::{Ballot, OptionView, VoteOption, options_view};

verus! {

/// How many ballots name the option `id`.
pub open spec fn count_votes(v: Seq<Ballot>, id: usize) -> nat
    decreases v.len(),
{
    if v.len() == 0 {
        0
    } else {
        count_votes(v.drop_last(), id) + if v.last().option == id { 1nat } else { 0nat }
    }
}

/// The largest vote count among the options (0 for none).
pub open spec fn max_votes(o: Seq<OptionView>, v: Seq<Ballot>) -> nat
    decreases o.len(),
{
    if o.len() == 0 {
        0
    } else {
        let m = max_votes(o.drop_last(), v);
        let c = count_votes(v, o.last().id);
        if c > m { c } else { m }
    }
}

/// The options with exactly `m` votes, in their order.
pub open spec fn with_count(o: Seq<OptionView>, v: Seq<Ballot>, m: nat) -> Seq<OptionView>
    decreases o.len(),
{
    if o.len() == 0 {
        o
    } else {
        let r = with_count(o.drop_last(), v, m);
        if count_votes(v, o.last().id) == m { r.push(o.last()) } else { r }
    }
}

/// The options that share the largest vote count.
pub open spec fn leaders(o: Seq<OptionView>, v: Seq<Ballot>) -> Seq<OptionView> {
    with_count(o, v, max_votes(o, v))
}

pub ghost enum OutcomeView {
    NoWinner,
    Winner { winner: OptionView, votes: nat },
    Tie { leaders: Seq<OptionView> },
}

/// How a vote ends. With no option there is no winner. With one option, or
/// with no ballot at all, the first option wins by default. Otherwise the
/// option with the most votes wins, and when several share the most votes
/// they go to a further round.
pub open spec fn outcome(o: Seq<OptionView>, v: Seq<Ballot>) -> OutcomeView {
    if o.len() == 0 {
        OutcomeView::NoWinner
    } else if v.len() == 0 || o.len() == 1 {
        OutcomeView::Winner { winner: o[0], votes: count_votes(v, o[0].id) }
    } else {
        let l = leaders(o, v);
        if l.len() == 1 {
            OutcomeView::Winner { winner: l[0], votes: max_votes(o, v) }
        } else {
            OutcomeView::Tie { leaders: l }
        }
    }
}

/// What a finished vote produced.
#[derive(Debug)]
pub enum Outcome {
    NoWinner,
    Winner { winner: VoteOption, votes: usize },
    Tie { leaders: Vec<VoteOption> },
}

impl View for Outcome {
    type V = OutcomeView;

    open spec fn view(&self) -> OutcomeView {
        match self {
            Outcome::NoWinner => OutcomeView::NoWinner,
            Outcome::Winner { winner, votes } => OutcomeView::Winner {
                winner: winner@,
                votes: *votes as nat,
            },
            Outcome::Tie { leaders } => OutcomeView::Tie { leaders: options_view(leaders@) },
        }
    }
}

pub proof fn lemma_count_bound(v: Seq<Ballot>, id: usize)
    ensures
        count_votes(v, id) <= v.len(),
    decreases v.len(),
{
    if v.len() > 0 {
        lemma_count_bound(v.drop_last(), id);
    }
}

pub proof fn lemma_max_bound(o: Seq<OptionView>, v: Seq<Ballot>)
    ensures
        max_votes(o, v) <= v.len(),
    decreases o.len(),
{
    if o.len() > 0 {
        lemma_max_bound(o.drop_last(), v);
        lemma_count_bound(v, o.last().id);
    }
}

/// Counts the ballots for the option `id`.
pub fn count_for(votes: &Vec<Ballot>, id: usize) -> (r: usize)
    ensures
        r == count_votes(votes@, id),
{
    let mut n: usize = 0;
    let mut i: usize = 0;
    while i < votes.len()
        invariant
            i <= votes@.len(),
            n == count_votes(votes@.take(i as int), id),
        decreases votes@.len() - i,
    {
        assert(votes@.take(i as int + 1).drop_last() =~= votes@.take(i as int));
        proof { lemma_count_bound(votes@.take(i as int), id); }
        if votes[i].option == id {
            n += 1;
        }
        i += 1;
    }
    assert(votes@.take(i as int) =~= votes@);
    n
}

/// The vote count of each option, in the options' order.
pub fn tally(options: &Vec<VoteOption>, votes: &Vec<Ballot>) -> (r: Vec<usize>)
    ensures
        r@.len() == options@.len(),
        forall|i: int| 0 <= i < r@.len() ==> r@[i] == count_votes(votes@, #[trigger] options@[i].id),
{
    let mut r: Vec<usize> = Vec::new();
    let mut i: usize = 0;
    while i < options.len()
        invariant
            i <= options@.len(),
            r@.len() == i,
            forall|k: int| 0 <= k < i ==> r@[k] == count_votes(votes@, #[trigger] options@[k].id),
        decreases options@.len() - i,
    {
        let c = count_for(votes, options[i].id);
        r.push(c);
        i += 1;
    }
    r
}

/// The largest vote count among the options.
pub fn most_votes(options: &Vec<VoteOption>, votes: &Vec<Ballot>) -> (r: usize)
    ensures
        r == max_votes(options_view(options@), votes@),
{
    let ghost ov = options_view(options@);
    let mut m: usize = 0;
    let mut i: usize = 0;
    while i < options.len()
        invariant
            ov == options_view(options@),
            i <= options@.len(),
            m == max_votes(ov.take(i as int), votes@),
        decreases options@.len() - i,
    {
        assert(ov.take(i as int + 1).drop_last() =~= ov.take(i as int));
        let c = count_for(votes, options[i].id);
        if c > m {
            m = c;
        }
        i += 1;
    }
    assert(ov.take(i as int) =~= ov);
    m
}

/// The options that received exactly `m` votes, in order.
pub fn options_with_count(options: &Vec<VoteOption>, votes: &Vec<Ballot>, m: usize) -> (r: Vec<
    VoteOption,
>)
    ensures
        options_view(r@) == with_count(options_view(options@), votes@, m as nat),
{
    let ghost ov = options_view(options@);
    let mut r: Vec<VoteOption> = Vec::new();
    let mut i: usize = 0;
    while i < options.len()
        invariant
            ov == options_view(options@),
            i <= options@.len(),
            options_view(r@) == with_count(ov.take(i as int), votes@, m as nat),
        decreases options@.len() - i,
    {
        assert(ov.take(i as int + 1).drop_last() =~= ov.take(i as int));
        let c = count_for(votes, options[i].id);
        if c == m {
            let o = options[i].duplicate();
            let ghost before = r@;
            r.push(o);
            assert(options_view(r@) =~= options_view(before).push(o@));
        }
        i += 1;
    }
    assert(ov.take(i as int) =~= ov);
    r
}

/// Decides a finished vote: no winner, a single winner, or a tie among the
/// leaders (see `outcome`).
pub fn resolve(options: &Vec<VoteOption>, votes: &Vec<Ballot>) -> (r: Outcome)
    ensures
        r@ == outcome(options_view(options@), votes@),
{
    if options.len() == 0 {
        return Outcome::NoWinner;
    }
    if votes.len() == 0 || options.len() == 1 {
        let w = options[0].duplicate();
        let c = count_for(votes, options[0].id);
        return Outcome::Winner { winner: w, votes: c };
    }
    let m = most_votes(options, votes);
    let mut l = options_with_count(options, votes, m);
    if l.len() == 1 {
        let w = l.remove(0);
        Outcome::Winner { winner: w, votes: m }
    } else {
        Outcome::Tie { leaders: l }
    }
}

} // verus!
