use vstd::prelude::*;
use crate::sums::{lemma_sum_push, lemma_sum_take, lemma_sum_update, sum_of};
use crate::types::{
    tally_total, vote_total, vote_weight_in, tally_weight, Address, ErrorCode, Event, MarketStatus,
    PredictIq, Vote,
};

verus! {

pub open spec fn is_vote_of(v: Vote, market_id: u64, voter: Address) -> bool {
    v.market_id == market_id && v.voter == voter
}

pub open spec fn has_voted(votes: Seq<Vote>, market_id: u64, voter: Address) -> bool {
    exists|j: int| 0 <= j < votes.len() && is_vote_of(#[trigger] votes[j], market_id, voter)
}

/// The accumulated weight for one outcome of a market; zero where there is none.
pub open spec fn tally_of(c: PredictIq, market_id: u64, outcome: u32) -> int {
    if c.has_market(market_id) && outcome < c.tally_seq(market_id).len() {
        c.tally_seq(market_id)[outcome as int] as int
    } else {
        0
    }
}

/// Whether a vote is accepted, and if not, the first guard that refuses it.
pub open spec fn vote_check(
    c: PredictIq,
    voter: Address,
    market_id: u64,
    outcome: u32,
    weight: i128,
) -> Result<(), ErrorCode> {
    if !c.has_market(market_id) {
        Err(ErrorCode::MarketNotFound)
    } else if c.market(market_id).status != MarketStatus::Disputed {
        Err(ErrorCode::MarketNotDisputed)
    } else if outcome >= c.market(market_id).options@.len() {
        Err(ErrorCode::InvalidOutcome)
    } else if has_voted(c.votes@, market_id, voter) {
        Err(ErrorCode::AlreadyVoted)
    } else if !(i128::MIN <= tally_of(c, market_id, outcome) + weight <= i128::MAX) {
        Err(ErrorCode::Overflow)
    } else {
        Ok(())
    }
}

fn find_vote(votes: &Vec<Vote>, market_id: u64, voter: Address) -> (r: bool)
    ensures
        r == has_voted(votes@, market_id, voter),
{
    let mut i: usize = 0;
    while i < votes.len()
        invariant
            i <= votes@.len(),
            forall|j: int| 0 <= j < i ==> !is_vote_of(#[trigger] votes@[j], market_id, voter),
        decreases votes@.len() - i,
    {
        if votes[i].market_id == market_id && votes[i].voter == voter {
            assert(is_vote_of(votes@[i as int], market_id, voter));
            return true;
        }
        i = i + 1;
    }
    false
}

/// Records `voter`'s weighted vote for `outcome` of a disputed market.
///
/// Each voter votes at most once per market; a refused vote changes nothing.
pub fn cast_vote(c: &mut PredictIq, voter: Address, market_id: u64, outcome: u32, weight: i128) -> (r:
    Result<(), ErrorCode>)
    requires
        old(c).wf(),
    ensures
        final(c).wf(),
        r == vote_check(*old(c), voter, market_id, outcome, weight),
        r is Err ==> *final(c) == *old(c),
        r is Ok ==> {
            &&& final(c).votes@ == old(c).votes@.push(Vote { market_id, voter, outcome, weight })
            &&& final(c).tallies@.len() == old(c).tallies@.len()
            &&& forall|k: u64|
                #![trigger final(c).tally_seq(k)]
                k != market_id && final(c).has_market(k) ==> final(c).tally_seq(k) == old(c).tally_seq(k)
            &&& final(c).tally_seq(market_id) == old(c).tally_seq(market_id).update(
                outcome as int,
                (tally_of(*old(c), market_id, outcome) + weight) as i128,
            )
            &&& final(c).events@ == old(c).events@.push(Event::VoteCast { market_id, voter, outcome })
            &&& final(c).markets == old(c).markets
            &&& final(c).bets == old(c).bets
            &&& final(c).breaker == old(c).breaker
            &&& final(c).error_count == old(c).error_count
            &&& final(c).market_count == old(c).market_count
            &&& final(c).admin == old(c).admin
            &&& final(c).market_admin == old(c).market_admin
            &&& final(c).fee_admin == old(c).fee_admin
        },
{
    if market_id == 0 || market_id > c.market_count {
        return Err(ErrorCode::MarketNotFound);
    }
    let n: usize = c.markets.len();
    assert(market_id - 1 < n);
    let i: usize = (market_id - 1) as usize;
    if c.markets[i].status != MarketStatus::Disputed {
        return Err(ErrorCode::MarketNotDisputed);
    }
    if outcome as usize >= c.markets[i].options.len() {
        return Err(ErrorCode::InvalidOutcome);
    }
    if find_vote(&c.votes, market_id, voter) {
        return Err(ErrorCode::AlreadyVoted);
    }
    let o: usize = outcome as usize;
    let current: i128 = c.tallies[i][o];
    let updated = match current.checked_add(weight) {
        Some(t) => t,
        None => {
            return Err(ErrorCode::Overflow);
        },
    };
    let ghost old_c = *c;
    let v = Vote { market_id, voter, outcome, weight };
    c.votes.push(v);
    c.tallies[i].set(o, updated);
    c.events.push(Event::VoteCast { market_id, voter, outcome });
    proof {
        assert(c.tallies@ == old_c.tallies@.update(i as int, c.tallies@[i as int]));
        assert forall|k: u64| #[trigger] vote_total(c.votes@, k) == vote_total(old_c.votes@, k)
            + vote_weight_in(k)(v) by {
            lemma_sum_push(old_c.votes@, v, vote_weight_in(k));
        }
        lemma_sum_update(old_c.tallies@[i as int]@, o as int, updated, tally_weight());
        assert forall|k: int| 0 <= k < c.markets@.len() implies #[trigger] tally_total(
            c.tallies@[k]@,
        ) == vote_total(c.votes@, (k + 1) as u64) by {
            assert(vote_total(c.votes@, (k + 1) as u64) == vote_total(old_c.votes@, (k + 1) as u64)
                + vote_weight_in((k + 1) as u64)(v));
            let _ = old_c.markets@[k];
            if k == i as int {
                assert(c.tallies@[k]@ == old_c.tallies@[k]@.update(o as int, updated));
                assert(old_c.tallies@[k]@[o as int] == current);
                assert(tally_total(c.tallies@[k]@) == tally_total(old_c.tallies@[k]@) + weight);
            } else {
                assert(c.tallies@[k] == old_c.tallies@[k]);
            }
        }
        assert forall|a: int, b: int|
            0 <= a < b < c.votes@.len() implies !(#[trigger] c.votes@[a].market_id
            == #[trigger] c.votes@[b].market_id && c.votes@[a].voter == c.votes@[b].voter) by {
            if b == c.votes@.len() - 1 && c.votes@[a].market_id == market_id {
                assert(!is_vote_of(old_c.votes@[a], market_id, voter));
            }
        }
    }
    Ok(())
}

/// The accumulated weight for `outcome` of a market; zero where no vote counts.
pub fn get_tally(c: &PredictIq, market_id: u64, outcome: u32) -> (r: i128)
    requires
        c.wf(),
    ensures
        r == tally_of(*c, market_id, outcome),
{
    if market_id == 0 || market_id > c.market_count {
        return 0;
    }
    let n: usize = c.markets.len();
    assert(market_id - 1 < n);
    let i: usize = (market_id - 1) as usize;
    if outcome as usize >= c.tallies[i].len() {
        return 0;
    }
    c.tallies[i][outcome as usize]
}

/// Sum of `get_tally` over the outcomes `0 .. n` of a market.
pub open spec fn tallies_upto(c: PredictIq, market_id: u64, n: nat) -> int
    decreases n,
{
    if n == 0 {
        0
    } else {
        tallies_upto(c, market_id, (n - 1) as nat) + tally_of(c, market_id, (n - 1) as u32)
    }
}

/// A voter who has voted on a market cannot vote on it again: the vote is
/// refused, and a refused vote leaves votes and tallies as they were.
pub proof fn lemma_second_vote_refused(
    c: PredictIq,
    voter: Address,
    market_id: u64,
    outcome: u32,
    weight: i128,
)
    requires
        c.wf(),
        has_voted(c.votes@, market_id, voter),
    ensures
        vote_check(c, voter, market_id, outcome, weight) is Err,
{
}

proof fn lemma_tallies_upto(c: PredictIq, market_id: u64, n: nat)
    requires
        c.wf(),
        c.has_market(market_id),
        n <= c.tally_seq(market_id).len(),
    ensures
        tallies_upto(c, market_id, n) == sum_of(c.tally_seq(market_id).take(n as int), tally_weight()),
    decreases n,
{
    let t = c.tally_seq(market_id);
    let _ = c.markets@[market_id - 1];
    if n == 0 {
        assert(t.take(0) =~= Seq::<i128>::empty());
    } else {
        lemma_tallies_upto(c, market_id, (n - 1) as nat);
        lemma_sum_take(t, n as int, tally_weight());
    }
}

/// Over all outcomes of a market, the tallies add up to the total weight of
/// the votes accepted on it.
pub proof fn lemma_tally_sum(c: PredictIq, market_id: u64)
    requires
        c.wf(),
        c.has_market(market_id),
    ensures
        tallies_upto(c, market_id, c.market(market_id).options@.len()) == vote_total(c.votes@, market_id),
{
    let t = c.tally_seq(market_id);
    let _ = c.markets@[market_id - 1];
    lemma_tallies_upto(c, market_id, t.len());
    assert(t.take(t.len() as int) =~= t);
}

} // verus!
