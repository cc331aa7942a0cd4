use vstd::prelude::*;
use crate::sums::lemma_sum_zero;
use crate::types::{
    bet_amount_in, market_wf, staked, tally_total, tally_weight, vote_total, vote_weight_in,
    Address, ErrorCode, Event, Market, MarketStatus, OracleConfig, PredictIq,
};

verus! {

/// Whether a market is accepted, and if not, why.
pub open spec fn create_check(
    c: PredictIq,
    options_len: int,
    deadline: u64,
    resolution_deadline: u64,
) -> Result<u64, ErrorCode> {
    if options_len < 2 || options_len > u32::MAX {
        Err(ErrorCode::InvalidOptions)
    } else if deadline >= resolution_deadline {
        Err(ErrorCode::InvalidDeadlines)
    } else if c.market_count == u64::MAX {
        Err(ErrorCode::Overflow)
    } else {
        Ok((c.market_count + 1) as u64)
    }
}

fn zero_tallies(n: usize) -> (r: Vec<i128>)
    ensures
        r@.len() == n,
        forall|k: int| 0 <= k < n ==> r@[k] == 0,
{
    let mut r: Vec<i128> = Vec::new();
    let mut i: usize = 0;
    while i < n
        invariant
            i <= n,
            r@.len() == i,
            forall|k: int| 0 <= k < i ==> r@[k] == 0,
        decreases n - i,
    {
        r.push(0);
        i = i + 1;
    }
    r
}

/// Opens a new market on behalf of `creator` and returns its id.
///
/// Ids run 1, 2, 3, ... in order of creation. The market starts Active with
/// nothing staked and no winning outcome.
pub fn create_market(
    c: &mut PredictIq,
    creator: Address,
    description: String,
    options: Vec<String>,
    deadline: u64,
    resolution_deadline: u64,
    oracle_config: OracleConfig,
) -> (r: Result<u64, ErrorCode>)
    requires
        old(c).wf(),
    ensures
        final(c).wf(),
        r == create_check(*old(c), options@.len() as int, deadline, resolution_deadline),
        r is Err ==> *final(c) == *old(c),
        r matches Ok(id) ==> {
            &&& final(c).market_count == id
            &&& final(c).markets@ == old(c).markets@.push(
                Market {
                    id,
                    creator,
                    description,
                    options,
                    status: MarketStatus::Active,
                    deadline,
                    resolution_deadline,
                    winning_outcome: None,
                    oracle_config,
                    total_staked: 0,
                },
            )
            &&& forall|o: int| 0 <= o < options@.len() ==> #[trigger] final(c).tally_seq(id)[o] == 0
            &&& final(c).events@ == old(c).events@.push(Event::MarketCreated { market_id: id })
            &&& final(c).bets == old(c).bets
            &&& final(c).votes == old(c).votes
            &&& final(c).breaker == old(c).breaker
            &&& final(c).error_count == old(c).error_count
            &&& final(c).admin == old(c).admin
            &&& final(c).market_admin == old(c).market_admin
            &&& final(c).fee_admin == old(c).fee_admin
        },
{
    if options.len() < 2 || options.len() > u32::MAX as usize {
        return Err(ErrorCode::InvalidOptions);
    }
    if deadline >= resolution_deadline {
        return Err(ErrorCode::InvalidDeadlines);
    }
    if c.market_count == u64::MAX {
        return Err(ErrorCode::Overflow);
    }
    let id: u64 = c.market_count + 1;
    let zeros = zero_tallies(options.len());
    let ghost old_c = *c;
    let market = Market {
        id,
        creator,
        description,
        options,
        status: MarketStatus::Active,
        deadline,
        resolution_deadline,
        winning_outcome: None,
        oracle_config,
        total_staked: 0,
    };
    c.markets.push(market);
    c.tallies.push(zeros);
    c.market_count = id;
    c.events.push(Event::MarketCreated { market_id: id });
    proof {
        let f = bet_amount_in(id);
        assert forall|j: int| 0 <= j < c.bets@.len() implies f(#[trigger] c.bets@[j]) == 0 by {
            assert(c.bet_wf(c.bets@[j]));
        }
        lemma_sum_zero(c.bets@, f);
        let g = vote_weight_in(id);
        assert forall|j: int| 0 <= j < c.votes@.len() implies g(#[trigger] c.votes@[j]) == 0 by {
            assert(old_c.vote_wf(c.votes@[j]));
        }
        lemma_sum_zero(c.votes@, g);
        assert forall|j: int| 0 <= j < zeros@.len() implies tally_weight()(#[trigger] zeros@[j])
            == 0 by {}
        lemma_sum_zero(zeros@, tally_weight());
        assert(staked(c.bets@, id) == 0);
        assert(tally_total(zeros@) == vote_total(c.votes@, id));
        assert forall|j: int| 0 <= j < c.bets@.len() implies c.bet_wf(#[trigger] c.bets@[j]) by {
            assert(old_c.bet_wf(c.bets@[j]));
            assert(c.markets@[c.bets@[j].market_id - 1] == old_c.markets@[c.bets@[j].market_id
                - 1]);
        }
        assert forall|j: int| 0 <= j < c.votes@.len() implies c.vote_wf(#[trigger] c.votes@[j]) by {
            assert(old_c.vote_wf(c.votes@[j]));
            assert(c.markets@[c.votes@[j].market_id - 1] == old_c.markets@[c.votes@[j].market_id
                - 1]);
        }
        assert forall|k: int| 0 <= k < c.markets@.len() implies #[trigger] market_wf(
            c.markets@[k],
            k + 1,
        ) by {
            if k < old_c.markets@.len() {
                assert(c.markets@[k] == old_c.markets@[k]);
            }
        }
    }
    Ok(id)
}

/// A copy of the market with this id, if there is one.
pub fn get_market(c: &PredictIq, id: u64) -> (r: Option<Market>)
    requires
        c.wf(),
    ensures
        r is Some <==> c.has_market(id),
        r matches Some(m) ==> m.same_as(c.market(id)),
{
    if id == 0 || id > c.market_count {
        return None;
    }
    let n: usize = c.markets.len();
    assert(id - 1 < n);
    Some(c.markets[(id - 1) as usize].duplicate())
}

/// Replaces a stored market by a new record of it.
///
/// The record keeps the market's options and total stake and is itself
/// well formed, so the state's invariant holds afterwards.
pub fn update_market(c: &mut PredictIq, market: Market)
    requires
        old(c).wf(),
        old(c).has_market(market.id),
        market_wf(market, market.id as int),
        market.options@.len() == old(c).market(market.id).options@.len(),
        market.total_staked == old(c).market(market.id).total_staked,
    ensures
        final(c).wf(),
        final(c).markets@ == old(c).markets@.update(market.id - 1, market),
        final(c).tallies == old(c).tallies,
        final(c).bets == old(c).bets,
        final(c).votes == old(c).votes,
        final(c).events == old(c).events,
        final(c).breaker == old(c).breaker,
        final(c).error_count == old(c).error_count,
        final(c).market_count == old(c).market_count,
        final(c).admin == old(c).admin,
        final(c).market_admin == old(c).market_admin,
        final(c).fee_admin == old(c).fee_admin,
{
    let n: usize = c.markets.len();
    assert(market.id - 1 < n);
    let i: usize = (market.id - 1) as usize;
    let ghost old_c = *c;
    let ghost new_m = market;
    c.markets.set(i, market);
    proof {
        assert forall|j: int| 0 <= j < c.bets@.len() implies c.bet_wf(#[trigger] c.bets@[j]) by {
            assert(old_c.bet_wf(c.bets@[j]));
        }
        assert forall|j: int| 0 <= j < c.votes@.len() implies c.vote_wf(#[trigger] c.votes@[j]) by {
            assert(old_c.vote_wf(c.votes@[j]));
        }
        assert forall|k: int| 0 <= k < c.markets@.len() implies #[trigger] market_wf(
            c.markets@[k],
            k + 1,
        ) by {
            let _ = old_c.markets@[k];
        }
        assert(c.markets@[i as int] == new_m);
    }
}

} // verus!
