use vstd::prelude::*;
use crate::sums::{lemma_sum_push, lemma_sum_update, lemma_sum_zero};
use crate::types::{
    bet_amount_in, bet_amount_of, stake_of, staked, Address, Bet, CircuitBreakerState, ErrorCode,
    Event, Market, MarketStatus, PredictIq,
};

verus! {

pub open spec fn is_bet_of(b: Bet, market_id: u64, bettor: Address) -> bool {
    b.market_id == market_id && b.bettor == bettor
}

/// The bettor already holds a stake on another outcome of the market.
pub open spec fn outcome_locked(
    bets: Seq<Bet>,
    market_id: u64,
    bettor: Address,
    outcome: u32,
) -> bool {
    exists|j: int|
        0 <= j < bets.len() && is_bet_of(#[trigger] bets[j], market_id, bettor) && bets[j].amount
            > 0 && bets[j].outcome != outcome
}

/// Whether a bet is accepted, and if not, the first guard that refuses it.
pub open spec fn bet_check(
    c: PredictIq,
    bettor: Address,
    market_id: u64,
    outcome: u32,
    amount: i128,
    now: u64,
) -> Result<(), ErrorCode> {
    if c.breaker == CircuitBreakerState::Open {
        Err(ErrorCode::CircuitBreakerOpen)
    } else if !c.has_market(market_id) {
        Err(ErrorCode::MarketNotFound)
    } else if c.market(market_id).status != MarketStatus::Active {
        Err(ErrorCode::MarketNotActive)
    } else if now >= c.market(market_id).deadline {
        Err(ErrorCode::DeadlinePassed)
    } else if outcome >= c.market(market_id).options@.len() {
        Err(ErrorCode::InvalidOutcome)
    } else if amount <= 0 {
        Err(ErrorCode::InvalidAmount)
    } else if outcome_locked(c.bets@, market_id, bettor, outcome) {
        Err(ErrorCode::CannotChangeOutcome)
    } else if c.market(market_id).total_staked + amount > i128::MAX || stake_of(
        c.bets@,
        market_id,
        bettor,
    ) + amount > i128::MAX {
        Err(ErrorCode::Overflow)
    } else {
        Ok(())
    }
}

/// `b` is `a` after an accepted bet of `amount` by `bettor` on `outcome`.
pub open spec fn bet_recorded(
    a: PredictIq,
    b: PredictIq,
    bettor: Address,
    market_id: u64,
    outcome: u32,
    amount: i128,
) -> bool {
    &&& b.markets@.len() == a.markets@.len()
    &&& forall|k: u64|
        #![trigger b.market(k)]
        k != market_id && b.has_market(k) ==> b.market(k) == a.market(k)
    &&& b.market(market_id) == (Market {
        total_staked: (a.market(market_id).total_staked + amount) as i128,
        ..a.market(market_id)
    })
    &&& stake_of(b.bets@, market_id, bettor) == stake_of(a.bets@, market_id, bettor)
        + amount
    &&& forall|m: u64, w: Address|
        !(m == market_id && w == bettor) ==> #[trigger] stake_of(b.bets@, m, w)
            == stake_of(a.bets@, m, w)
    &&& forall|j: int|
        0 <= j < b.bets@.len() && is_bet_of(
            #[trigger] b.bets@[j],
            market_id,
            bettor,
        ) ==> b.bets@[j].outcome == outcome
    &&& b.events@ == a.events@.push(
        Event::BetPlaced { market_id, bettor, amount },
    )
    &&& b.votes == a.votes
    &&& b.tallies == a.tallies
    &&& b.breaker == a.breaker
    &&& b.error_count == a.error_count
    &&& b.market_count == a.market_count
    &&& b.admin == a.admin
    &&& b.market_admin == a.market_admin
    &&& b.fee_admin == a.fee_admin
}

fn find_bet(bets: &Vec<Bet>, market_id: u64, bettor: Address) -> (r: Option<usize>)
    ensures
        r matches Some(j) ==> j < bets@.len() && is_bet_of(bets@[j as int], market_id, bettor),
        r is None ==> forall|j: int|
            0 <= j < bets@.len() ==> !is_bet_of(#[trigger] bets@[j], market_id, bettor),
{
    let mut i: usize = 0;
    while i < bets.len()
        invariant
            i <= bets@.len(),
            forall|j: int| 0 <= j < i ==> !is_bet_of(#[trigger] bets@[j], market_id, bettor),
        decreases bets@.len() - i,
    {
        if bets[i].market_id == market_id && bets[i].bettor == bettor {
            return Some(i);
        }
        i = i + 1;
    }
    None
}

/// With bettor keys unique, a bettor's stake is the amount of their one bet.
proof fn lemma_stake_at(bets: Seq<Bet>, j: int, market_id: u64, bettor: Address)
    requires
        0 <= j < bets.len(),
        is_bet_of(bets[j], market_id, bettor),
        forall|i: int| 0 <= i < bets.len() && i != j ==> !is_bet_of(#[trigger] bets[i], market_id, bettor),
    ensures
        stake_of(bets, market_id, bettor) == bets[j].amount,
{
    let f = bet_amount_of(market_id, bettor);
    let z = Bet { amount: 0, ..bets[j] };
    lemma_sum_update(bets, j, z, f);
    let u = bets.update(j, z);
    assert forall|i: int| 0 <= i < u.len() implies f(#[trigger] u[i]) == 0 by {
        if i != j {
            assert(!is_bet_of(bets[i], market_id, bettor));
        }
    }
    lemma_sum_zero(u, f);
}

proof fn lemma_no_stake(bets: Seq<Bet>, market_id: u64, bettor: Address)
    requires
        forall|i: int| 0 <= i < bets.len() ==> !is_bet_of(#[trigger] bets[i], market_id, bettor),
    ensures
        stake_of(bets, market_id, bettor) == 0,
{
    let f = bet_amount_of(market_id, bettor);
    assert forall|i: int| 0 <= i < bets.len() implies f(#[trigger] bets[i]) == 0 by {}
    lemma_sum_zero(bets, f);
}

/// Records a stake of `amount` by `bettor` on `outcome` of a market, at time `now`.
///
/// The host moves `amount` into custody and commits the new state only if
/// that transfer succeeds. A refused bet changes nothing.
pub fn place_bet(
    c: &mut PredictIq,
    bettor: Address,
    market_id: u64,
    outcome: u32,
    amount: i128,
    now: u64,
) -> (r: Result<(), ErrorCode>)
    requires
        old(c).wf(),
    ensures
        final(c).wf(),
        r == bet_check(*old(c), bettor, market_id, outcome, amount, now),
        r is Err ==> *final(c) == *old(c),
        r is Ok ==> bet_recorded(*old(c), *final(c), bettor, market_id, outcome, amount),
{
    if c.breaker == CircuitBreakerState::Open {
        return Err(ErrorCode::CircuitBreakerOpen);
    }
    if market_id == 0 || market_id > c.market_count {
        return Err(ErrorCode::MarketNotFound);
    }
    let n: usize = c.markets.len();
    assert(market_id - 1 < n);
    let i: usize = (market_id - 1) as usize;
    if c.markets[i].status != MarketStatus::Active {
        return Err(ErrorCode::MarketNotActive);
    }
    if now >= c.markets[i].deadline {
        return Err(ErrorCode::DeadlinePassed);
    }
    if outcome as usize >= c.markets[i].options.len() {
        return Err(ErrorCode::InvalidOutcome);
    }
    if amount <= 0 {
        return Err(ErrorCode::InvalidAmount);
    }
    let found = find_bet(&c.bets, market_id, bettor);
    let existing: i128 = match found {
        Some(j) => {
            proof {
                lemma_stake_at(c.bets@, j as int, market_id, bettor);
            }
            if c.bets[j].outcome != outcome {
                return Err(ErrorCode::CannotChangeOutcome);
            }
            c.bets[j].amount
        },
        None => {
            proof {
                lemma_no_stake(c.bets@, market_id, bettor);
            }
            0
        },
    };
    let new_total = match c.markets[i].total_staked.checked_add(amount) {
        Some(t) => t,
        None => {
            return Err(ErrorCode::Overflow);
        },
    };
    let new_amount = match existing.checked_add(amount) {
        Some(a) => a,
        None => {
            return Err(ErrorCode::Overflow);
        },
    };
    let ghost old_c = *c;
    let nb = Bet { market_id, bettor, outcome, amount: new_amount };
    match found {
        Some(j) => {
            c.bets.set(j, nb);
            proof {
                assert forall|k: u64| #[trigger] staked(c.bets@, k) == staked(old_c.bets@, k)
                    + bet_amount_in(k)(nb) - bet_amount_in(k)(old_c.bets@[j as int]) by {
                    lemma_sum_update(old_c.bets@, j as int, nb, bet_amount_in(k));
                }
                assert forall|m: u64, w: Address| #[trigger] stake_of(c.bets@, m, w)
                    == stake_of(old_c.bets@, m, w) + bet_amount_of(m, w)(nb) - bet_amount_of(m, w)(
                    old_c.bets@[j as int],
                ) by {
                    lemma_sum_update(old_c.bets@, j as int, nb, bet_amount_of(m, w));
                }
            }
        },
        None => {
            c.bets.push(nb);
            proof {
                assert forall|k: u64| #[trigger] staked(c.bets@, k) == staked(old_c.bets@, k)
                    + bet_amount_in(k)(nb) by {
                    lemma_sum_push(old_c.bets@, nb, bet_amount_in(k));
                }
                assert forall|m: u64, w: Address| #[trigger] stake_of(c.bets@, m, w)
                    == stake_of(old_c.bets@, m, w) + bet_amount_of(m, w)(nb) by {
                    lemma_sum_push(old_c.bets@, nb, bet_amount_of(m, w));
                }
            }
        },
    }
    c.markets[i].total_staked = new_total;
    c.events.push(Event::BetPlaced { market_id, bettor, amount });
    proof {
        assert(c.markets@ == old_c.markets@.update(
            i as int,
            Market { total_staked: new_total, ..old_c.markets@[i as int] },
        ));
        assert forall|k: int| 0 <= k < c.markets@.len() implies #[trigger] c.markets@[k].total_staked
            == staked(c.bets@, (k + 1) as u64) by {
            assert(staked(c.bets@, (k + 1) as u64) == staked(old_c.bets@, (k + 1) as u64)
                + bet_amount_in((k + 1) as u64)(nb) - (match found {
                Some(j) => bet_amount_in((k + 1) as u64)(old_c.bets@[j as int]),
                None => 0,
            }));
        }
    }
    Ok(())
}

/// The bettor's record on a market, if they have staked on it.
pub fn get_bet(c: &PredictIq, market_id: u64, bettor: Address) -> (r: Option<Bet>)
    requires
        c.wf(),
    ensures
        r matches Some(b) ==> is_bet_of(b, market_id, bettor) && c.bets@.contains(b) && b.amount
            == stake_of(c.bets@, market_id, bettor),
        r is None ==> forall|j: int|
            0 <= j < c.bets@.len() ==> !is_bet_of(#[trigger] c.bets@[j], market_id, bettor),
        r is None ==> stake_of(c.bets@, market_id, bettor) == 0,
{
    match find_bet(&c.bets, market_id, bettor) {
        Some(j) => {
            proof {
                lemma_stake_at(c.bets@, j as int, market_id, bettor);
            }
            Some(c.bets[j])
        },
        None => {
            proof {
                lemma_no_stake(c.bets@, market_id, bettor);
            }
            None
        },
    }
}

/// On every market the total stake is the sum of the amounts of its bets.
pub proof fn lemma_total_staked(c: PredictIq, market_id: u64)
    requires
        c.wf(),
        c.has_market(market_id),
    ensures
        c.market(market_id).total_staked == staked(c.bets@, market_id),
{
    let _ = c.markets@[market_id - 1];
}

/// A bettor who holds a stake on one outcome cannot bet on another: the
/// bet is refused, and a refused bet leaves the state as it was.
pub proof fn lemma_outcome_locked(
    c: PredictIq,
    bettor: Address,
    market_id: u64,
    outcome: u32,
    amount: i128,
    now: u64,
    j: int,
)
    requires
        c.wf(),
        0 <= j < c.bets@.len(),
        is_bet_of(c.bets@[j], market_id, bettor),
        c.bets@[j].outcome != outcome,
    ensures
        bet_check(c, bettor, market_id, outcome, amount, now) is Err,
{
    assert(c.bet_wf(c.bets@[j]));
    assert(outcome_locked(c.bets@, market_id, bettor, outcome));
}

/// Sum of the amounts in `s`.
pub open spec fn amount_sum(s: Seq<i128>) -> int
    decreases s.len(),
{
    if s.len() == 0 {
        0
    } else {
        amount_sum(s.drop_last()) + s.last()
    }
}

/// Over a run of accepted bets by one bettor on one outcome of a market, the
/// bettor's stake grows by exactly the sum of the amounts.
pub proof fn lemma_stakes_accumulate(
    s: Seq<PredictIq>,
    amounts: Seq<i128>,
    bettor: Address,
    market_id: u64,
    outcome: u32,
)
    requires
        s.len() == amounts.len() + 1,
        forall|k: int|
            0 <= k < amounts.len() ==> #[trigger] bet_recorded(
                s[k],
                s[k + 1],
                bettor,
                market_id,
                outcome,
                amounts[k],
            ),
    ensures
        stake_of(s.last().bets@, market_id, bettor) == stake_of(s[0].bets@, market_id, bettor)
            + amount_sum(amounts),
    decreases amounts.len(),
{
    if amounts.len() > 0 {
        let n = amounts.len() - 1;
        lemma_stakes_accumulate(s.drop_last(), amounts.drop_last(), bettor, market_id, outcome);
        assert(bet_recorded(s[n], s[n + 1], bettor, market_id, outcome, amounts[n]));
    }
}

} // verus!
