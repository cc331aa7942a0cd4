use vstd::prelude::*;
use crate::admin::{admin_check, require_admin};
use crate::types::{
    market_wf, Address, ErrorCode, Event, Market, MarketStatus, PredictIq, DISPUTE_WINDOW,
};
use crate::bets::bet_check;
use crate::voting::{tally_of, vote_check};

verus! {

/// A market's status at time `now`: an Active market whose betting deadline
/// has passed is pending resolution.
pub open spec fn status_at(m: Market, now: u64) -> MarketStatus {
    if m.status == MarketStatus::Active && now >= m.deadline {
        MarketStatus::PendingResolution
    } else {
        m.status
    }
}

/// Some outcome of the market carries more vote weight than `outcome`.
pub open spec fn outweighed(c: PredictIq, market_id: u64, outcome: u32) -> bool {
    exists|k: u32|
        k < c.market(market_id).options@.len() && #[trigger] tally_of(c, market_id, k) > tally_of(
            c,
            market_id,
            outcome,
        )
}

/// Whether a dispute is accepted, and if not, why.
pub open spec fn dispute_check(c: PredictIq, market_id: u64, now: u64) -> Result<(), ErrorCode> {
    if !c.has_market(market_id) {
        Err(ErrorCode::MarketNotFound)
    } else if status_at(c.market(market_id), now) != MarketStatus::PendingResolution {
        Err(ErrorCode::MarketNotPendingResolution)
    } else if c.market(market_id).resolution_deadline + DISPUTE_WINDOW > u64::MAX {
        Err(ErrorCode::Overflow)
    } else {
        Ok(())
    }
}

/// Whether a resolution is accepted, and if not, the first guard that refuses it.
pub open spec fn resolve_check(
    c: PredictIq,
    caller: Address,
    market_id: u64,
    winning_outcome: u32,
    now: u64,
) -> Result<(), ErrorCode> {
    if admin_check(c, caller) is Err {
        admin_check(c, caller)
    } else if !c.has_market(market_id) {
        Err(ErrorCode::MarketNotFound)
    } else if c.market(market_id).status == MarketStatus::Resolved {
        Err(ErrorCode::MarketAlreadyResolved)
    } else if status_at(c.market(market_id), now) != MarketStatus::PendingResolution && status_at(
        c.market(market_id),
        now,
    ) != MarketStatus::Disputed {
        Err(ErrorCode::MarketNotPendingResolution)
    } else if winning_outcome >= c.market(market_id).options@.len() {
        Err(ErrorCode::InvalidOutcome)
    } else if c.market(market_id).status == MarketStatus::Disputed && outweighed(
        c,
        market_id,
        winning_outcome,
    ) {
        Err(ErrorCode::NotMajorityOutcome)
    } else {
        Ok(())
    }
}

/// `b` is `a` with market `market_id` replaced by `m` and `e` announced.
pub open spec fn market_changed(a: PredictIq, b: PredictIq, market_id: u64, m: Market, e: Event) -> bool {
    &&& b.markets@ == a.markets@.update(market_id - 1, m)
    &&& b.events@ == a.events@.push(e)
    &&& b == (PredictIq { markets: b.markets, events: b.events, ..a })
}

/// Challenges the pending outcome of a market, opening it to weighted
/// voting and extending its resolution deadline by the dispute window.
pub fn file_dispute(c: &mut PredictIq, disciplinarian: Address, market_id: u64, now: u64) -> (r:
    Result<(), ErrorCode>)
    requires
        old(c).wf(),
    ensures
        final(c).wf(),
        r == dispute_check(*old(c), market_id, now),
        r is Err ==> *final(c) == *old(c),
        r is Ok ==> market_changed(
            *old(c),
            *final(c),
            market_id,
            Market {
                status: MarketStatus::Disputed,
                resolution_deadline: (old(c).market(market_id).resolution_deadline
                    + DISPUTE_WINDOW) as u64,
                ..old(c).market(market_id)
            },
            Event::MarketDisputed { market_id, disciplinarian },
        ),
{
    if market_id == 0 || market_id > c.market_count {
        return Err(ErrorCode::MarketNotFound);
    }
    let n: usize = c.markets.len();
    assert(market_id - 1 < n);
    let i: usize = (market_id - 1) as usize;
    let pending = c.markets[i].status == MarketStatus::PendingResolution || (c.markets[i].status
        == MarketStatus::Active && now >= c.markets[i].deadline);
    if !pending {
        return Err(ErrorCode::MarketNotPendingResolution);
    }
    let extended = match c.markets[i].resolution_deadline.checked_add(DISPUTE_WINDOW) {
        Some(d) => d,
        None => {
            return Err(ErrorCode::Overflow);
        },
    };
    let ghost old_c = *c;
    c.markets[i].status = MarketStatus::Disputed;
    c.markets[i].resolution_deadline = extended;
    c.events.push(Event::MarketDisputed { market_id, disciplinarian });
    proof {
        assert(c.markets@ == old_c.markets@.update(
            i as int,
            Market {
                status: MarketStatus::Disputed,
                resolution_deadline: extended,
                ..old_c.markets@[i as int]
            },
        ));
        assert forall|k: int| 0 <= k < c.markets@.len() implies #[trigger] market_wf(
            c.markets@[k],
            k + 1,
        ) by {
            let _ = old_c.markets@[k];
        }
    }
    Ok(())
}

/// Settles a market on `winning_outcome`. Only the root administrator
/// resolves; a disputed market resolves only on an outcome that no other
/// outcome outweighs in the vote tallies.
pub fn resolve_market(
    c: &mut PredictIq,
    caller: Address,
    market_id: u64,
    winning_outcome: u32,
    now: u64,
) -> (r: Result<(), ErrorCode>)
    requires
        old(c).wf(),
    ensures
        final(c).wf(),
        r == resolve_check(*old(c), caller, market_id, winning_outcome, now),
        r is Err ==> *final(c) == *old(c),
        r is Ok ==> market_changed(
            *old(c),
            *final(c),
            market_id,
            Market {
                status: MarketStatus::Resolved,
                winning_outcome: Some(winning_outcome),
                ..old(c).market(market_id)
            },
            Event::MarketResolved { market_id, winning_outcome },
        ),
{
    require_admin(c, caller)?;
    if market_id == 0 || market_id > c.market_count {
        return Err(ErrorCode::MarketNotFound);
    }
    let n: usize = c.markets.len();
    assert(market_id - 1 < n);
    let i: usize = (market_id - 1) as usize;
    let status = c.markets[i].status;
    if status == MarketStatus::Resolved {
        return Err(ErrorCode::MarketAlreadyResolved);
    }
    let pending = status == MarketStatus::PendingResolution || (status == MarketStatus::Active
        && now >= c.markets[i].deadline);
    if !pending && status != MarketStatus::Disputed {
        return Err(ErrorCode::MarketNotPendingResolution);
    }
    let len: usize = c.markets[i].options.len();
    if winning_outcome as usize >= len {
        return Err(ErrorCode::InvalidOutcome);
    }
    if status == MarketStatus::Disputed {
        let chosen: i128 = c.tallies[i][winning_outcome as usize];
        let mut k: usize = 0;
        while k < len
            invariant
                c.wf(),
                *c == *old(c),
                admin_check(*c, caller) is Ok,
                c.market(market_id).status == MarketStatus::Disputed,
                winning_outcome < len,
                c.has_market(market_id),
                i == market_id - 1,
                len == c.market(market_id).options@.len(),
                len <= u32::MAX,
                chosen == tally_of(*c, market_id, winning_outcome),
                k <= len,
                forall|j: u32| j < k ==> #[trigger] tally_of(*c, market_id, j) <= chosen,
            decreases len - k,
        {
            assert(c.tallies@[i as int]@.len() == len);
            if c.tallies[i][k] > chosen {
                assert(tally_of(*c, market_id, k as u32) > chosen);
                assert((k as u32) < c.market(market_id).options@.len());
                assert(outweighed(*c, market_id, winning_outcome));
                return Err(ErrorCode::NotMajorityOutcome);
            }
            k = k + 1;
        }
        assert(!outweighed(*c, market_id, winning_outcome));
    }
    let ghost old_c = *c;
    c.markets[i].status = MarketStatus::Resolved;
    c.markets[i].winning_outcome = Some(winning_outcome);
    c.events.push(Event::MarketResolved { market_id, winning_outcome });
    proof {
        assert(c.markets@ == old_c.markets@.update(
            i as int,
            Market {
                status: MarketStatus::Resolved,
                winning_outcome: Some(winning_outcome),
                ..old_c.markets@[i as int]
            },
        ));
        assert forall|k: int| 0 <= k < c.markets@.len() implies #[trigger] market_wf(
            c.markets@[k],
            k + 1,
        ) by {
            let _ = old_c.markets@[k];
        }
    }
    Ok(())
}

/// Operations follow the market's status: no bet once it has left Active,
/// no vote unless it is Disputed, no resolution once it is Resolved.
pub proof fn lemma_status_gates(
    c: PredictIq,
    who: Address,
    market_id: u64,
    outcome: u32,
    amount: i128,
    now: u64,
)
    requires
        c.has_market(market_id),
    ensures
        status_at(c.market(market_id), now) != MarketStatus::Active ==> bet_check(
            c,
            who,
            market_id,
            outcome,
            amount,
            now,
        ) is Err,
        c.market(market_id).status != MarketStatus::Disputed ==> vote_check(
            c,
            who,
            market_id,
            outcome,
            amount,
        ) is Err,
        c.market(market_id).status == MarketStatus::Resolved ==> resolve_check(
            c,
            who,
            market_id,
            outcome,
            now,
        ) is Err,
{
}

} // verus!
