use vstd::prelude::*;
use crate::sums::sum_of;

verus! {

/// An identity that the host has already authenticated for the call.
pub type Address = u64;

/// Seconds by which a dispute extends a market's resolution deadline.
pub const DISPUTE_WINDOW: u64 = 259200;

/// Number of tracked failures above which the breaker opens by itself.
pub const ERROR_THRESHOLD: u32 = 10;

#[derive(Clone, Copy, Debug, PartialEq, Eq, Structural)]
pub enum MarketStatus {
    Active,
    PendingResolution,
    Disputed,
    Resolved,
    Cancelled,
}

#[derive(Clone, Copy, Debug, PartialEq, Eq, Structural)]
pub enum CircuitBreakerState {
    Closed,
    Open,
}

#[derive(Clone, Copy, Debug, PartialEq, Eq, Structural)]
pub enum ErrorCode {
    MarketNotFound,
    MarketNotActive,
    DeadlinePassed,
    InvalidOutcome,
    InvalidAmount,
    InvalidOptions,
    InvalidDeadlines,
    CannotChangeOutcome,
    MarketNotPendingResolution,
    MarketNotDisputed,
    MarketAlreadyResolved,
    AlreadyVoted,
    NotMajorityOutcome,
    CircuitBreakerOpen,
    AdminNotSet,
    NotAuthorized,
    Overflow,
}

/// What an operation announces; the host publishes these in order.
#[derive(Clone, Copy, Debug, PartialEq, Eq, Structural)]
pub enum Event {
    MarketCreated { market_id: u64 },
    BetPlaced { market_id: u64, bettor: Address, amount: i128 },
    VoteCast { market_id: u64, voter: Address, outcome: u32 },
    MarketDisputed { market_id: u64, disciplinarian: Address },
    MarketResolved { market_id: u64, winning_outcome: u32 },
    CircuitBreakerUpdated { state: CircuitBreakerState },
    AutomaticCircuitBreakerTrigger { error_count: u32 },
}

#[derive(Debug)]
pub struct OracleConfig {
    pub oracle_address: Address,
    pub feed_id: String,
    pub min_responses: u32,
    pub max_staleness_seconds: u64,
    pub max_confidence_bps: u64,
}

#[derive(Debug)]
pub struct Market {
    pub id: u64,
    pub creator: Address,
    pub description: String,
    pub options: Vec<String>,
    pub status: MarketStatus,
    pub deadline: u64,
    pub resolution_deadline: u64,
    pub winning_outcome: Option<u32>,
    pub oracle_config: OracleConfig,
    pub total_staked: i128,
}

#[derive(Clone, Copy, Debug, PartialEq, Eq, Structural)]
pub struct Bet {
    pub market_id: u64,
    pub bettor: Address,
    pub outcome: u32,
    pub amount: i128,
}

#[derive(Clone, Copy, Debug, PartialEq, Eq, Structural)]
pub struct Vote {
    pub market_id: u64,
    pub voter: Address,
    pub outcome: u32,
    pub weight: i128,
}

impl OracleConfig {
    pub fn duplicate(&self) -> (r: OracleConfig)
        ensures
            r == *self,
    {
        OracleConfig {
            oracle_address: self.oracle_address,
            feed_id: self.feed_id.clone(),
            min_responses: self.min_responses,
            max_staleness_seconds: self.max_staleness_seconds,
            max_confidence_bps: self.max_confidence_bps,
        }
    }
}

impl Market {
    /// Equal in every field, the option list compared by its contents.
    pub open spec fn same_as(&self, o: Market) -> bool {
        &&& self.id == o.id
        &&& self.creator == o.creator
        &&& self.description == o.description
        &&& self.options@ == o.options@
        &&& self.status == o.status
        &&& self.deadline == o.deadline
        &&& self.resolution_deadline == o.resolution_deadline
        &&& self.winning_outcome == o.winning_outcome
        &&& self.oracle_config == o.oracle_config
        &&& self.total_staked == o.total_staked
    }

    /// A copy of the market.
    pub fn duplicate(&self) -> (r: Market)
        ensures
            r.same_as(*self),
    {
        let mut options: Vec<String> = Vec::new();
        let mut i: usize = 0;
        while i < self.options.len()
            invariant
                i <= self.options@.len(),
                options@ =~= self.options@.take(i as int),
            decreases self.options@.len() - i,
        {
            options.push(self.options[i].clone());
            assert(options@ =~= self.options@.take(i as int + 1));
            i = i + 1;
        }
        assert(options@ =~= self.options@);
        Market {
            id: self.id,
            creator: self.creator,
            description: self.description.clone(),
            options,
            status: self.status,
            deadline: self.deadline,
            resolution_deadline: self.resolution_deadline,
            winning_outcome: self.winning_outcome,
            oracle_config: self.oracle_config.duplicate(),
            total_staked: self.total_staked,
        }
    }
}

/// The whole state of the engine.
pub struct PredictIq {
    pub admin: Option<Address>,
    pub market_admin: Option<Address>,
    pub fee_admin: Option<Address>,
    pub breaker: CircuitBreakerState,
    pub error_count: u32,
    pub market_count: u64,
    /// The market with id `k` stands at index `k - 1`.
    pub markets: Vec<Market>,
    /// `tallies[k - 1][o]`: the vote weight for outcome `o` of market `k`.
    pub tallies: Vec<Vec<i128>>,
    pub bets: Vec<Bet>,
    pub votes: Vec<Vote>,
    pub events: Vec<Event>,
}

pub open spec fn bet_amount_in(m: u64) -> spec_fn(Bet) -> int {
    |b: Bet| if b.market_id == m { b.amount as int } else { 0 }
}

pub open spec fn bet_amount_of(m: u64, who: Address) -> spec_fn(Bet) -> int {
    |b: Bet| if b.market_id == m && b.bettor == who { b.amount as int } else { 0 }
}

pub open spec fn vote_weight_in(m: u64) -> spec_fn(Vote) -> int {
    |v: Vote| if v.market_id == m { v.weight as int } else { 0 }
}

pub open spec fn tally_weight() -> spec_fn(i128) -> int {
    |w: i128| w as int
}

/// Sum of the amounts of all bets on market `m`.
pub open spec fn staked(bets: Seq<Bet>, m: u64) -> int {
    sum_of(bets, bet_amount_in(m))
}

/// Cumulative stake of `who` on market `m`.
pub open spec fn stake_of(bets: Seq<Bet>, m: u64, who: Address) -> int {
    sum_of(bets, bet_amount_of(m, who))
}

/// Sum of the weights of all votes accepted on market `m`.
pub open spec fn vote_total(votes: Seq<Vote>, m: u64) -> int {
    sum_of(votes, vote_weight_in(m))
}

/// Sum of a market's per-outcome tallies.
pub open spec fn tally_total(t: Seq<i128>) -> int {
    sum_of(t, tally_weight())
}

pub open spec fn market_wf(m: Market, k: int) -> bool {
    &&& m.id == k
    &&& 2 <= m.options@.len() <= u32::MAX
    &&& m.deadline < m.resolution_deadline
    &&& m.total_staked >= 0
    &&& (m.winning_outcome is Some <==> m.status == MarketStatus::Resolved)
    &&& (m.winning_outcome matches Some(w) ==> w < m.options@.len())
}

impl PredictIq {
    pub open spec fn has_market(&self, id: u64) -> bool {
        1 <= id <= self.markets@.len()
    }

    pub open spec fn market(&self, id: u64) -> Market {
        self.markets@[id - 1]
    }

    pub open spec fn tally_seq(&self, id: u64) -> Seq<i128> {
        self.tallies@[id - 1]@
    }

    pub open spec fn bet_wf(&self, b: Bet) -> bool {
        &&& self.has_market(b.market_id)
        &&& b.outcome < self.market(b.market_id).options@.len()
        &&& b.amount > 0
    }

    pub open spec fn vote_wf(&self, v: Vote) -> bool {
        &&& self.has_market(v.market_id)
        &&& v.outcome < self.market(v.market_id).options@.len()
    }

    /// The state's invariant.
    pub open spec fn wf(&self) -> bool {
        &&& self.market_count as int == self.markets@.len()
        &&& self.tallies@.len() == self.markets@.len()
        &&& forall|k: int|
            #![trigger self.markets@[k]]
            0 <= k < self.markets@.len() ==> {
                &&& market_wf(self.markets@[k], k + 1)
                &&& self.tallies@[k]@.len() == self.markets@[k].options@.len()
                &&& self.markets@[k].total_staked == staked(self.bets@, (k + 1) as u64)
                &&& tally_total(self.tallies@[k]@) == vote_total(self.votes@, (k + 1) as u64)
            }
        &&& forall|j: int| 0 <= j < self.bets@.len() ==> self.bet_wf(#[trigger] self.bets@[j])
        &&& forall|i: int, j: int|
            0 <= i < j < self.bets@.len() ==> !(#[trigger] self.bets@[i].market_id
                == #[trigger] self.bets@[j].market_id && self.bets@[i].bettor
                == self.bets@[j].bettor)
        &&& forall|j: int| 0 <= j < self.votes@.len() ==> self.vote_wf(#[trigger] self.votes@[j])
        &&& forall|i: int, j: int|
            0 <= i < j < self.votes@.len() ==> !(#[trigger] self.votes@[i].market_id
                == #[trigger] self.votes@[j].market_id && self.votes@[i].voter
                == self.votes@[j].voter)
    }

    /// An engine with no markets, no administrators and a closed breaker.
    pub fn new() -> (r: PredictIq)
        ensures
            r.wf(),
            r.admin is None,
            r.market_admin is None,
            r.fee_admin is None,
            r.breaker == CircuitBreakerState::Closed,
            r.error_count == 0,
            r.market_count == 0,
            r.markets@.len() == 0,
            r.bets@.len() == 0,
            r.votes@.len() == 0,
            r.events@.len() == 0,
    {
        PredictIq {
            admin: None,
            market_admin: None,
            fee_admin: None,
            breaker: CircuitBreakerState::Closed,
            error_count: 0,
            market_count: 0,
            markets: Vec::new(),
            tallies: Vec::new(),
            bets: Vec::new(),
            votes: Vec::new(),
            events: Vec::new(),
        }
    }
}

} // verus!
