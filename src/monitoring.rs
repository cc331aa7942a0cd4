use vstd::prelude::*;
use crate::circuit_breaker::closed_check;
use crate::types::{CircuitBreakerState, ErrorCode, Event, PredictIq, ERROR_THRESHOLD};

verus! {

/// The failure count after one more failure; it stops at the largest `u32`.
pub open spec fn next_count(n: u32) -> u32 {
    if n == u32::MAX {
        n
    } else {
        (n + 1) as u32
    }
}

/// `b` is `a` after one tracked failure.
pub open spec fn error_step(a: PredictIq, b: PredictIq) -> bool {
    &&& b.error_count == next_count(a.error_count)
    &&& b.breaker == if b.error_count > ERROR_THRESHOLD {
        CircuitBreakerState::Open
    } else {
        a.breaker
    }
    &&& b == (PredictIq { error_count: b.error_count, breaker: b.breaker, events: b.events, ..a })
    &&& b.events@ == if b.error_count > ERROR_THRESHOLD {
        a.events@.push(Event::AutomaticCircuitBreakerTrigger { error_count: b.error_count })
    } else {
        a.events@
    }
}

/// Counts one observed failure. Past the threshold the breaker opens by
/// itself, without an administrator.
pub fn track_error(c: &mut PredictIq)
    requires
        old(c).wf(),
    ensures
        final(c).wf(),
        error_step(*old(c), *final(c)),
{
    if c.error_count < u32::MAX {
        c.error_count = c.error_count + 1;
    }
    if c.error_count > ERROR_THRESHOLD {
        c.breaker = CircuitBreakerState::Open;
        c.events.push(Event::AutomaticCircuitBreakerTrigger { error_count: c.error_count });
    }
}

/// Clears the failure count. Callers gate this to administrators.
pub fn reset_monitoring(c: &mut PredictIq)
    requires
        old(c).wf(),
    ensures
        final(c).wf(),
        *final(c) == (PredictIq { error_count: 0, ..*old(c) }),
{
    c.error_count = 0;
}

proof fn lemma_counts(s: Seq<PredictIq>, n: int)
    requires
        0 <= n < s.len(),
        n <= 100,
        s[0].error_count == 0,
        forall|k: int| 0 <= k < s.len() - 1 ==> error_step(#[trigger] s[k], s[k + 1]),
    ensures
        s[n].error_count == n,
    decreases n,
{
    if n > 0 {
        lemma_counts(s, n - 1);
        assert(error_step(s[n - 1], s[n]));
    }
}

/// After a reset, eleven tracked failures leave the breaker open, and the
/// closed-breaker guard then refuses with `CircuitBreakerOpen`.
pub proof fn lemma_errors_open_breaker(s: Seq<PredictIq>)
    requires
        s.len() == 12,
        s[0].error_count == 0,
        forall|k: int| 0 <= k < 11 ==> error_step(#[trigger] s[k], s[k + 1]),
    ensures
        s[11].breaker == CircuitBreakerState::Open,
        closed_check(s[11]) == Err::<(), ErrorCode>(ErrorCode::CircuitBreakerOpen),
{
    lemma_counts(s, 11);
    assert(error_step(s[10], s[11]));
}

} // verus!
