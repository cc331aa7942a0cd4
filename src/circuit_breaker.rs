use vstd::prelude::*;
use crate::admin::{admin_check, require_admin};
use crate::types::{Address, CircuitBreakerState, ErrorCode, Event, PredictIq};

verus! {

/// Whether stake-moving operations may run.
pub open spec fn closed_check(c: PredictIq) -> Result<(), ErrorCode> {
    if c.breaker == CircuitBreakerState::Open {
        Err(ErrorCode::CircuitBreakerOpen)
    } else {
        Ok(())
    }
}

/// The root administrator opens or closes the breaker.
pub fn set_state(c: &mut PredictIq, caller: Address, state: CircuitBreakerState) -> (r: Result<
    (),
    ErrorCode,
>)
    requires
        old(c).wf(),
    ensures
        final(c).wf(),
        r == admin_check(*old(c), caller),
        r is Err ==> *final(c) == *old(c),
        r is Ok ==> *final(c) == (PredictIq {
            breaker: state,
            events: final(c).events,
            ..*old(c)
        }) && final(c).events@ == old(c).events@.push(Event::CircuitBreakerUpdated { state }),
{
    require_admin(c, caller)?;
    c.breaker = state;
    c.events.push(Event::CircuitBreakerUpdated { state });
    Ok(())
}

pub fn get_state(c: &PredictIq) -> (r: CircuitBreakerState)
    ensures
        r == c.breaker,
{
    c.breaker
}

/// Fails with `CircuitBreakerOpen` exactly when the breaker is open.
pub fn require_closed(c: &PredictIq) -> (r: Result<(), ErrorCode>)
    ensures
        r == closed_check(*c),
{
    if c.breaker == CircuitBreakerState::Open {
        return Err(ErrorCode::CircuitBreakerOpen);
    }
    Ok(())
}

} // verus!
