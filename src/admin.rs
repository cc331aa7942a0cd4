use vstd::prelude::*;
use crate::types::{Address, ErrorCode, PredictIq};

verus! {

/// Whether `caller` is the root administrator, and if not, why.
pub open spec fn admin_check(c: PredictIq, caller: Address) -> Result<(), ErrorCode> {
    match c.admin {
        None => Err(ErrorCode::AdminNotSet),
        Some(a) => if a == caller {
            Ok(())
        } else {
            Err(ErrorCode::NotAuthorized)
        },
    }
}

/// Only the named administrator field differs between the two states.
pub open spec fn same_but_admins(a: PredictIq, b: PredictIq) -> bool {
    &&& a.breaker == b.breaker
    &&& a.error_count == b.error_count
    &&& a.market_count == b.market_count
    &&& a.markets == b.markets
    &&& a.tallies == b.tallies
    &&& a.bets == b.bets
    &&& a.votes == b.votes
    &&& a.events == b.events
}

/// Installs the root administrator.
pub fn set_admin(c: &mut PredictIq, admin: Address)
    requires
        old(c).wf(),
    ensures
        final(c).wf(),
        final(c).admin == Some(admin),
        final(c).market_admin == old(c).market_admin,
        final(c).fee_admin == old(c).fee_admin,
        same_but_admins(*final(c), *old(c)),
{
    c.admin = Some(admin);
}

pub fn get_admin(c: &PredictIq) -> (r: Option<Address>)
    ensures
        r == c.admin,
{
    c.admin
}

/// Succeeds exactly when `caller` is the root administrator.
pub fn require_admin(c: &PredictIq, caller: Address) -> (r: Result<(), ErrorCode>)
    ensures
        r == admin_check(*c, caller),
{
    match c.admin {
        None => Err(ErrorCode::AdminNotSet),
        Some(a) => if a == caller {
            Ok(())
        } else {
            Err(ErrorCode::NotAuthorized)
        },
    }
}

/// The root administrator names the market administrator.
pub fn set_market_admin(c: &mut PredictIq, caller: Address, admin: Address) -> (r: Result<(), ErrorCode>)
    requires
        old(c).wf(),
    ensures
        final(c).wf(),
        r == admin_check(*old(c), caller),
        r is Err ==> *final(c) == *old(c),
        r is Ok ==> final(c).market_admin == Some(admin) && final(c).admin == old(c).admin
            && final(c).fee_admin == old(c).fee_admin && same_but_admins(*final(c), *old(c)),
{
    require_admin(c, caller)?;
    c.market_admin = Some(admin);
    Ok(())
}

pub fn get_market_admin(c: &PredictIq) -> (r: Option<Address>)
    ensures
        r == c.market_admin,
{
    c.market_admin
}

/// The root administrator names the fee administrator.
pub fn set_fee_admin(c: &mut PredictIq, caller: Address, admin: Address) -> (r: Result<(), ErrorCode>)
    requires
        old(c).wf(),
    ensures
        final(c).wf(),
        r == admin_check(*old(c), caller),
        r is Err ==> *final(c) == *old(c),
        r is Ok ==> final(c).fee_admin == Some(admin) && final(c).admin == old(c).admin
            && final(c).market_admin == old(c).market_admin && same_but_admins(*final(c), *old(c)),
{
    require_admin(c, caller)?;
    c.fee_admin = Some(admin);
    Ok(())
}

pub fn get_fee_admin(c: &PredictIq) -> (r: Option<Address>)
    ensures
        r == c.fee_admin,
{
    c.fee_admin
}

} // verus!
