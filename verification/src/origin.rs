//! Who may make a call.

use crate::types::{AccountId, DispatchError, RawOrigin};
use vstd::prelude::*;

verus! {

/// The account that signed, where one did.
pub fn ensure_signed(origin: RawOrigin) -> (r: Result<AccountId, DispatchError>)
    ensures
        r == match origin {
            RawOrigin::Signed(who) => Ok::<AccountId, DispatchError>(who),
            _ => Err(DispatchError::BadOrigin),
        },
{
    match origin {
        RawOrigin::Signed(who) => Ok(who),
        _ => Err(DispatchError::BadOrigin),
    }
}

/// Passes the system itself, and nobody else.
pub fn ensure_root(origin: RawOrigin) -> (r: Result<(), DispatchError>)
    ensures
        r == match origin {
            RawOrigin::Root => Ok::<(), DispatchError>(()),
            _ => Err(DispatchError::BadOrigin),
        },
{
    match origin {
        RawOrigin::Root => Ok(()),
        _ => Err(DispatchError::BadOrigin),
    }
}

/// An origin that the chain's configuration admits, or the system itself, may make the call.
pub open spec fn privileged(origin: RawOrigin, admitted: bool) -> bool {
    admitted || origin is Root
}

/// Passes an origin that the chain's configuration admits, and the system itself.
pub fn ensure_privileged(origin: RawOrigin, admitted: bool) -> (r: Result<(), DispatchError>)
    ensures
        r == if privileged(origin, admitted) {
            Ok::<(), DispatchError>(())
        } else {
            Err(DispatchError::BadOrigin)
        },
{
    if admitted {
        Ok(())
    } else {
        ensure_root(origin)
    }
}

} // verus!
