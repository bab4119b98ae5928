//! The dispatch origin of a call, as the runtime hands it to a pallet.

use vstd::prelude::*;

verus! {

/// Who dispatched a call: a signed account, nobody (an unsigned
/// transaction), or the root.
#[derive(Clone, Copy, Debug, PartialEq, Eq, Structural)]
pub enum Origin {
    Signed(u64),
    Unsigned,
    Root,
}

impl Origin {
    /// The origin of a transaction signed by `who`.
    pub fn signed(who: u64) -> (origin: Origin)
        ensures
            origin == Origin::Signed(who),
    {
        Origin::Signed(who)
    }

    /// The origin of an unsigned transaction.
    pub fn none() -> (origin: Origin)
        ensures
            origin == Origin::Unsigned,
    {
        Origin::Unsigned
    }
}

/// The origin was not of the kind that the call demands.
#[derive(Clone, Copy, Debug, PartialEq, Eq, Structural)]
pub struct BadOrigin;

/// The signer of a signed origin; `BadOrigin` for any other.
pub fn ensure_signed(origin: Origin) -> (who: Result<u64, BadOrigin>)
    ensures
        who == (match origin {
            Origin::Signed(a) => Ok(a),
            _ => Err(BadOrigin),
        }),
{
    match origin {
        Origin::Signed(a) => Ok(a),
        _ => Err(BadOrigin),
    }
}

/// Succeeds for an unsigned origin only.
pub fn ensure_none(origin: Origin) -> (r: Result<(), BadOrigin>)
    ensures
        r == (match origin {
            Origin::Unsigned => Ok(()),
            _ => Err(BadOrigin),
        }),
{
    match origin {
        Origin::Unsigned => Ok(()),
        _ => Err(BadOrigin),
    }
}

} // verus!
