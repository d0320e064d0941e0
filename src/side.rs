//! The two turn-order roles of a match and the greeting token that names each.
use vstd::prelude::*;
use crate::channel::bytes_eq;

verus! {

/// One of the two turn-order roles of a match. `First` moves first.
#[derive(Clone, Copy, Debug, PartialEq, Eq, Structural)]
pub enum Side {
    First,
    Second,
}

/// Width in bytes of a greeting token.
pub const SIDE_TOKEN_LEN: usize = 6;

/// The complementary side.
pub open spec fn opposite(s: Side) -> Side {
    match s {
        Side::First => Side::Second,
        Side::Second => Side::First,
    }
}

/// Greeting token naming a side: ASCII `"first "` (padded) or `"second"`.
pub open spec fn token_of(s: Side) -> Seq<u8> {
    match s {
        Side::First => seq![102u8, 105u8, 114u8, 115u8, 116u8, 32u8],
        Side::Second => seq![115u8, 101u8, 99u8, 111u8, 110u8, 100u8],
    }
}

/// The side that a greeting token names, if any.
pub open spec fn side_of_token(b: Seq<u8>) -> Option<Side> {
    if b == token_of(Side::First) {
        Some(Side::First)
    } else if b == token_of(Side::Second) {
        Some(Side::Second)
    } else {
        None
    }
}

impl Side {
    /// The side that moves after this one.
    pub fn other(self) -> (r: Side)
        ensures
            r == opposite(self),
            r != self,
    {
        match self {
            Side::First => Side::Second,
            Side::Second => Side::First,
        }
    }

    /// The fixed-width greeting token that tells a peer which side it plays.
    pub fn token(self) -> (r: Vec<u8>)
        ensures
            r@ == token_of(self),
            r@.len() == SIDE_TOKEN_LEN,
    {
        match self {
            Side::First => vec![102u8, 105u8, 114u8, 115u8, 116u8, 32u8],
            Side::Second => vec![115u8, 101u8, 99u8, 111u8, 110u8, 100u8],
        }
    }

    /// Reads a greeting token. Anything but one of the two exact tokens is
    /// refused.
    pub fn from_token(b: &[u8]) -> (r: Option<Side>)
        ensures
            r == side_of_token(b@),
    {
        let first = Side::First.token();
        let second = Side::Second.token();
        if bytes_eq(b, &first) {
            Some(Side::First)
        } else if bytes_eq(b, &second) {
            Some(Side::Second)
        } else {
            None
        }
    }
}

} // verus!
