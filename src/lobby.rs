//! Side assignment: connections are paired by arrival; the first of each pair
//! plays `First`, the second `Second`, and a third starts a new pair.
use vstd::prelude::*;
use crate::side::{Side, side_of_token, token_of};

verus! {

/// What the relay tells a newly accepted connection.
pub struct Assignment {
    /// The side the connection plays for its whole match.
    pub side: Side,
    /// Greeting token naming `side`, to be written before any move traffic.
    pub token: Vec<u8>,
    /// The connection waiting before this one, when this one completes a pair.
    pub partner: Option<u64>,
}

/// One arrival: from the waiting connection (if any) and the newcomer, the
/// new waiting connection, the newcomer's side and its partner.
pub open spec fn pairing_step(waiting: Option<u64>, peer: u64) -> (Option<u64>, Side, Option<u64>) {
    match waiting {
        None => (Some(peer), Side::First, None),
        Some(w) => (None, Side::Second, Some(w)),
    }
}

/// Pairs connections by order of arrival.
pub struct Lobby {
    waiting: Option<u64>,
}

impl Lobby {
    /// The connection that holds `First` and waits for an opponent.
    pub closed spec fn waiting_peer(&self) -> Option<u64> {
        self.waiting
    }

    pub fn new() -> (r: Lobby)
        ensures
            r.waiting_peer() == None::<u64>,
    {
        Lobby { waiting: None }
    }

    /// The connection waiting for an opponent, if any.
    pub fn waiting(&self) -> (r: Option<u64>)
        ensures
            r == self.waiting_peer(),
    {
        self.waiting
    }

    /// Assigns a side to the newly accepted connection `peer`.
    pub fn connect(&mut self, peer: u64) -> (a: Assignment)
        ensures
            (final(self).waiting_peer(), a.side, a.partner) == pairing_step(
                old(self).waiting_peer(),
                peer,
            ),
            a.token@ == token_of(a.side),
    {
        match self.waiting {
            None => {
                self.waiting = Some(peer);
                Assignment { side: Side::First, token: Side::First.token(), partner: None }
            },
            Some(w) => {
                self.waiting = None;
                Assignment { side: Side::Second, token: Side::Second.token(), partner: Some(w) }
            },
        }
    }
}

/// Side assignment is symmetric. Only a connection given `First` is ever
/// left waiting; an arrival that finds one waiting is paired with it and given
/// `Second`, and leaves nobody waiting. So the two members of every match hold
/// opposite sides, and the greeting each receives names exactly its side.
pub proof fn lemma_pair_sides_opposite(waiting: Option<u64>, peer: u64, later: u64)
    ensures
        ({
            let (next, side, partner) = pairing_step(waiting, peer);
            &&& next == Some(peer) ==> side == Side::First
            &&& partner == waiting
            &&& partner is Some ==> side == Side::Second && next is None
            &&& waiting is None ==> next == Some(peer)
            &&& side_of_token(token_of(side)) == Some(side)
        }),
        pairing_step(pairing_step(None, peer).0, later).1 != pairing_step(None, peer).1,
{
    assert(token_of(Side::First)[0] != token_of(Side::Second)[0]);
}

} // verus!
