//! The network side of a player's process: which side it plays, whose turn
//! it believes it is, when it may send a local move and when it must block
//! for the opponent's.
use vstd::prelude::*;
use crate::channel::{ReadOutcome, bytes_eq, failure_notice, notice_of};
use crate::codec::{Move, MoveFormat};
use crate::side::{Side, opposite, side_of_token};

verus! {

/// Why a peer's session ended.
#[derive(Clone, Copy, Debug, PartialEq, Eq, Structural)]
pub enum ClientError {
    /// The greeting named no side.
    BadGreeting,
    /// The channel to the relay closed or failed.
    Disconnected,
    /// The relay reported that the match was torn down.
    OpponentLeft,
    /// The bytes received are not a move on this board.
    Malformed,
    /// A remote move was handed in while it was the local player's turn.
    OutOfTurn,
    /// The session had already ended.
    Closed,
}

/// What the player's control loop must do next.
#[derive(Clone, Copy, Debug, PartialEq, Eq, Structural)]
pub enum ClientAction {
    /// Wait for the local player to make a move.
    AwaitLocalMove,
    /// Block reading exactly `len` bytes from the relay.
    ReadRemote { len: usize },
    /// The session is over.
    Finished,
}

/// A player's session with the relay.
pub struct PeerClient {
    format: MoveFormat,
    side: Side,
    turn: Side,
    open: bool,
}

impl PeerClient {
    pub closed spec fn format_spec(&self) -> MoveFormat {
        self.format
    }

    /// The side this player was assigned.
    pub closed spec fn side_spec(&self) -> Side {
        self.side
    }

    /// The side this player believes is on turn.
    pub closed spec fn turn_spec(&self) -> Side {
        self.turn
    }

    pub closed spec fn is_open_spec(&self) -> bool {
        self.open
    }

    pub open spec fn wf(&self) -> bool {
        self.format_spec().wf()
    }

    /// Starts a session from the greeting the relay sent on connection.
    pub fn from_greeting(format: MoveFormat, greeting: &[u8]) -> (r: Result<PeerClient, ClientError>)
        requires
            format.wf(),
        ensures
            match side_of_token(greeting@) {
                Some(s) => r matches Ok(c) && c.wf() && c.format_spec() == format && c.side_spec()
                    == s && c.turn_spec() == Side::First && c.is_open_spec(),
                None => r == Err::<PeerClient, ClientError>(ClientError::BadGreeting),
            },
    {
        match Side::from_token(greeting) {
            Some(side) => Ok(PeerClient { format, side, turn: Side::First, open: true }),
            None => Err(ClientError::BadGreeting),
        }
    }

    pub fn side(&self) -> (r: Side)
        ensures
            r == self.side_spec(),
    {
        self.side
    }

    pub fn turn(&self) -> (r: Side)
        ensures
            r == self.turn_spec(),
    {
        self.turn
    }

    pub fn is_open(&self) -> (r: bool)
        ensures
            r == self.is_open_spec(),
    {
        self.open
    }

    pub fn is_my_turn(&self) -> (r: bool)
        ensures
            r == (self.turn_spec() == self.side_spec()),
    {
        self.turn == self.side
    }

    /// On the local player's turn, wait for a local move; otherwise block for
    /// one move message from the relay; once ended, stop.
    pub fn next_action(&self) -> (r: ClientAction)
        requires
            self.wf(),
        ensures
            r == if !self.is_open_spec() {
                ClientAction::Finished
            } else if self.turn_spec() == self.side_spec() {
                ClientAction::AwaitLocalMove
            } else {
                ClientAction::ReadRemote { len: self.format_spec().payload_len_spec() as usize }
            },
    {
        if !self.open {
            ClientAction::Finished
        } else if self.turn == self.side {
            ClientAction::AwaitLocalMove
        } else {
            ClientAction::ReadRemote { len: self.format.payload_len() }
        }
    }

    /// Whether a local move `m` may be offered now: the session is open, it
    /// is the local player's turn and both indices lie on the board. Only
    /// then is it worth handing to the rules module.
    pub fn accepts_local(&self, m: Move) -> (r: bool)
        requires
            self.wf(),
        ensures
            r == (self.is_open_spec() && self.turn_spec() == self.side_spec()
                && self.format_spec().valid_move(m)),
    {
        self.open && self.turn == self.side && m.from < self.format.cells() && m.to
            < self.format.cells()
    }

    /// A local move `m` that the rules module has just judged (`legal`).
    /// When the session is open, it is the local player's turn, the rules
    /// module accepted the move and it lies on the board, returns the message
    /// to send and passes the turn; otherwise returns `None` and changes
    /// nothing (a local rejection never reaches the network).
    pub fn local_move(&mut self, m: Move, legal: bool) -> (r: Option<Vec<u8>>)
        requires
            old(self).wf(),
        ensures
            final(self).wf(),
            final(self).format_spec() == old(self).format_spec(),
            final(self).side_spec() == old(self).side_spec(),
            final(self).is_open_spec() == old(self).is_open_spec(),
            r is Some <==> (old(self).is_open_spec() && old(self).turn_spec()
                == old(self).side_spec() && legal && old(self).format_spec().valid_move(m)),
            r matches Some(b) ==> b@ == old(self).format_spec().encoding(m)
                && final(self).turn_spec() == opposite(old(self).turn_spec()),
            r is None ==> final(self).turn_spec() == old(self).turn_spec(),
    {
        if !self.open || self.turn != self.side || !legal {
            return None;
        }
        if m.from >= self.format.cells() || m.to >= self.format.cells() {
            return None;
        }
        let msg = self.format.encode(m);
        self.turn = self.turn.other();
        Some(msg)
    }

    /// Takes the outcome of the read that `next_action` asked for. A
    /// well-formed move message yields its move and passes the turn to the
    /// local player. Everything else ends the session: a closed channel, the
    /// relay's failure notice, bytes that are not a move on the board, or a
    /// remote move while it is the local player's turn.
    pub fn on_remote(&mut self, outcome: ReadOutcome) -> (r: Result<Move, ClientError>)
        requires
            old(self).wf(),
        ensures
            final(self).wf(),
            final(self).format_spec() == old(self).format_spec(),
            final(self).side_spec() == old(self).side_spec(),
            !old(self).is_open_spec() ==> r == Err::<Move, ClientError>(ClientError::Closed)
                && *final(self) == *old(self),
            old(self).is_open_spec() && old(self).turn_spec() == old(self).side_spec() ==> r
                == Err::<Move, ClientError>(ClientError::OutOfTurn) && !final(self).is_open_spec(),
            old(self).is_open_spec() && old(self).turn_spec() != old(self).side_spec() ==> match outcome {
                ReadOutcome::Closed => r == Err::<Move, ClientError>(ClientError::Disconnected)
                    && !final(self).is_open_spec(),
                ReadOutcome::Bytes(b) => if b@ == notice_of(
                    old(self).format_spec().payload_len_spec(),
                ) {
                    r == Err::<Move, ClientError>(ClientError::OpponentLeft)
                        && !final(self).is_open_spec()
                } else {
                    match old(self).format_spec().decoding(b@) {
                        Some(m) => r == Ok::<Move, ClientError>(m) && final(self).is_open_spec()
                            && final(self).turn_spec() == old(self).side_spec(),
                        None => r == Err::<Move, ClientError>(ClientError::Malformed)
                            && !final(self).is_open_spec(),
                    }
                },
            },
            r is Err ==> final(self).turn_spec() == old(self).turn_spec(),
    {
        if !self.open {
            return Err(ClientError::Closed);
        }
        if self.turn == self.side {
            self.open = false;
            return Err(ClientError::OutOfTurn);
        }
        match outcome {
            ReadOutcome::Closed => {
                self.open = false;
                Err(ClientError::Disconnected)
            },
            ReadOutcome::Bytes(b) => {
                let notice = failure_notice(self.format.payload_len());
                if bytes_eq(b.as_slice(), &notice) {
                    self.open = false;
                    return Err(ClientError::OpponentLeft);
                }
                match self.format.decode(b.as_slice()) {
                    Some(m) => {
                        self.turn = self.side;
                        Ok(m)
                    },
                    None => {
                        self.open = false;
                        Err(ClientError::Malformed)
                    },
                }
            },
        }
    }
}

/// A read that hands back fewer or more bytes than one move message is never
/// taken for a move nor for the relay's notice, so `on_remote` ends the
/// session on it; and the notice itself never decodes as a move, so a peer
/// whose opponent vanished sees the end of the match rather than a move.
pub proof fn lemma_inexact_read_is_terminal(f: MoveFormat, b: Seq<u8>)
    requires
        f.wf(),
    ensures
        b.len() != f.payload_len_spec() ==> f.decoding(b) is None && b != notice_of(
            f.payload_len_spec(),
        ),
        f.decoding(notice_of(f.payload_len_spec())) is None,
{
    let n = notice_of(f.payload_len_spec());
    crate::codec::lemma_format_width(f);
    assert(f.from_field(n)[0] == n[0]);
    assert(!crate::codec::is_digit(f.from_field(n)[0]));
}

} // verus!
