//! A match and its relay loop: the relay reads a move only from the side on
//! turn, forwards it unmodified to the other side and, once the write is
//! flushed, flips the turn; any failed read or write ends the match.
use vstd::prelude::*;
use crate::channel::{ReadOutcome, failure_notice, notice_of};
use crate::codec::MoveFormat;
use crate::side::{Side, opposite};

verus! {

/// Why a match ended.
#[derive(Clone, Copy, Debug, PartialEq, Eq, Structural)]
pub enum FailureReason {
    /// The channel of the side on turn closed, failed or timed out.
    Disconnected,
    /// The read handed back a payload of the wrong length.
    ShortRead,
}

/// What the relay unit of a match must do next.
#[derive(Debug)]
pub enum RelayAction {
    /// Block reading exactly `len` bytes from the channel of `from`.
    Read { from: Side, len: usize },
    /// Write `payload` to the channel of `to` and flush it, then report the
    /// outcome with `on_forwarded` or `on_forward_failed`.
    Forward { to: Side, payload: Vec<u8> },
    /// A forward to `to` is outstanding: its outcome must be reported first.
    AwaitDelivery { to: Side },
    /// Send `notice` to both channels (best effort), report the failure of
    /// `failed` and release both channels.
    Terminate { failed: Side, reason: FailureReason, notice: Vec<u8> },
    /// The match is over; nothing is left to do.
    Stop,
}

/// The side that sends the move at position `i` of a match.
pub open spec fn sender_at(i: int) -> Side {
    if i % 2 == 0 {
        Side::First
    } else {
        Side::Second
    }
}

/// One match between two peers, with its turn pointer.
pub struct Match {
    format: MoveFormat,
    turn: Side,
    open: bool,
    /// A move has been read and handed out for forwarding, and its write has
    /// not been reported yet.
    forwarding: bool,
    /// The move being forwarded, while `forwarding`.
    pending: Ghost<Seq<u8>>,
    /// Every relayed move so far: who sent it and the bytes delivered.
    history: Ghost<Seq<(Side, Seq<u8>)>>,
}

impl Match {
    pub closed spec fn format_spec(&self) -> MoveFormat {
        self.format
    }

    /// The side whose move is expected next.
    pub closed spec fn turn_spec(&self) -> Side {
        self.turn
    }

    pub closed spec fn is_open_spec(&self) -> bool {
        self.open
    }

    /// A forward has been handed out and its outcome not yet reported.
    pub closed spec fn is_forwarding_spec(&self) -> bool {
        self.forwarding
    }

    /// The bytes of the outstanding forward.
    pub closed spec fn pending(&self) -> Seq<u8> {
        self.pending@
    }

    /// Every move relayed so far, in order: its sender and the bytes
    /// delivered to the other side. A move enters only once its write has
    /// been flushed.
    pub closed spec fn log(&self) -> Seq<(Side, Seq<u8>)> {
        self.history@
    }

    /// Senders alternate from `First`, the turn pointer names the next
    /// sender, every relayed payload has the agreed length, and a forward is
    /// outstanding only in an open match.
    pub open spec fn wf(&self) -> bool {
        &&& self.format_spec().wf()
        &&& forall|i: int| 0 <= i < self.log().len() ==> (#[trigger] self.log()[i]).0 == sender_at(i)
        &&& forall|i: int| 0 <= i < self.log().len() ==> (#[trigger] self.log()[i]).1.len()
            == self.format_spec().payload_len_spec()
        &&& self.turn_spec() == sender_at(self.log().len() as int)
        &&& self.is_forwarding_spec() ==> self.is_open_spec() && self.pending().len()
            == self.format_spec().payload_len_spec()
    }

    /// What `next_action` returns in this state.
    pub open spec fn expected_action(&self) -> RelayAction {
        if !self.is_open_spec() {
            RelayAction::Stop
        } else if self.is_forwarding_spec() {
            RelayAction::AwaitDelivery { to: opposite(self.turn_spec()) }
        } else {
            RelayAction::Read {
                from: self.turn_spec(),
                len: self.format_spec().payload_len_spec() as usize,
            }
        }
    }

    /// A match of two freshly assigned peers: `First` is on turn.
    pub fn new(format: MoveFormat) -> (r: Match)
        requires
            format.wf(),
        ensures
            r.wf(),
            r.format_spec() == format,
            r.turn_spec() == Side::First,
            r.is_open_spec(),
            !r.is_forwarding_spec(),
            r.log().len() == 0,
    {
        Match {
            format,
            turn: Side::First,
            open: true,
            forwarding: false,
            pending: Ghost(Seq::empty()),
            history: Ghost(Seq::empty()),
        }
    }

    /// The side whose move the relay expects next.
    pub fn next_expected_side(&self) -> (r: Side)
        ensures
            r == self.turn_spec(),
    {
        self.turn
    }

    pub fn is_open(&self) -> (r: bool)
        ensures
            r == self.is_open_spec(),
    {
        self.open
    }

    pub fn is_forwarding(&self) -> (r: bool)
        ensures
            r == self.is_forwarding_spec(),
    {
        self.forwarding
    }

    /// Flips the turn pointer.
    fn advance_turn(&mut self)
        ensures
            final(self).turn_spec() == opposite(old(self).turn_spec()),
            final(self).format_spec() == old(self).format_spec(),
            final(self).is_open_spec() == old(self).is_open_spec(),
            final(self).is_forwarding_spec() == old(self).is_forwarding_spec(),
            final(self).pending() == old(self).pending(),
            final(self).log() == old(self).log(),
    {
        self.turn = self.turn.other();
    }

    /// The next step of the relay loop: while the match is open and no
    /// forward is outstanding, a read of one move from the side on turn and
    /// from no other; while a forward is outstanding, its report; afterwards
    /// nothing.
    pub fn next_action(&self) -> (r: RelayAction)
        requires
            self.wf(),
        ensures
            r == self.expected_action(),
    {
        if !self.open {
            RelayAction::Stop
        } else if self.forwarding {
            RelayAction::AwaitDelivery { to: self.turn.other() }
        } else {
            RelayAction::Read { from: self.turn, len: self.format.payload_len() }
        }
    }

    /// Takes the outcome of the read that `next_action` asked for.
    ///
    /// A payload of exactly the agreed length is handed out, byte for byte,
    /// for forwarding to the other side; the turn and the log change only
    /// when the write is reported flushed. Anything else ends the match: the
    /// relay names the side on turn as failed and hands out the notice for
    /// both peers. While a forward is outstanding, or once the match is
    /// closed, the outcome is ignored.
    pub fn on_read(&mut self, outcome: ReadOutcome) -> (r: RelayAction)
        requires
            old(self).wf(),
        ensures
            final(self).wf(),
            final(self).format_spec() == old(self).format_spec(),
            final(self).turn_spec() == old(self).turn_spec(),
            final(self).log() == old(self).log(),
            !old(self).is_open_spec() || old(self).is_forwarding_spec() ==> r
                == old(self).expected_action() && *final(self) == *old(self),
            old(self).is_open_spec() && !old(self).is_forwarding_spec() ==> match outcome {
                ReadOutcome::Bytes(b) => if b@.len() == old(self).format_spec().payload_len_spec() {
                    &&& r matches RelayAction::Forward { to, payload }
                    &&& to == opposite(old(self).turn_spec())
                    &&& payload@ == b@
                    &&& final(self).is_open_spec()
                    &&& final(self).is_forwarding_spec()
                    &&& final(self).pending() == b@
                } else {
                    &&& r matches RelayAction::Terminate { failed, reason, notice }
                    &&& failed == old(self).turn_spec()
                    &&& reason == FailureReason::ShortRead
                    &&& notice@ == notice_of(old(self).format_spec().payload_len_spec())
                    &&& !final(self).is_open_spec()
                    &&& !final(self).is_forwarding_spec()
                },
                ReadOutcome::Closed => {
                    &&& r matches RelayAction::Terminate { failed, reason, notice }
                    &&& failed == old(self).turn_spec()
                    &&& reason == FailureReason::Disconnected
                    &&& notice@ == notice_of(old(self).format_spec().payload_len_spec())
                    &&& !final(self).is_open_spec()
                    &&& !final(self).is_forwarding_spec()
                },
            },
    {
        if !self.open || self.forwarding {
            return self.next_action();
        }
        let len = self.format.payload_len();
        let reason = match outcome {
            ReadOutcome::Bytes(b) => {
                if b.len() == len {
                    self.forwarding = true;
                    self.pending = Ghost(b@);
                    return RelayAction::Forward { to: self.turn.other(), payload: b };
                }
                FailureReason::ShortRead
            },
            ReadOutcome::Closed => FailureReason::Disconnected,
        };
        self.open = false;
        RelayAction::Terminate { failed: self.turn, reason, notice: failure_notice(len) }
    }

    /// The outstanding forward was written and flushed: the move counts as
    /// relayed, it enters the log as sent by the side on turn, and the turn
    /// flips. Without an outstanding forward nothing changes.
    pub fn on_forwarded(&mut self)
        requires
            old(self).wf(),
        ensures
            final(self).wf(),
            final(self).format_spec() == old(self).format_spec(),
            final(self).is_open_spec() == old(self).is_open_spec(),
            !final(self).is_forwarding_spec(),
            old(self).is_forwarding_spec() ==> {
                &&& final(self).turn_spec() == opposite(old(self).turn_spec())
                &&& final(self).log() == old(self).log().push(
                    (old(self).turn_spec(), old(self).pending()),
                )
            },
            !old(self).is_forwarding_spec() ==> *final(self) == *old(self),
    {
        if !self.forwarding {
            return;
        }
        let sender = self.turn;
        proof {
            let old_log = self.history@;
            let len = self.format.payload_len_spec();
            self.history = Ghost(old_log.push((sender, self.pending@)));
            assert forall|i: int| 0 <= i < self.history@.len() implies (#[trigger] self.history@[
                i
            ]).0 == sender_at(i) && self.history@[i].1.len() == len by {
                if i < old_log.len() {
                    assert(self.history@[i] == old_log[i]);
                }
            }
        }
        self.forwarding = false;
        self.advance_turn();
    }

    /// The write of the outstanding forward failed: the receiving side is
    /// gone, so the match ends with it named as failed. The move was not
    /// delivered: the turn pointer and the log stay as they were. Without an
    /// outstanding forward nothing changes and the result is `next_action`'s.
    pub fn on_forward_failed(&mut self) -> (r: RelayAction)
        requires
            old(self).wf(),
        ensures
            final(self).wf(),
            final(self).format_spec() == old(self).format_spec(),
            final(self).turn_spec() == old(self).turn_spec(),
            final(self).log() == old(self).log(),
            !final(self).is_forwarding_spec(),
            old(self).is_forwarding_spec() ==> {
                &&& r matches RelayAction::Terminate { failed, reason, notice }
                &&& failed == opposite(old(self).turn_spec())
                &&& reason == FailureReason::Disconnected
                &&& notice@ == notice_of(old(self).format_spec().payload_len_spec())
                &&& !final(self).is_open_spec()
            },
            !old(self).is_forwarding_spec() ==> r == old(self).expected_action() && *final(self)
                == *old(self),
    {
        if !self.forwarding {
            return self.next_action();
        }
        self.forwarding = false;
        self.open = false;
        let notice = failure_notice(self.format.payload_len());
        RelayAction::Terminate { failed: self.turn.other(), reason: FailureReason::Disconnected, notice }
    }
}

/// Consecutive relayed moves never come from the same side: in every match,
/// however many moves it has relayed, move `i` and move `i + 1` have
/// different senders.
pub proof fn lemma_senders_alternate(m: &Match, i: int)
    requires
        m.wf(),
        0 <= i,
        i + 1 < m.log().len(),
    ensures
        m.log()[i].0 != m.log()[i + 1].0,
{
    assert(m.log()[i].0 == sender_at(i));
    assert(m.log()[i + 1].0 == sender_at(i + 1));
}

} // verus!
