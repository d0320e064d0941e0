//! What a blocking fixed-length read on a peer channel hands back, and the
//! notice that tells a peer its match is over.
use vstd::prelude::*;

verus! {

/// Result of a blocking read of a fixed number of bytes.
#[derive(Debug)]
pub enum ReadOutcome {
    /// The bytes that arrived.
    Bytes(Vec<u8>),
    /// The channel closed, failed or stayed silent past its deadline.
    Closed,
}

/// ASCII `'#'`, the byte a failure notice is made of.
pub const NOTICE_BYTE: u8 = 35;

/// Failure notice of `len` bytes: as long as a move message, so that a peer
/// blocked on a move read receives it whole, and never a valid move.
pub open spec fn notice_of(len: nat) -> Seq<u8> {
    Seq::new(len, |i: int| NOTICE_BYTE)
}

/// Builds the failure notice of `len` bytes.
pub fn failure_notice(len: usize) -> (r: Vec<u8>)
    ensures
        r@ == notice_of(len as nat),
{
    let mut out: Vec<u8> = Vec::new();
    let mut i: usize = 0;
    while i < len
        invariant
            i <= len,
            out@ == notice_of(i as nat),
        decreases len - i,
    {
        out.push(NOTICE_BYTE);
        i += 1;
        proof {
            assert(out@ =~= notice_of(i as nat));
        }
    }
    out
}

/// Byte-wise equality of a slice and a vector.
pub fn bytes_eq(a: &[u8], b: &Vec<u8>) -> (r: bool)
    ensures
        r == (a@ == b@),
{
    if a.len() != b.len() {
        return false;
    }
    let mut i: usize = 0;
    while i < a.len()
        invariant
            a@.len() == b@.len(),
            i <= a@.len(),
            forall|j: int| 0 <= j < i ==> a@[j] == b@[j],
        decreases a@.len() - i,
    {
        if a[i] != b[i] {
            return false;
        }
        i += 1;
    }
    assert(a@ =~= b@);
    true
}

} // verus!
