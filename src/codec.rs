//! Wire format of a move: two zero-padded decimal cell indices separated by
//! one space, with the digit width fixed by the board size.
use vstd::prelude::*;

verus! {

/// A move from one board cell to another, each an index `0..cells`.
#[derive(Clone, Copy, Debug, PartialEq, Eq, Structural)]
pub struct Move {
    pub from: u32,
    pub to: u32,
}

/// ASCII code of `'0'`.
pub const ZERO: u8 = 48;

/// ASCII code of the space that separates the two indices.
pub const SPACE: u8 = 32;

/// Cells of a chess board.
pub const CHESS_CELLS: u32 = 64;

pub open spec fn pow10(w: nat) -> nat
    decreases w,
{
    if w == 0 {
        1
    } else {
        10 * pow10((w - 1) as nat)
    }
}

/// Decimal digits needed for every index of an `n`-cell board: the least
/// `w >= 1` with `10^w >= n`, which is `ceil(log10(n))` for `n >= 2`
/// (`lemma_width_fits`, `lemma_width_least`).
pub open spec fn index_width(n: nat) -> nat
    decreases n,
{
    if n <= 10 {
        1
    } else {
        1 + index_width(((n + 9) / 10) as nat)
    }
}

/// `v` written with exactly `w` decimal digits, zero-padded on the left
/// (only the low `w` digits of `v`).
pub open spec fn digits(v: nat, w: nat) -> Seq<u8>
    decreases w,
{
    if w == 0 {
        Seq::empty()
    } else {
        digits(v / 10, (w - 1) as nat).push((ZERO + v % 10) as u8)
    }
}

pub open spec fn is_digit(c: u8) -> bool {
    ZERO <= c < ZERO + 10
}

pub open spec fn all_digits(s: Seq<u8>) -> bool {
    forall|i: int| 0 <= i < s.len() ==> is_digit(#[trigger] s[i])
}

/// The number that a string of decimal digits spells.
pub open spec fn value_of(s: Seq<u8>) -> nat
    decreases s.len(),
{
    if s.len() == 0 {
        0
    } else {
        value_of(s.drop_last()) * 10 + (s.last() - ZERO) as nat
    }
}

/// Agreed geometry of the wire: how many cells the board has and how many
/// digits each index takes.
pub struct MoveFormat {
    cells: u32,
    width: usize,
}

impl MoveFormat {
    pub closed spec fn cells_spec(&self) -> nat {
        self.cells as nat
    }

    pub closed spec fn width_spec(&self) -> nat {
        self.width as nat
    }

    /// Length of every move message.
    pub open spec fn payload_len_spec(&self) -> nat {
        2 * self.width_spec() + 1
    }

    pub open spec fn wf(&self) -> bool {
        &&& self.cells_spec() >= 2
        &&& self.width_spec() == index_width(self.cells_spec())
    }

    /// Both indices lie on the board.
    pub open spec fn valid_move(&self, m: Move) -> bool {
        m.from < self.cells_spec() && m.to < self.cells_spec()
    }

    /// The message that carries `m`.
    pub open spec fn encoding(&self, m: Move) -> Seq<u8> {
        digits(m.from as nat, self.width_spec()) + seq![SPACE] + digits(
            m.to as nat,
            self.width_spec(),
        )
    }

    /// The first index field of a message.
    pub open spec fn from_field(&self, b: Seq<u8>) -> Seq<u8> {
        b.subrange(0, self.width_spec() as int)
    }

    /// The second index field of a message.
    pub open spec fn to_field(&self, b: Seq<u8>) -> Seq<u8> {
        b.subrange(self.width_spec() as int + 1, b.len() as int)
    }

    /// `b` is a move message: exact length, two digit fields around one
    /// space, and both indices on the board.
    pub open spec fn well_formed(&self, b: Seq<u8>) -> bool {
        &&& b.len() == self.payload_len_spec()
        &&& b[self.width_spec() as int] == SPACE
        &&& all_digits(self.from_field(b))
        &&& all_digits(self.to_field(b))
        &&& value_of(self.from_field(b)) < self.cells_spec()
        &&& value_of(self.to_field(b)) < self.cells_spec()
    }

    /// What a message decodes to.
    pub open spec fn decoding(&self, b: Seq<u8>) -> Option<Move> {
        if self.well_formed(b) {
            Some(
                Move {
                    from: value_of(self.from_field(b)) as u32,
                    to: value_of(self.to_field(b)) as u32,
                },
            )
        } else {
            None
        }
    }

    /// Format for a board of `cells` cells; `None` when `cells < 2`.
    pub fn new(cells: u32) -> (r: Option<MoveFormat>)
        ensures
            cells >= 2 <==> r.is_some(),
            r matches Some(f) ==> f.wf() && f.cells_spec() == cells,
    {
        if cells < 2 {
            return None;
        }
        let mut m: u32 = cells;
        let mut w: usize = 1;
        proof {
            lemma_width_at_most_ten(cells as nat);
        }
        while m > 10
            invariant
                1 <= w,
                2 <= m,
                index_width(cells as nat) == (w - 1) + index_width(m as nat),
                index_width(cells as nat) <= 10,
            decreases m,
        {
            let next: u32 = m / 10 + if m % 10 == 0 { 0 } else { 1 };
            proof {
                assert(next as nat == ((m + 9) / 10) as nat);
                lemma_width_pos(next as nat);
            }
            m = next;
            w = w + 1;
        }
        Some(MoveFormat { cells, width: w })
    }

    /// The format of a chess board, whose 64 cells take two digits each.
    pub fn chess() -> (r: MoveFormat)
        ensures
            r.wf(),
            r.cells_spec() == CHESS_CELLS,
            r.width_spec() == 2,
            r.payload_len_spec() == 5,
    {
        proof {
            reveal_with_fuel(index_width, 3);
        }
        MoveFormat { cells: CHESS_CELLS, width: 2 }
    }

    /// The message that carries `m`; it is exactly `payload_len()` bytes long.
    pub fn encode(&self, m: Move) -> (r: Vec<u8>)
        requires
            self.wf(),
            self.valid_move(m),
        ensures
            r@ == self.encoding(m),
            r@.len() == self.payload_len_spec(),
            self.decoding(r@) == Some(m),
    {
        proof {
            lemma_width_at_most_ten(self.cells_spec());
            lemma_round_trip(*self, m);
        }
        let mut out: Vec<u8> = Vec::new();
        push_digits(&mut out, m.from, self.width);
        out.push(SPACE);
        push_digits(&mut out, m.to, self.width);
        proof {
            assert(out@ =~= self.encoding(m));
        }
        out
    }

    /// Reads a move message. Anything that is not exactly a well-formed
    /// message (wrong length, a stray byte, an index off the board) is refused.
    pub fn decode(&self, b: &[u8]) -> (r: Option<Move>)
        requires
            self.wf(),
        ensures
            r == self.decoding(b@),
            r matches Some(m) ==> self.valid_move(m) && self.encoding(m) == b@,
    {
        proof {
            lemma_width_at_most_ten(self.cells_spec());
        }
        let w = self.width;
        if b.len() != 2 * w + 1 {
            return None;
        }
        if b[w] != SPACE {
            return None;
        }
        let from = parse_digits(b, 0, w);
        let to = parse_digits(b, w + 1, 2 * w + 1);
        proof {
            assert(self.from_field(b@) == b@.subrange(0, w as int));
        }
        match (from, to) {
            (Some(x), Some(y)) => {
                if x >= self.cells as u64 || y >= self.cells as u64 {
                    None
                } else {
                    let m = Move { from: x as u32, to: y as u32 };
                    proof {
                        lemma_decoding_inverse(*self, b@);
                    }
                    Some(m)
                }
            },
            _ => None,
        }
    }

    pub fn cells(&self) -> (r: u32)
        ensures
            r == self.cells_spec(),
    {
        self.cells
    }

    pub fn width(&self) -> (r: usize)
        ensures
            r == self.width_spec(),
    {
        self.width
    }

    /// Length of every move message.
    pub fn payload_len(&self) -> (r: usize)
        requires
            self.wf(),
        ensures
            r == self.payload_len_spec(),
    {
        proof {
            lemma_width_at_most_ten(self.cells_spec());
        }
        2 * self.width + 1
    }
}

pub proof fn lemma_pow10_pos(w: nat)
    ensures
        pow10(w) >= 1,
    decreases w,
{
    if w > 0 {
        lemma_pow10_pos((w - 1) as nat);
    }
}

/// An agreed format uses between one and ten digits per index.
pub proof fn lemma_format_width(f: MoveFormat)
    requires
        f.wf(),
    ensures
        1 <= f.width_spec() <= 10,
{
    lemma_width_at_most_ten(f.cells_spec());
}

/// No board that a `u32` can count needs more than ten digits per index.
pub proof fn lemma_width_at_most_ten(n: nat)
    requires
        n <= u32::MAX,
    ensures
        1 <= index_width(n) <= 10,
{
    lemma_pow10_ten();
    lemma_width_le(n, 10);
    lemma_width_pos(n);
}

/// `w` digits suffice for every board of at most `10^w` cells.
proof fn lemma_width_le(n: nat, w: nat)
    requires
        w >= 1,
        n <= pow10(w),
    ensures
        index_width(n) <= w,
    decreases w,
{
    if n > 10 {
        if w == 1 {
            assert(pow10(1) == 10) by {
                reveal_with_fuel(pow10, 2);
            }
        } else {
            lemma_width_le(((n + 9) / 10) as nat, (w - 1) as nat);
        }
    }
}

proof fn lemma_width_pos(n: nat)
    ensures
        index_width(n) >= 1,
    decreases n,
{
    if n > 10 {
        lemma_width_pos(((n + 9) / 10) as nat);
    }
}

/// Appends `v` written with exactly `w` digits.
fn push_digits(out: &mut Vec<u8>, v: u32, w: usize)
    ensures
        final(out)@ == old(out)@ + digits(v as nat, w as nat),
    decreases w,
{
    if w == 0 {
        proof {
            assert(old(out)@ + digits(v as nat, 0) =~= old(out)@);
        }
        return;
    }
    push_digits(out, v / 10, w - 1);
    out.push(ZERO + (v % 10) as u8);
    proof {
        assert(final(out)@ =~= old(out)@ + digits(v as nat, w as nat));
    }
}

/// Reads the digits `b[start..end]` as a decimal number; `None` when one of
/// them is not a digit.
fn parse_digits(b: &[u8], start: usize, end: usize) -> (r: Option<u64>)
    requires
        start <= end <= b@.len(),
        end - start <= 10,
    ensures
        r.is_some() <==> all_digits(b@.subrange(start as int, end as int)),
        r matches Some(v) ==> v == value_of(b@.subrange(start as int, end as int)),
{
    proof {
        lemma_pow10_ten();
    }
    let mut acc: u64 = 0;
    let mut i: usize = start;
    while i < end
        invariant
            start <= i <= end <= b@.len(),
            end - start <= 10,
            all_digits(b@.subrange(start as int, i as int)),
            acc == value_of(b@.subrange(start as int, i as int)),
            acc < pow10((i - start) as nat),
            pow10((i - start) as nat) <= pow10(10),
        decreases end - i,
    {
        let c = b[i];
        if c < ZERO || c >= ZERO + 10 {
            proof {
                let s = b@.subrange(start as int, end as int);
                assert(s[i - start] == c);
            }
            return None;
        }
        proof {
            let s = b@.subrange(start as int, i as int + 1);
            assert(s.drop_last() =~= b@.subrange(start as int, i as int));
            assert(s.last() == c);
            lemma_pow10_mono((i - start + 1) as nat, 10);
            let p = pow10((i - start) as nat);
            assert(pow10((i - start + 1) as nat) == 10 * p);
            lemma_pow10_ten();
            assert(acc * 10 + (c - ZERO) < 10 * p) by (nonlinear_arith)
                requires
                    acc < p,
                    c - ZERO < 10,
            ;
            assert(all_digits(s)) by {
                assert forall|j: int| 0 <= j < s.len() implies is_digit(#[trigger] s[j]) by {
                    if j < s.len() - 1 {
                        assert(s[j] == b@.subrange(start as int, i as int)[j]);
                    }
                }
            }
        }
        acc = acc * 10 + (c - ZERO) as u64;
        i = i + 1;
    }
    Some(acc)
}

pub proof fn lemma_pow10_ten()
    ensures
        pow10(10) == 10000000000nat,
{
    reveal_with_fuel(pow10, 11);
}

pub proof fn lemma_pow10_mono(a: nat, b: nat)
    requires
        a <= b,
    ensures
        pow10(a) <= pow10(b),
    decreases b,
{
    if a < b {
        lemma_pow10_mono(a, (b - 1) as nat);
        lemma_pow10_pos((b - 1) as nat);
    }
}

/// Every index of an `n`-cell board fits in `index_width(n)` digits.
pub proof fn lemma_width_fits(n: nat)
    ensures
        n <= pow10(index_width(n)),
    decreases n,
{
    reveal_with_fuel(pow10, 2);
    if n > 10 {
        let c = ((n + 9) / 10) as nat;
        lemma_width_fits(c);
        lemma_width_pos(c);
        let w = index_width(c);
        assert(pow10(w + 1) == 10 * pow10(w));
        assert(10 * c >= n);
        assert(10 * pow10(w) >= 10 * c) by (nonlinear_arith)
            requires
                pow10(w) >= c,
        ;
    }
}

/// `index_width(n)` is the least width that fits: one digit fewer would
/// not reach `n`.
pub proof fn lemma_width_least(n: nat)
    requires
        n > 10,
    ensures
        pow10((index_width(n) - 1) as nat) < n,
    decreases n,
{
    reveal_with_fuel(pow10, 2);
    let c = ((n + 9) / 10) as nat;
    lemma_width_pos(c);
    let w = index_width(c);
    assert(index_width(n) == 1 + w);
    if c <= 10 {
        assert(pow10(1) == 10);
    } else {
        lemma_width_least(c);
        let p = pow10((w - 1) as nat);
        assert(pow10(w) == 10 * p);
        assert(10 * p <= 10 * c - 10) by (nonlinear_arith)
            requires
                p < c,
        ;
    }
}

/// Writing `v < 10^w` with `w` digits and reading it back gives `v`.
pub proof fn lemma_digits(v: nat, w: nat)
    requires
        v < pow10(w),
    ensures
        digits(v, w).len() == w,
        all_digits(digits(v, w)),
        value_of(digits(v, w)) == v,
    decreases w,
{
    if w > 0 {
        let p = pow10((w - 1) as nat);
        assert(v / 10 < p) by (nonlinear_arith)
            requires
                v < 10 * p,
        ;
        lemma_digits(v / 10, (w - 1) as nat);
        let d = digits(v, w);
        assert(d.drop_last() =~= digits(v / 10, (w - 1) as nat));
        assert forall|i: int| 0 <= i < d.len() implies is_digit(#[trigger] d[i]) by {
            if i < d.len() - 1 {
                assert(d[i] == digits(v / 10, (w - 1) as nat)[i]);
            }
        }
    }
}

/// Decoding the message of a move on the board gives that move back.
pub proof fn lemma_round_trip(f: MoveFormat, m: Move)
    requires
        f.wf(),
        f.valid_move(m),
    ensures
        f.encoding(m).len() == f.payload_len_spec(),
        f.decoding(f.encoding(m)) == Some(m),
{
    let w = f.width_spec();
    lemma_width_fits(f.cells_spec());
    lemma_digits(m.from as nat, w);
    lemma_digits(m.to as nat, w);
    let e = f.encoding(m);
    assert(f.from_field(e) =~= digits(m.from as nat, w));
    assert(f.to_field(e) =~= digits(m.to as nat, w));
    assert(e[w as int] == SPACE);
}

/// A well-formed message is the encoding of the move it decodes to, so no
/// two messages decode to the same move.
pub proof fn lemma_decoding_inverse(f: MoveFormat, b: Seq<u8>)
    requires
        f.wf(),
        f.well_formed(b),
    ensures
        f.decoding(b) matches Some(m) && f.valid_move(m) && f.encoding(m) == b,
{
    let w = f.width_spec();
    lemma_value_digits(f.from_field(b));
    lemma_value_digits(f.to_field(b));
    let m = f.decoding(b).unwrap();
    assert(f.encoding(m) =~= b);
}

/// A digit string is the zero-padded writing of its own value.
pub proof fn lemma_value_digits(s: Seq<u8>)
    requires
        all_digits(s),
    ensures
        digits(value_of(s), s.len()) == s,
    decreases s.len(),
{
    if s.len() > 0 {
        let t = s.drop_last();
        assert(all_digits(t)) by {
            assert forall|i: int| 0 <= i < t.len() implies is_digit(#[trigger] t[i]) by {
                assert(t[i] == s[i]);
            }
        }
        lemma_value_digits(t);
        let v = value_of(s);
        let d = (s.last() - ZERO) as nat;
        assert(is_digit(s[s.len() - 1]));
        assert(v == value_of(t) * 10 + d);
        assert(v / 10 == value_of(t) && v % 10 == d) by (nonlinear_arith)
            requires
                v == value_of(t) * 10 + d,
                d < 10,
        ;
        assert(digits(v, s.len()) =~= s);
    }
}

} // verus!
