//! Compressed streams that overtax the inflater behind the PNG decoder.
//!
//! The inflater `zune-inflate` fills its bit buffer to at least 56 bits before
//! each item and takes a literal, a length and an offset from it. Where their
//! codes are long, together they take up to 59 bits, more than there may be.
//! This module follows a stream in the inflater's own steps, without producing
//! its output, and tells whether that happens.

use crate::units;
use vstd::prelude::*;

verus! {

/// Two to the power of `n`.
pub open spec fn two_to(n: int) -> int
    decreases n,
{
    if n <= 0 {
        1
    } else {
        2 * two_to(n - 1)
    }
}

/// The bit at position `p`, the lowest bit of a byte first. There are zeroes
/// behind the last byte.
pub open spec fn bit(b: Seq<u8>, p: int) -> int {
    if 0 <= p && p / 8 < b.len() {
        ((b[p / 8] >> ((p % 8) as u8)) & 1u8) as int
    } else {
        0
    }
}

/// The number in the `n` bits from `p` on, the lowest bit first.
pub open spec fn take(b: Seq<u8>, p: int, n: int) -> int
    decreases n,
{
    if n <= 0 {
        0
    } else {
        bit(b, p) + 2 * take(b, p + 1, n - 1)
    }
}

/// The symbols whose code has `n` bits, in ascending order, where `lens` gives
/// the number of bits of each symbol's code.
pub open spec fn with_len(lens: Seq<u8>, n: int) -> Seq<int>
    decreases lens.len(),
{
    if lens.len() == 0 {
        seq![]
    } else if lens.last() == n {
        with_len(lens.drop_last(), n).push(lens.len() - 1)
    } else {
        with_len(lens.drop_last(), n)
    }
}

/// The number of codes of `n` bits that those of up to `n` bits take up.
pub open spec fn space(lens: Seq<u8>, n: int) -> int
    decreases n,
{
    if n <= 0 {
        0
    } else {
        2 * space(lens, n - 1) + with_len(lens, n).len()
    }
}

/// A code that the inflater accepts: one that is complete, one without symbols,
/// or one with a single symbol of one bit.
pub open spec fn usable(lens: Seq<u8>) -> bool {
    let s = space(lens, 15);
    s == 32768 || s == 0 || (s == 16384 && with_len(lens, 1).len() == 1)
}

/// The symbol whose code of at least `n` bits starts at `p`, and the length of its
/// code. `code` is twice what the first `n - 1` bits read, and `first` the first
/// code of `n` bits.
pub open spec fn find(lens: Seq<u8>, b: Seq<u8>, p: int, n: int, code: int, first: int) -> Option<
    (int, int),
>
    decreases 16 - n,
{
    if n > 15 {
        None
    } else {
        let c = code + bit(b, p + n - 1);
        let same = with_len(lens, n);
        if first <= c < first + same.len() {
            Some((same[c - first], n))
        } else {
            find(lens, b, p, n + 1, 2 * c, 2 * (first + same.len()))
        }
    }
}

/// The symbol at `p` and the length of its code. A code that is not complete has
/// one symbol, whatever the bit.
pub open spec fn symbol(lens: Seq<u8>, b: Seq<u8>, p: int) -> Option<(int, int)> {
    let s = space(lens, 15);
    if s == 32768 {
        find(lens, b, p, 1, 0, 0)
    } else if s == 0 {
        Some((0, 1))
    } else {
        Some((with_len(lens, 1)[0], 1))
    }
}

/// The number of extra bits of a length symbol.
pub open spec fn length_extra(s: int) -> int {
    if 265 <= s <= 284 {
        (s - 261) / 4
    } else {
        0
    }
}

/// The shortest length of a length symbol.
pub open spec fn length_base(s: int) -> int {
    if s < 265 {
        s - 254
    } else if s <= 284 {
        (4 + (s - 261) % 4) * two_to(length_extra(s)) + 3
    } else {
        258
    }
}

/// The number of extra bits of an offset symbol.
pub open spec fn offset_extra(s: int) -> int {
    if s < 4 {
        0
    } else if s < 29 {
        s / 2 - 1
    } else {
        13
    }
}

/// The smallest offset of an offset symbol.
pub open spec fn offset_base(s: int) -> int {
    if s < 4 {
        s + 1
    } else if s < 29 {
        (2 + s % 2) * two_to(offset_extra(s)) + 1
    } else {
        24577
    }
}

/// The largest offset there is. It does not matter how much more was put out.
pub const WINDOW: u64 = 32768;

/// An amount of output, as far as it matters.
pub open spec fn capped(n: int) -> int {
    if n > WINDOW {
        WINDOW as int
    } else {
        n
    }
}

/// How far a stream was followed: the bit position, how many bytes the inflater
/// has loaded, and how much it has put out.
pub struct Spot {
    pub p: int,
    pub loaded: int,
    pub out: int,
}

/// What following a part of a stream led to.
pub enum Walk {
    /// To an error or to the end of what the inflater does in a hurry: all is
    /// well.
    Fine,
    /// To an item for which there are not enough bits.
    Burst,
    /// On, to the next item or block.
    Go(Spot),
    /// To the end of a block or of the stream.
    End(Spot),
}

/// The bytes that are loaded once the bit buffer was filled at `p`.
pub open spec fn filled(p: int) -> int {
    (p + 7) / 8 + 7
}

/// The place of a code length's own code length in the header.
pub open spec fn header_slot(s: int) -> int {
    if s == 16 {
        0
    } else if s == 17 {
        1
    } else if s == 18 {
        2
    } else if s == 0 {
        3
    } else if s >= 8 {
        2 * (s - 8) + 4
    } else {
        2 * (7 - s) + 5
    }
}

/// The lengths of the codes that code lengths are written in: `n` of them stand
/// from `p` on, the others are zero.
pub open spec fn header_lens(b: Seq<u8>, p: int, n: int) -> Seq<u8> {
    Seq::new(
        19,
        |s: int|
            if header_slot(s) < n {
                take(b, p + 3 * header_slot(s), 3) as u8
            } else {
                0u8
            },
    )
}

/// Reads code lengths from `p` on, until there are `total` of them. The result
/// also holds the position behind them and the number of bytes loaded.
pub open spec fn read_lens(
    b: Seq<u8>,
    header: Seq<u8>,
    p: int,
    loaded: int,
    lens: Seq<u8>,
    total: int,
) -> Option<(Seq<u8>, int, int)>
    decreases units::greatest(0, total - lens.len()),
{
    if lens.len() >= total {
        Some((lens, p, loaded))
    } else if 8 * loaded - p < 14 && loaded + 8 > b.len() {
        None
    } else {
        let l = if 8 * loaded - p < 14 {
            filled(p)
        } else {
            loaded
        };
        match symbol(header, b, p) {
            None => None,
            Some((s, c)) => if s < 16 {
                read_lens(b, header, p + c, l, lens.push(s as u8), total)
            } else if s == 16 {
                if lens.len() == 0 {
                    None
                } else {
                    let n = 3 + take(b, p + c, 2);
                    if n <= 0 {
                        None
                    } else {
                        read_lens(b, header, p + c + 2, l, lens + run(lens.last(), n), total)
                    }
                }
            } else if s == 17 {
                let n = 3 + take(b, p + c, 3);
                if n <= 0 {
                    None
                } else {
                    read_lens(b, header, p + c + 3, l, lens + run(0, n), total)
                }
            } else {
                let n = 11 + take(b, p + c, 7);
                if n <= 0 {
                    None
                } else {
                    read_lens(b, header, p + c + 7, l, lens + run(0, n), total)
                }
            },
        }
    }
}

/// The same length `n` times.
pub open spec fn run(v: u8, n: int) -> Seq<u8> {
    Seq::new(n as nat, |i: int| v)
}

/// The codes of a block that brings its own: those of literals and lengths and
/// those of offsets, the position behind them and the number of bytes loaded.
/// Nothing where the inflater objects or comes to the end.
pub open spec fn own_codes(b: Seq<u8>, p: int, loaded: int) -> Option<
    (Seq<u8>, Seq<u8>, int, int),
> {
    let literals = 257 + take(b, p, 5);
    let offsets = 1 + take(b, p + 5, 5);
    let n = 4 + take(b, p + 10, 4);
    let q = p + 14;
    let header = header_lens(b, q, n);
    if loaded + 8 > b.len() || filled(q) + 8 > b.len() || !usable(header) {
        None
    } else {
        match read_lens(b, header, q + 3 * n, filled(q + 3), seq![], literals + offsets) {
            None => None,
            Some((lens, end, l)) => {
                let lit = lens.subrange(0, literals);
                let off = lens.subrange(literals, literals + offsets);
                if usable(off) && usable(lit) {
                    Some((lit, off, end, l))
                } else {
                    None
                }
            },
        }
    }
}

/// The lengths of the fixed codes of literals and lengths.
pub open spec fn fixed_literals() -> Seq<u8> {
    Seq::new(
        288,
        |s: int|
            if s < 144 {
                8u8
            } else if s < 256 {
                9u8
            } else if s < 280 {
                7u8
            } else {
                8u8
            },
    )
}

/// The lengths of the fixed codes of offsets.
pub open spec fn fixed_offsets() -> Seq<u8> {
    Seq::new(32, |s: int| 5u8)
}

/// A match whose length symbol `s` ends at `q`. The item started at `at.p`, where
/// the buffer was filled.
pub open spec fn match_step(off: Seq<u8>, b: Seq<u8>, at: Spot, s: int, q: int) -> Walk {
    let avail = 8 * at.loaded - at.p;
    let q1 = q + length_extra(s);
    let length = length_base(s) + take(b, q, length_extra(s));
    match symbol(off, b, q1) {
        None => Walk::Fine,
        Some((d, c)) => {
            let q2 = q1 + c + offset_extra(d);
            let offset = offset_base(d) + take(b, q1 + c, offset_extra(d));
            let left = avail - (q2 - at.p);
            if left < 0 {
                Walk::Burst
            } else if offset > at.out {
                Walk::Fine
            } else if left < 11 && at.loaded + 8 > b.len() {
                Walk::Burst
            } else {
                Walk::Go(
                    Spot {
                        p: q2,
                        loaded: if left < 11 {
                            filled(q2)
                        } else {
                            at.loaded
                        },
                        out: capped(at.out + length),
                    },
                )
            }
        },
    }
}

/// What follows a symbol that ends at `q`.
pub open spec fn symbol_step(off: Seq<u8>, b: Seq<u8>, at: Spot, s: int, q: int) -> Walk {
    if s < 256 {
        Walk::Go(Spot { p: q, loaded: at.loaded, out: capped(at.out + 1) })
    } else if s == 256 {
        Walk::End(Spot { p: q, loaded: at.loaded, out: at.out })
    } else {
        match_step(off, b, at, s, q)
    }
}

/// One item: a symbol, and before it a literal whose code has at most eleven
/// bits, if there is one.
#[verifier::opaque]
pub open spec fn item_step(lit: Seq<u8>, off: Seq<u8>, b: Seq<u8>, from: Spot) -> Walk {
    if from.loaded + 8 > b.len() || from.p >= 8 * b.len() {
        Walk::Fine
    } else {
        let at = Spot { p: from.p, loaded: filled(from.p), out: from.out };
        match symbol(lit, b, at.p) {
            None => Walk::Fine,
            Some((s, c)) => if s < 256 && c <= 11 {
                match symbol(lit, b, at.p + c) {
                    None => Walk::Fine,
                    Some((s2, c2)) => symbol_step(
                        off,
                        b,
                        Spot { p: at.p, loaded: at.loaded, out: capped(at.out + 1) },
                        s2,
                        at.p + c + c2,
                    ),
                }
            } else {
                symbol_step(off, b, at, s, at.p + c)
            },
        }
    }
}

/// All items of a block.
pub open spec fn items(lit: Seq<u8>, off: Seq<u8>, b: Seq<u8>, from: Spot) -> Walk
    decreases units::greatest(0, 8 * b.len() - from.p),
{
    match item_step(lit, off, b, from) {
        Walk::Go(next) => if from.p < next.p && from.p < 8 * b.len() {
            items(lit, off, b, next)
        } else {
            Walk::Fine
        },
        w => w,
    }
}

/// A block whose header ends at `from.p`. The inflater hurries only where more
/// than 48 bytes are left to load.
pub open spec fn coded_block(lit: Seq<u8>, off: Seq<u8>, b: Seq<u8>, from: Spot) -> Walk {
    if b.len() - from.loaded <= 48 {
        Walk::Fine
    } else {
        items(lit, off, b, Spot { p: from.p, loaded: filled(from.p), out: from.out })
    }
}

/// A stored block whose header's three bits end at `p`.
pub open spec fn stored_block(b: Seq<u8>, p: int, out: int) -> Walk {
    let start = (p + 7) / 8;
    let len = take(b, 8 * start, 16);
    if len + take(b, 8 * start + 16, 16) != 65535 || start + 4 + len > b.len() {
        Walk::Fine
    } else {
        Walk::End(
            Spot { p: 8 * (start + 4 + len), loaded: start + 4 + len, out: capped(out + len) },
        )
    }
}

/// One block.
#[verifier::opaque]
pub open spec fn block_step(b: Seq<u8>, from: Spot) -> Walk {
    if from.loaded + 8 > b.len() || from.p > 8 * b.len() {
        Walk::Fine
    } else {
        let kind = take(b, from.p + 1, 2);
        let p = from.p + 3;
        let after = if kind == 0 {
            stored_block(b, p, from.out)
        } else if kind == 1 {
            coded_block(
                fixed_literals(),
                fixed_offsets(),
                b,
                Spot { p, loaded: filled(from.p), out: from.out },
            )
        } else if kind == 2 {
            match own_codes(b, p, filled(from.p)) {
                None => Walk::Fine,
                Some((lit, off, q, l)) => coded_block(
                    lit,
                    off,
                    b,
                    Spot { p: q, loaded: l, out: from.out },
                ),
            }
        } else {
            Walk::Fine
        };
        match after {
            Walk::End(next) => if bit(b, from.p) == 1 {
                Walk::Fine
            } else {
                Walk::Go(next)
            },
            w => w,
        }
    }
}

/// A whole stream of blocks.
pub open spec fn blocks(b: Seq<u8>, from: Spot) -> Walk
    decreases units::greatest(0, 8 * b.len() - from.p),
{
    match block_step(b, from) {
        Walk::Go(next) => if from.p < next.p && from.p < 8 * b.len() {
            blocks(b, next)
        } else {
            Walk::Fine
        },
        w => w,
    }
}

/// The bytes are a zlib stream, by its first two bytes, that overtaxes the
/// inflater.
pub open spec fn overtaxing(z: Seq<u8>) -> bool {
    &&& z.len() >= 6
    &&& z[0] % 16 == 8
    &&& z[0] / 16 <= 7
    &&& (z[0] * 256 + z[1]) % 31 == 0
    &&& blocks(z.skip(2), Spot { p: 0, loaded: 0, out: 0 }) is Burst
}

proof fn lemma_two_to(n: int)
    requires
        0 <= n <= 16,
    ensures
        1 <= two_to(n) <= 65536,
        n <= 13 ==> two_to(n) <= 8192,
        n <= 7 ==> two_to(n) <= 128,
    decreases n,
{
    reveal_with_fuel(two_to, 17);
    if n > 0 {
        lemma_two_to(n - 1);
    }
    assert(n == 0 || n == 1 || n == 2 || n == 3 || n == 4 || n == 5 || n == 6 || n == 7 || n == 8
        || n == 9 || n == 10 || n == 11 || n == 12 || n == 13 || n == 14 || n == 15 || n == 16);
}

/// Bound on the bit positions in a slice.
const REACHABLE: u128 = 0x1_0000_0000_0000_0000_0000;

fn power(n: u64) -> (r: u64)
    requires
        n <= 16,
    ensures
        r == two_to(n as int),
    decreases n,
{
    proof {
        lemma_two_to(n as int);
    }
    if n == 0 {
        1
    } else {
        2 * power(n - 1)
    }
}

fn bit_at(b: &[u8], p: u128) -> (r: u64)
    ensures
        r == bit(b@, p as int),
        r <= 1,
{
    if p / 8 < b.len() as u128 {
        let byte: u8 = b[(p / 8) as usize];
        let shift: u8 = (p % 8) as u8;
        let r: u8 = (byte >> shift) & 1;
        assert(r <= 1) by (bit_vector)
            requires
                r == (byte >> shift) & 1,
        ;
        r as u64
    } else {
        0
    }
}

fn take_bits(b: &[u8], p: u128, n: u64) -> (r: u64)
    requires
        n <= 16,
        p + n <= REACHABLE,
    ensures
        r == take(b@, p as int, n as int),
        r < two_to(n as int),
    decreases n,
{
    proof {
        lemma_two_to(n as int);
    }
    if n == 0 {
        0
    } else {
        let rest: u64 = take_bits(b, p + 1, n - 1);
        bit_at(b, p) + 2 * rest
    }
}

/// A canonical code, prepared for reading.
struct Code {
    lens: Vec<u8>,
    /// How many codes have each length.
    counts: Vec<usize>,
    /// Where the symbols of each length start.
    starts: Vec<usize>,
    /// The symbols, by the lengths of their codes.
    symbols: Vec<usize>,
    space: u64,
}

impl Code {
    /// The tables hold what the lengths say.
    spec fn ok(self) -> bool {
        &&& self.lens@.len() <= 400
        &&& self.counts@.len() == 16
        &&& self.starts@.len() == 16
        &&& self.space == space(self.lens@, 15)
        &&& forall|n: int|
            1 <= n <= 15 ==> self.filed(n, self.starts@[n] as int, #[trigger] self.counts@[n] as int)
    }

    /// The symbols of `n` bits are the `count` ones from `start` on.
    spec fn filed(self, n: int, start: int, count: int) -> bool {
        filed(self.lens@, self.symbols@, n, start, count)
    }
}

/// In `symbols`, the symbols of `n` bits are the `count` ones from `start` on.
spec fn filed(lens: Seq<u8>, symbols: Seq<usize>, n: int, start: int, count: int) -> bool {
    &&& 0 <= start
    &&& 0 <= count
    &&& start + count <= symbols.len()
    &&& count == with_len(lens, n).len()
    &&& forall|k: int| 0 <= k < count ==> #[trigger] symbols[start + k] == with_len(lens, n)[k]
}

/// There are no more symbols of a length than symbols.
proof fn lemma_with_len(lens: Seq<u8>, n: int)
    ensures
        with_len(lens, n).len() <= lens.len(),
    decreases lens.len(),
{
    if lens.len() > 0 {
        lemma_with_len(lens.drop_last(), n);
    }
}

/// Appends the symbols whose code has `n` bits.
fn push_symbols(symbols: &mut Vec<usize>, lens: &Vec<u8>, n: u8) -> (count: usize)
    ensures
        final(symbols)@.len() >= old(symbols)@.len(),
        final(symbols)@.take(old(symbols)@.len() as int) == old(symbols)@,
        filed(lens@, final(symbols)@, n as int, old(symbols)@.len() as int, count as int),
        count <= lens@.len(),
{
    let ghost start = symbols@;
    let mut count: usize = 0;
    let mut i: usize = 0;
    assert(lens@.take(0) =~= Seq::<u8>::empty());
    assert(symbols@.take(start.len() as int) =~= start);
    while i < lens.len()
        invariant
            i <= lens@.len(),
            count <= i,
            symbols@.len() == start.len() + count,
            symbols@.take(start.len() as int) == start,
            count == with_len(lens@.take(i as int), n as int).len(),
            forall|k: int|
                0 <= k < count ==> #[trigger] symbols@[start.len() + k] == with_len(
                    lens@.take(i as int),
                    n as int,
                )[k],
        decreases lens@.len() - i,
    {
        proof {
            let next = lens@.take(i + 1);
            assert(next.drop_last() =~= lens@.take(i as int));
            assert(next.last() == lens@[i as int]);
        }
        let ghost before = symbols@;
        if lens[i] == n {
            symbols.push(i);
            count = count + 1;
            assert(symbols@.take(start.len() as int) =~= before.take(start.len() as int));
            assert forall|k: int| 0 <= k < count implies #[trigger] symbols@[start.len() + k]
                == with_len(lens@.take(i + 1), n as int)[k] by {
                if k < count - 1 {
                    assert(before[start.len() + k] == with_len(lens@.take(i as int), n as int)[k]);
                }
            }
        }
        i = i + 1;
    }
    assert(lens@.take(i as int) =~= lens@);
    count
}

/// Prepares a code for reading.
fn prepare(lens: Vec<u8>) -> (r: Code)
    requires
        lens@.len() <= 400,
    ensures
        r.ok(),
        r.lens@ == lens@,
{
    let mut counts: Vec<usize> = Vec::new();
    let mut starts: Vec<usize> = Vec::new();
    let mut symbols: Vec<usize> = Vec::new();
    counts.push(0);
    starts.push(0);
    let mut total: u64 = 0;
    let mut n: u8 = 1;
    while n <= 15
        invariant
            1 <= n <= 16,
            lens@.len() <= 400,
            counts@.len() == n,
            starts@.len() == n,
            total == space(lens@, n - 1),
            total <= 400 * (two_to(n - 1) - 1),
            forall|m: int|
                1 <= m < n ==> filed(
                    lens@,
                    symbols@,
                    m,
                    starts@[m] as int,
                    #[trigger] counts@[m] as int,
                ),
        decreases 16 - n,
    {
        let ghost before = symbols@;
        let ghost before_counts = counts@;
        let start: usize = symbols.len();
        let count: usize = push_symbols(&mut symbols, &lens, n);
        proof {
            lemma_two_to(n - 1);
            lemma_two_to(n as int);
        }
        total = 2 * total + count as u64;
        counts.push(count);
        starts.push(start);
        assert forall|m: int| 1 <= m < n + 1 implies filed(
            lens@,
            symbols@,
            m,
            starts@[m] as int,
            #[trigger] counts@[m] as int,
        ) by {
            if m < n {
                assert(filed(lens@, before, m, starts@[m] as int, before_counts[m] as int));
                assert forall|k: int| 0 <= k < counts@[m] implies #[trigger] symbols@[starts@[m]
                    + k] == with_len(lens@, m)[k] by {
                    let j = starts@[m] + k;
                    assert(before[j] == with_len(lens@, m)[k]);
                    assert(symbols@.take(before.len() as int)[j] == symbols@[j]);
                }
            }
        }
        n = n + 1;
    }
    Code { lens, counts, starts, symbols, space: total }
}

impl Code {
    fn is_usable(&self) -> (r: bool)
        requires
            self.ok(),
        ensures
            r == usable(self.lens@),
    {
        assert(self.filed(1, self.starts@[1] as int, self.counts@[1] as int));
        self.space == 32768 || self.space == 0 || (self.space == 16384 && self.counts[1] == 1)
    }

    /// Reads the symbol at `p`.
    fn read(&self, b: &[u8], p: u128) -> (r: Option<(usize, u64)>)
        requires
            self.ok(),
            usable(self.lens@),
            p + 15 <= REACHABLE,
        ensures
            match r {
                None => symbol(self.lens@, b@, p as int) is None,
                Some((s, c)) => {
                    &&& symbol(self.lens@, b@, p as int) == Some((s as int, c as int))
                    &&& 1 <= c <= 15
                },
            },
    {
        assert(self.filed(1, self.starts@[1] as int, self.counts@[1] as int));
        if self.space == 0 {
            return Some((0, 1));
        }
        if self.space != 32768 {
            assert(self.symbols@[self.starts@[1] + 0] == with_len(self.lens@, 1)[0]);
            return Some((self.symbols[self.starts[1]], 1));
        }
        assert(two_to(1) == 2 && two_to(0) == 1) by {
            reveal_with_fuel(two_to, 2);
        }
        let mut code: u128 = 0;
        let mut first: u128 = 0;
        let mut n: usize = 1;
        while n <= 15
            invariant
                self.ok(),
                1 <= n <= 16,
                p + 15 <= REACHABLE,
                code <= two_to(n as int) - 2,
                first <= 800 * (two_to(n - 1) - 1),
                find(self.lens@, b@, p as int, n as int, code as int, first as int) == symbol(
                    self.lens@,
                    b@,
                    p as int,
                ),
            decreases 16 - n,
        {
            assert(self.filed(n as int, self.starts@[n as int] as int, self.counts@[n as int] as int));
            proof {
                lemma_two_to(n as int);
                lemma_two_to(n - 1);
                lemma_with_len(self.lens@, n as int);
            }
            let c: u128 = code + bit_at(b, p + n as u128 - 1) as u128;
            let count: usize = self.counts[n];
            if first <= c && c < first + count as u128 {
                let k: usize = (c - first) as usize;
                assert(self.symbols.len() <= usize::MAX);
                assert(self.symbols@[self.starts@[n as int] + k] == with_len(
                    self.lens@,
                    n as int,
                )[k as int]);
                return Some((self.symbols[self.starts[n] + k], n as u64));
            }
            code = 2 * c;
            first = 2 * (first + count as u128);
            n = n + 1;
        }
        None
    }
}

/// How far a stream was followed.
#[derive(Clone, Copy)]
struct Place {
    p: u128,
    loaded: u128,
    out: u64,
}

impl Place {
    spec fn spot(self) -> Spot {
        Spot { p: self.p as int, loaded: self.loaded as int, out: self.out as int }
    }

    /// The position lies in a slice, or not far behind.
    spec fn near(self, b: Seq<u8>) -> bool {
        &&& self.p <= 8 * b.len() + 1_000_000
        &&& self.loaded <= b.len() + 1_000_000
        &&& self.out <= WINDOW
    }
}

/// What following a part of a stream led to.
enum Move {
    Fine,
    Burst,
    Go(Place),
    End(Place),
}

impl Move {
    spec fn walk(self) -> Walk {
        match self {
            Move::Fine => Walk::Fine,
            Move::Burst => Walk::Burst,
            Move::Go(at) => Walk::Go(at.spot()),
            Move::End(at) => Walk::End(at.spot()),
        }
    }

    spec fn near(self, b: Seq<u8>) -> bool {
        match self {
            Move::Go(at) => at.near(b),
            Move::End(at) => at.near(b),
            _ => true,
        }
    }
}

fn cap(n: u64) -> (r: u64)
    ensures
        r == capped(n as int),
        r <= WINDOW,
{
    if n > WINDOW {
        WINDOW
    } else {
        n
    }
}

fn filled_at(p: u128) -> (r: u128)
    requires
        p <= REACHABLE,
    ensures
        r == filled(p as int),
{
    (p + 7) / 8 + 7
}

fn extra_of_length(s: usize) -> (r: u64)
    requires
        s >= 257,
    ensures
        r == length_extra(s as int),
        r <= 5,
{
    if s >= 265 && s <= 284 {
        ((s - 261) / 4) as u64
    } else {
        0
    }
}

fn base_of_length(s: usize) -> (r: u64)
    requires
        s >= 257,
    ensures
        r == length_base(s as int),
        r <= 1000,
{
    if s < 265 {
        (s - 254) as u64
    } else if s <= 284 {
        let e: u64 = extra_of_length(s);
        let m: u64 = 4 + ((s - 261) % 4) as u64;
        let t: u64 = power(e);
        proof {
            lemma_two_to(e as int);
            reveal_with_fuel(two_to, 6);
            assert(m * t <= 7 * 32) by (nonlinear_arith)
                requires
                    0 <= m <= 7,
                    0 <= t <= 32,
            ;
        }
        m * t + 3
    } else {
        258
    }
}

fn extra_of_offset(s: usize) -> (r: u64)
    ensures
        r == offset_extra(s as int),
        r <= 13,
{
    if s < 4 {
        0
    } else if s < 29 {
        (s / 2 - 1) as u64
    } else {
        13
    }
}

fn base_of_offset(s: usize) -> (r: u64)
    ensures
        r == offset_base(s as int),
        r <= 100_000,
{
    if s < 4 {
        s as u64 + 1
    } else if s < 29 {
        let e: u64 = extra_of_offset(s);
        let m: u64 = 2 + (s % 2) as u64;
        let t: u64 = power(e);
        proof {
            lemma_two_to(e as int);
            assert(m * t <= 3 * 8192) by (nonlinear_arith)
                requires
                    0 <= m <= 3,
                    0 <= t <= 8192,
            ;
        }
        m * t + 1
    } else {
        24577
    }
}

/// Follows a match.
fn follow_match(off: &Code, b: &[u8], at: Place, s: usize, q: u128) -> (r: Move)
    requires
        off.ok(),
        usable(off.lens@),
        at.near(b@),
        at.p <= q <= at.p + 100,
        at.p <= 8 * at.loaded,
        s >= 257,
    ensures
        r.walk() == match_step(off.lens@, b@, at.spot(), s as int, q as int),
        at.p < 8 * b@.len() ==> r.near(b@),
{
    let n: u128 = b.len() as u128;
    let avail: u128 = 8 * at.loaded - at.p;
    let e1: u64 = extra_of_length(s);
    let q1: u128 = q + e1 as u128;
    let more: u64 = take_bits(b, q, e1);
    proof {
        lemma_two_to(e1 as int);
    }
    let length: u64 = base_of_length(s) + more;
    match off.read(b, q1) {
        None => Move::Fine,
        Some((d, c)) => {
            let e2: u64 = extra_of_offset(d);
            let q2: u128 = q1 + c as u128 + e2 as u128;
            let far: u64 = take_bits(b, q1 + c as u128, e2);
            proof {
                lemma_two_to(e2 as int);
            }
            let offset: u64 = base_of_offset(d) + far;
            let used: u128 = q2 - at.p;
            if used > avail {
                Move::Burst
            } else if offset > at.out {
                Move::Fine
            } else if avail - used < 11 && at.loaded + 8 > n {
                Move::Burst
            } else {
                let loaded: u128 = if avail - used < 11 {
                    filled_at(q2)
                } else {
                    at.loaded
                };
                Move::Go(Place { p: q2, loaded, out: cap(at.out + length) })
            }
        },
    }
}

/// Follows what comes after a symbol.
fn follow_symbol(off: &Code, b: &[u8], at: Place, s: usize, q: u128) -> (r: Move)
    requires
        off.ok(),
        usable(off.lens@),
        at.near(b@),
        at.p <= q <= at.p + 100,
        at.p <= 8 * at.loaded,
    ensures
        r.walk() == symbol_step(off.lens@, b@, at.spot(), s as int, q as int),
        at.p < 8 * b@.len() ==> r.near(b@),
{
    if s < 256 {
        Move::Go(Place { p: q, loaded: at.loaded, out: cap(at.out + 1) })
    } else if s == 256 {
        Move::End(Place { p: q, loaded: at.loaded, out: at.out })
    } else {
        follow_match(off, b, at, s, q)
    }
}

/// Follows one item.
fn follow_item(lit: &Code, off: &Code, b: &[u8], from: Place) -> (r: Move)
    requires
        lit.ok(),
        usable(lit.lens@),
        off.ok(),
        usable(off.lens@),
        from.near(b@),
    ensures
        r.walk() == item_step(lit.lens@, off.lens@, b@, from.spot()),
        r.near(b@),
{
    proof {
        reveal(item_step);
    }
    let n: u128 = b.len() as u128;
    if from.loaded + 8 > n || from.p >= 8 * n {
        return Move::Fine;
    }
    let at: Place = Place { p: from.p, loaded: filled_at(from.p), out: from.out };
    match lit.read(b, at.p) {
        None => Move::Fine,
        Some((s, c)) => {
            if s < 256 && c <= 11 {
                let q: u128 = at.p + c as u128;
                match lit.read(b, q) {
                    None => Move::Fine,
                    Some((s2, c2)) => {
                        let mid: Place = Place {
                            p: at.p,
                            loaded: at.loaded,
                            out: cap(at.out + 1),
                        };
                        follow_symbol(off, b, mid, s2, q + c2 as u128)
                    },
                }
            } else {
                follow_symbol(off, b, at, s, at.p + c as u128)
            }
        },
    }
}

/// Follows all items of a block.
fn follow_items(lit: &Code, off: &Code, b: &[u8], from: Place) -> (r: Move)
    requires
        lit.ok(),
        usable(lit.lens@),
        off.ok(),
        usable(off.lens@),
        from.near(b@),
    ensures
        r.walk() == items(lit.lens@, off.lens@, b@, from.spot()),
        r.near(b@),
        !(r is Go),
{
    let n: u128 = b.len() as u128;
    let mut at: Place = from;
    loop
        invariant
            lit.ok(),
            usable(lit.lens@),
            off.ok(),
            usable(off.lens@),
            at.near(b@),
            n == b@.len(),
            n <= 0xFFFF_FFFF_FFFF_FFFF,
            items(lit.lens@, off.lens@, b@, at.spot()) == items(
                lit.lens@,
                off.lens@,
                b@,
                from.spot(),
            ),
        decreases 8 * b@.len() + 1_000_000 - at.p,
    {
        match follow_item(lit, off, b, at) {
            Move::Go(next) => {
                if at.p < next.p && at.p < 8 * n {
                    at = next;
                } else {
                    return Move::Fine;
                }
            },
            w => {
                return w;
            },
        }
    }
}

/// Follows a block with codes.
fn follow_coded(lit: &Code, off: &Code, b: &[u8], from: Place) -> (r: Move)
    requires
        lit.ok(),
        usable(lit.lens@),
        off.ok(),
        usable(off.lens@),
        from.near(b@),
    ensures
        r.walk() == coded_block(lit.lens@, off.lens@, b@, from.spot()),
        r.near(b@),
        !(r is Go),
{
    let n: u128 = b.len() as u128;
    if n <= 48 + from.loaded {
        Move::Fine
    } else {
        follow_items(
            lit,
            off,
            b,
            Place { p: from.p, loaded: filled_at(from.p), out: from.out },
        )
    }
}

/// Follows a stored block.
fn follow_stored(b: &[u8], p: u128, out: u64) -> (r: Move)
    requires
        p <= 8 * b@.len() + 100,
        out <= WINDOW,
    ensures
        r.walk() == stored_block(b@, p as int, out as int),
        r.near(b@),
        !(r is Go),
{
    let n: u128 = b.len() as u128;
    let start: u128 = (p + 7) / 8;
    proof {
        lemma_two_to(16);
    }
    let len: u64 = take_bits(b, 8 * start, 16);
    let check: u64 = take_bits(b, 8 * start + 16, 16);
    let end: u128 = start + 4 + len as u128;
    if len + check != 65535 || end > n {
        Move::Fine
    } else {
        Move::End(Place { p: 8 * end, loaded: end, out: cap(out + len) })
    }
}

fn slot_of(s: usize) -> (r: usize)
    requires
        s < 19,
    ensures
        r == header_slot(s as int),
        r < 19,
{
    if s == 16 {
        0
    } else if s == 17 {
        1
    } else if s == 18 {
        2
    } else if s == 0 {
        3
    } else if s >= 8 {
        2 * (s - 8) + 4
    } else {
        2 * (7 - s) + 5
    }
}

/// Reads the lengths of the codes that code lengths are written in.
fn read_header(b: &[u8], p: u128, n: u64) -> (r: Vec<u8>)
    requires
        p + 100 <= REACHABLE,
    ensures
        r@ == header_lens(b@, p as int, n as int),
{
    let mut r: Vec<u8> = Vec::new();
    let mut s: usize = 0;
    while s < 19
        invariant
            s <= 19,
            p + 100 <= REACHABLE,
            r@ =~= header_lens(b@, p as int, n as int).take(s as int),
        decreases 19 - s,
    {
        let slot: usize = slot_of(s);
        if (slot as u64) < n {
            let v: u64 = take_bits(b, p + 3 * slot as u128, 3);
            proof {
                lemma_two_to(3);
            }
            r.push(v as u8);
        } else {
            r.push(0);
        }
        s = s + 1;
    }
    r
}

fn push_run(lens: &mut Vec<u8>, v: u8, n: u64)
    ensures
        final(lens)@ == old(lens)@ + run(v, n as int),
{
    let ghost start = lens@;
    let mut i: u64 = 0;
    assert(start + run(v, 0) =~= start);
    while i < n
        invariant
            i <= n,
            lens@ == start + run(v, i as int),
        decreases n - i,
    {
        lens.push(v);
        assert(start + run(v, i + 1) =~= (start + run(v, i as int)).push(v));
        i = i + 1;
    }
}

/// Reads code lengths.
fn follow_lens(b: &[u8], header: &Code, from: u128, from_loaded: u128, total: usize) -> (r: Option<
    (Vec<u8>, u128, u128),
>)
    requires
        header.ok(),
        usable(header.lens@),
        from <= 8 * b@.len() + 1000,
        from_loaded <= b@.len() + 1000,
        total <= 320,
    ensures
        match r {
            None => read_lens(
                b@,
                header.lens@,
                from as int,
                from_loaded as int,
                seq![],
                total as int,
            ) is None,
            Some((lens, p, loaded)) => {
                &&& read_lens(
                    b@,
                    header.lens@,
                    from as int,
                    from_loaded as int,
                    seq![],
                    total as int,
                ) == Some((lens@, p as int, loaded as int))
                &&& total <= lens@.len() <= 500
                &&& p <= 8 * b@.len() + 20000
                &&& loaded <= b@.len() + 20000
            },
        },
{
    let n: u128 = b.len() as u128;
    let mut lens: Vec<u8> = Vec::new();
    let mut p: u128 = from;
    let mut loaded: u128 = from_loaded;
    while lens.len() < total
        invariant
            header.ok(),
            usable(header.lens@),
            n == b@.len(),
            n <= 0xFFFF_FFFF_FFFF_FFFF,
            total <= 320,
            lens@.len() <= 500,
            p <= 8 * b@.len() + 1000 + 22 * lens@.len(),
            loaded <= b@.len() + 20000,
            read_lens(
                b@,
                header.lens@,
                p as int,
                loaded as int,
                lens@,
                total as int,
            ) == read_lens(
                b@,
                header.lens@,
                from as int,
                from_loaded as int,
                seq![],
                total as int,
            ),
        decreases 500 - lens@.len(),
    {
        if 8 * loaded < p + 14 {
            if loaded + 8 > n {
                return None;
            }
        }
        let l: u128 = if 8 * loaded < p + 14 {
            filled_at(p)
        } else {
            loaded
        };
        match header.read(b, p) {
            None => {
                return None;
            },
            Some((s, c)) => {
                let q: u128 = p + c as u128;
                if s < 16 {
                    lens.push(s as u8);
                    p = q;
                } else if s == 16 {
                    if lens.len() == 0 {
                        return None;
                    }
                    let v: u8 = lens[lens.len() - 1];
                    proof {
                        lemma_two_to(2);
                    }
                    let k: u64 = 3 + take_bits(b, q, 2);
                    push_run(&mut lens, v, k);
                    p = q + 2;
                } else if s == 17 {
                    proof {
                        lemma_two_to(3);
                    }
                    let k: u64 = 3 + take_bits(b, q, 3);
                    push_run(&mut lens, 0, k);
                    p = q + 3;
                } else {
                    proof {
                        lemma_two_to(7);
                    }
                    let k: u64 = 11 + take_bits(b, q, 7);
                    push_run(&mut lens, 0, k);
                    p = q + 7;
                }
            },
        }
        loaded = l;
    }
    Some((lens, p, loaded))
}

fn subrange(v: &Vec<u8>, from: usize, to: usize) -> (r: Vec<u8>)
    requires
        from <= to <= v@.len(),
    ensures
        r@ == v@.subrange(from as int, to as int),
{
    vstd::slice::slice_to_vec(vstd::slice::slice_subrange(v.as_slice(), from, to))
}

/// The codes of a block, the position behind them and the bytes loaded.
struct OwnCodes {
    lit: Code,
    off: Code,
    p: u128,
    loaded: u128,
}

/// Reads the codes of a block that brings its own.
fn follow_own_codes(b: &[u8], p: u128, loaded: u128) -> (r: Option<OwnCodes>)
    requires
        p <= 8 * b@.len() + 100,
        loaded <= b@.len() + 100,
    ensures
        match r {
            None => own_codes(b@, p as int, loaded as int) is None,
            Some(c) => {
                &&& own_codes(b@, p as int, loaded as int) == Some(
                    (c.lit.lens@, c.off.lens@, c.p as int, c.loaded as int),
                )
                &&& c.lit.ok()
                &&& usable(c.lit.lens@)
                &&& c.off.ok()
                &&& usable(c.off.lens@)
                &&& c.p <= 8 * b@.len() + 20000
                &&& c.loaded <= b@.len() + 20000
            },
        },
{
    let size: u128 = b.len() as u128;
    proof {
        lemma_two_to(5);
        lemma_two_to(4);
        assert(two_to(5) == 32 && two_to(4) == 16) by {
            reveal_with_fuel(two_to, 6);
        }
    }
    let literals: usize = 257 + take_bits(b, p, 5) as usize;
    let offsets: usize = 1 + take_bits(b, p + 5, 5) as usize;
    let n: u64 = 4 + take_bits(b, p + 10, 4);
    let q: u128 = p + 14;
    if loaded + 8 > size || filled_at(q) + 8 > size {
        return None;
    }
    let header: Code = prepare(read_header(b, q, n));
    if !header.is_usable() {
        return None;
    }
    match follow_lens(b, &header, q + 3 * n as u128, filled_at(q + 3), literals + offsets) {
        None => None,
        Some((lens, end, l)) => {
            let lit: Code = prepare(subrange(&lens, 0, literals));
            let off: Code = prepare(subrange(&lens, literals, literals + offsets));
            if off.is_usable() && lit.is_usable() {
                Some(OwnCodes { lit, off, p: end, loaded: l })
            } else {
                None
            }
        },
    }
}

fn fixed_literal_lens() -> (r: Vec<u8>)
    ensures
        r@ == fixed_literals(),
{
    let mut r: Vec<u8> = Vec::new();
    push_run(&mut r, 8, 144);
    push_run(&mut r, 9, 112);
    push_run(&mut r, 7, 24);
    push_run(&mut r, 8, 8);
    assert(r@ =~= fixed_literals());
    r
}

fn fixed_offset_lens() -> (r: Vec<u8>)
    ensures
        r@ == fixed_offsets(),
{
    let mut r: Vec<u8> = Vec::new();
    push_run(&mut r, 5, 32);
    assert(r@ =~= fixed_offsets());
    r
}

/// Follows a block with the fixed codes.
fn follow_fixed(b: &[u8], from: Place) -> (r: Move)
    requires
        from.near(b@),
    ensures
        r.walk() == coded_block(fixed_literals(), fixed_offsets(), b@, from.spot()),
        r.near(b@),
        !(r is Go),
{
    let lit: Code = prepare(fixed_literal_lens());
    let off: Code = prepare(fixed_offset_lens());
    proof {
        lemma_fixed_codes();
    }
    follow_coded(&lit, &off, b, from)
}

/// How many of the first `k` fixed codes of literals have `n` bits.
spec fn fixed_count(k: int, n: int) -> int {
    let eights = (if k < 144 { k } else { 144 }) + (if k < 280 { 0 } else { k - 280 });
    let nines = if k < 144 {
        0
    } else if k < 256 {
        k - 144
    } else {
        112
    };
    let sevens = if k < 256 {
        0
    } else if k < 280 {
        k - 256
    } else {
        24
    };
    if n == 7 {
        sevens
    } else if n == 8 {
        eights
    } else if n == 9 {
        nines
    } else {
        0
    }
}

proof fn lemma_fixed_count(k: int, n: int)
    requires
        0 <= k <= 288,
    ensures
        with_len(fixed_literals().take(k), n).len() == fixed_count(k, n),
    decreases k,
{
    if k > 0 {
        lemma_fixed_count(k - 1, n);
        assert(fixed_literals().take(k).drop_last() =~= fixed_literals().take(k - 1));
    }
}

proof fn lemma_fixed_offset_count(k: int, n: int)
    requires
        0 <= k <= 32,
    ensures
        with_len(fixed_offsets().take(k), n).len() == if n == 5 {
            k
        } else {
            0
        },
    decreases k,
{
    if k > 0 {
        lemma_fixed_offset_count(k - 1, n);
        assert(fixed_offsets().take(k).drop_last() =~= fixed_offsets().take(k - 1));
    }
}

/// The fixed codes are complete.
proof fn lemma_fixed_codes()
    ensures
        usable(fixed_literals()),
        usable(fixed_offsets()),
{
    assert(fixed_literals().take(288) =~= fixed_literals());
    assert(fixed_offsets().take(32) =~= fixed_offsets());
    assert forall|n: int| #[trigger] with_len(fixed_literals(), n).len() == fixed_count(288, n) by {
        lemma_fixed_count(288, n);
    }
    assert forall|n: int| #[trigger] with_len(fixed_offsets(), n).len() == (if n == 5 {
        32int
    } else {
        0
    }) by {
        lemma_fixed_offset_count(32, n);
    }
    reveal_with_fuel(space, 16);
}

/// Follows one block.
fn follow_block(b: &[u8], from: Place) -> (r: Move)
    requires
        from.near(b@),
    ensures
        r.walk() == block_step(b@, from.spot()),
        r.near(b@),
        !(r is End),
{
    proof {
        reveal(block_step);
    }
    let n: u128 = b.len() as u128;
    if from.loaded + 8 > n || from.p > 8 * n {
        return Move::Fine;
    }
    let last: bool = bit_at(b, from.p) == 1;
    let kind: u64 = take_bits(b, from.p + 1, 2);
    let p: u128 = from.p + 3;
    let loaded: u128 = filled_at(from.p);
    let after: Move = if kind == 0 {
        follow_stored(b, p, from.out)
    } else if kind == 1 {
        follow_fixed(b, Place { p, loaded, out: from.out })
    } else if kind == 2 {
        match follow_own_codes(b, p, loaded) {
            None => Move::Fine,
            Some(c) => follow_coded(
                &c.lit,
                &c.off,
                b,
                Place { p: c.p, loaded: c.loaded, out: from.out },
            ),
        }
    } else {
        Move::Fine
    };
    match after {
        Move::End(next) => if last {
            Move::Fine
        } else {
            Move::Go(next)
        },
        w => w,
    }
}

/// Whether a zlib stream overtaxes the inflater.
pub fn overtaxes(z: &[u8]) -> (r: bool)
    ensures
        r == overtaxing(z@),
{
    if z.len() < 6 || z[0] % 16 != 8 || z[0] / 16 > 7 || (z[0] as u32 * 256 + z[1] as u32) % 31
        != 0 {
        return false;
    }
    let b: &[u8] = vstd::slice::slice_subrange(z, 2, z.len());
    assert(b@ =~= z@.skip(2));
    let n: u128 = b.len() as u128;
    let from: Place = Place { p: 0, loaded: 0, out: 0 };
    let mut at: Place = from;
    loop
        invariant
            at.near(b@),
            n == b@.len(),
            n <= 0xFFFF_FFFF_FFFF_FFFF,
            b@ == z@.skip(2),
            z@.len() >= 6,
            z@[0] % 16 == 8,
            z@[0] / 16 <= 7,
            (z@[0] * 256 + z@[1]) % 31 == 0,
            from.spot() == (Spot { p: 0, loaded: 0, out: 0 }),
            blocks(b@, at.spot()) == blocks(b@, from.spot()),
        decreases 8 * b@.len() + 1_000_000 - at.p,
    {
        match follow_block(b, at) {
            Move::Go(next) => {
                if at.p < next.p && at.p < 8 * n {
                    at = next;
                } else {
                    return false;
                }
            },
            Move::Burst => {
                return true;
            },
            _ => {
                return false;
            },
        }
    }
}

/// A number of bits is a shorter number and the bits above it.
pub proof fn law_bits_add_up(b: Seq<u8>, p: int, n: int, m: int)
    requires
        0 <= n,
        0 <= m,
    ensures
        take(b, p, n + m) == take(b, p, n) + two_to(n) * take(b, p + n, m),
    decreases n,
{
    if n == 0 {
        assert(two_to(0) * take(b, p, m) == take(b, p, m)) by (nonlinear_arith)
            requires
                two_to(0) == 1,
        ;
    } else {
        law_bits_add_up(b, p + 1, n - 1, m);
        let t = two_to(n - 1);
        let u = take(b, p + n, m);
        assert(two_to(n) * u == 2 * (t * u)) by (nonlinear_arith)
            requires
                two_to(n) == 2 * t,
        ;
    }
}

/// Eight bits that start where a byte starts are that byte.
pub proof fn law_bytes_of_bits(b: Seq<u8>, i: int)
    requires
        0 <= i < b.len(),
    ensures
        take(b, 8 * i, 8) == b[i],
{
    reveal_with_fuel(take, 9);
    let v = b[i];
    assert(v == ((v >> 0) & 1) + 2 * ((v >> 1) & 1) + 4 * ((v >> 2) & 1) + 8 * ((v >> 3) & 1) + 16
        * ((v >> 4) & 1) + 32 * ((v >> 5) & 1) + 64 * ((v >> 6) & 1) + 128 * ((v >> 7) & 1))
        by (bit_vector);
}

/// The lengths of the length symbols follow each other without a gap, from 3 up to
/// the largest, 258, which has a symbol of its own.
pub proof fn law_lengths_leave_no_gap(s: int)
    requires
        257 <= s <= 285,
    ensures
        s == 257 ==> length_base(s) == 3,
        s == 285 ==> length_base(s) == 258 && length_extra(s) == 0,
        s < 284 ==> length_base(s + 1) == length_base(s) + two_to(length_extra(s)),
        s == 284 ==> length_base(s) + two_to(length_extra(s)) == 259,
{
    let e = length_extra(s);
    let t = two_to(e);
    let m = (s - 261) % 4;
    reveal_with_fuel(two_to, 7);
    if s == 264 {
        assert((4 + (265 - 261) % 4) * two_to(length_extra(265)) == 8) by (nonlinear_arith)
            requires
                two_to(length_extra(265)) == 2,
        ;
    } else if s == 284 {
        assert((4 + m) * t == 224) by (nonlinear_arith)
            requires
                m == 3,
                t == 32,
        ;
    } else if 265 <= s < 284 {
        let next = (4 + (s + 1 - 261) % 4) * two_to(length_extra(s + 1));
        if m == 3 {
            assert(length_extra(s + 1) == e + 1);
            assert(two_to(e + 1) == 2 * t);
            assert(next == (4 + m) * t + t) by (nonlinear_arith)
                requires
                    m == 3,
                    next == (4 + 0) * (2 * t),
            ;
        } else {
            assert(length_extra(s + 1) == e);
            assert(next == (4 + m) * t + t) by (nonlinear_arith)
                requires
                    next == (4 + (m + 1)) * t,
            ;
        }
    }
}

/// The offsets of the offset symbols follow each other without a gap, from 1 up to
/// the window's size.
pub proof fn law_offsets_leave_no_gap(s: int)
    requires
        0 <= s <= 29,
    ensures
        s == 0 ==> offset_base(s) == 1,
        s < 29 ==> offset_base(s + 1) == offset_base(s) + two_to(offset_extra(s)),
        s == 29 ==> offset_base(s) + two_to(offset_extra(s)) == 32769,
{
    let e = offset_extra(s);
    let t = two_to(e);
    let next = (2 + (s + 1) % 2) * two_to(offset_extra(s + 1));
    reveal_with_fuel(two_to, 15);
    if s == 3 {
        assert(next == 4) by (nonlinear_arith)
            requires
                next == (2 + 0) * two_to(1),
                two_to(1) == 2,
        ;
    } else if s == 28 {
        assert((2 + s % 2) * t == 16384) by (nonlinear_arith)
            requires
                s == 28,
                t == 8192,
        ;
    } else if 4 <= s < 28 && s % 2 == 1 {
        assert(offset_extra(s + 1) == e + 1);
        assert(two_to(e + 1) == 2 * t);
        assert(next == (2 + s % 2) * t + t) by (nonlinear_arith)
            requires
                s % 2 == 1,
                next == (2 + 0) * (2 * t),
        ;
    } else if 4 <= s < 28 {
        assert(offset_extra(s + 1) == e);
        assert(next == (2 + s % 2) * t + t) by (nonlinear_arith)
            requires
                s % 2 == 0,
                next == (2 + 1) * t,
        ;
    }
}

/// The code lengths' own code lengths stand in a fixed order: those of the
/// repetitions and of zero first, and then those of the other lengths, from the
/// middle outwards.
pub proof fn law_header_order(i: int)
    requires
        0 <= i < 19,
    ensures
        ({
            let order = seq![
                16int, 17, 18, 0, 8, 7, 9, 6, 10, 5, 11, 4, 12, 3, 13, 2, 14, 1, 15,
            ];
            header_slot(order[i]) == i
        }),
{
}

/// A stored block holds its length in two bytes, and in two more the complement of
/// it; behind its bytes comes the next block.
pub proof fn law_stored_block(b: Seq<u8>, start: int, len: int, out: int)
    requires
        0 <= start,
        0 <= len,
        start + 4 + len <= b.len(),
        b[start] + 256 * b[start + 1] == len,
        b[start + 2] + 256 * b[start + 3] == 65535 - len,
    ensures
        stored_block(b, 8 * start, out) matches Walk::End(next) && next.p == 8 * (start + 4 + len)
            && next.loaded == start + 4 + len && next.out == capped(out + len),
{
    lemma_two_bytes(b, start);
    lemma_two_bytes(b, start + 2);
}

proof fn lemma_two_bytes(b: Seq<u8>, i: int)
    requires
        0 <= i,
        i + 1 < b.len(),
    ensures
        take(b, 8 * i, 16) == b[i] + 256 * b[i + 1],
{
    law_bits_add_up(b, 8 * i, 8, 8);
    law_bytes_of_bits(b, i);
    law_bytes_of_bits(b, i + 1);
    assert(8 * i + 8 == 8 * (i + 1));
    assert(two_to(8) == 256) by {
        reveal_with_fuel(two_to, 9);
    }
}

/// Bytes that are no zlib stream do not overtax the inflater, since it does not
/// begin with them.
pub proof fn law_no_zlib_stream(z: Seq<u8>)
    ensures
        z.len() < 6 ==> !overtaxing(z),
        z.len() >= 2 && z[0] % 16 != 8 ==> !overtaxing(z),
        z.len() >= 2 && (256 * z[0] + z[1]) % 31 != 0 ==> !overtaxing(z),
        z.len() >= 2 && z[0] >= 128 ==> !overtaxing(z),
{
}

/// The inflater hurries only where more than 48 bytes are left, so that a short
/// stream does not overtax it.
pub proof fn law_short_streams_are_harmless(z: Seq<u8>)
    requires
        z.len() <= 50,
    ensures
        !overtaxing(z),
{
    if z.len() >= 2 {
        lemma_short_blocks(z.skip(2), Spot { p: 0, loaded: 0, out: 0 });
    }
}

proof fn lemma_take(b: Seq<u8>, p: int, n: int)
    ensures
        0 <= take(b, p, n),
    decreases n,
{
    if n > 0 {
        lemma_take(b, p + 1, n - 1);
    }
}

proof fn lemma_found(lens: Seq<u8>, b: Seq<u8>, p: int, n: int, code: int, first: int)
    requires
        1 <= n,
    ensures
        find(lens, b, p, n, code, first) matches Some((_, c)) ==> 1 <= c,
    decreases 16 - n,
{
    if n <= 15 {
        let c = code + bit(b, p + n - 1);
        let same = with_len(lens, n);
        if !(first <= c < first + same.len()) {
            lemma_found(lens, b, p, n + 1, 2 * c, 2 * (first + same.len()));
        }
    }
}

proof fn lemma_lens_loaded(
    b: Seq<u8>,
    header: Seq<u8>,
    p: int,
    loaded: int,
    lens: Seq<u8>,
    total: int,
)
    requires
        0 <= p,
        0 <= loaded,
    ensures
        read_lens(b, header, p, loaded, lens, total) matches Some((_, q, l)) ==> 0 <= q && 0 <= l,
    decreases units::greatest(0, total - lens.len()),
{
    if lens.len() < total && !(8 * loaded - p < 14 && loaded + 8 > b.len()) {
        let l = if 8 * loaded - p < 14 {
            filled(p)
        } else {
            loaded
        };
        lemma_found(header, b, p, 1, 0, 0);
        if let Some((s, c)) = symbol(header, b, p) {
            lemma_take(b, p + c, 2);
            lemma_take(b, p + c, 3);
            lemma_take(b, p + c, 7);
            if s < 16 {
                lemma_lens_loaded(b, header, p + c, l, lens.push(s as u8), total);
            } else if s == 16 {
                if lens.len() > 0 {
                    let n = 3 + take(b, p + c, 2);
                    lemma_lens_loaded(b, header, p + c + 2, l, lens + run(lens.last(), n), total);
                }
            } else if s == 17 {
                let n = 3 + take(b, p + c, 3);
                lemma_lens_loaded(b, header, p + c + 3, l, lens + run(0, n), total);
            } else {
                let n = 11 + take(b, p + c, 7);
                lemma_lens_loaded(b, header, p + c + 7, l, lens + run(0, n), total);
            }
        }
    }
}

proof fn lemma_short_blocks(b: Seq<u8>, from: Spot)
    requires
        b.len() <= 48,
        0 <= from.loaded,
        0 <= from.p,
    ensures
        !(blocks(b, from) is Burst),
    decreases units::greatest(0, 8 * b.len() - from.p),
{
    reveal(block_step);
    let p = from.p + 3;
    let n = 4 + take(b, p + 10, 4);
    let start = (p + 7) / 8;
    lemma_take(b, p + 10, 4);
    lemma_take(b, 8 * start, 16);
    lemma_lens_loaded(
        b,
        header_lens(b, p + 14, n),
        p + 14 + 3 * n,
        filled(p + 17),
        seq![],
        257 + take(b, p, 5) + (1 + take(b, p + 5, 5)),
    );
    match block_step(b, from) {
        Walk::Go(next) => {
            if from.p < next.p && from.p < 8 * b.len() {
                lemma_short_blocks(b, next);
            }
        },
        _ => {},
    }
}

/// The symbols of a length are exactly those that have it, each once and in
/// ascending order.
pub proof fn law_symbols_of_a_length(lens: Seq<u8>, n: int)
    ensures
        forall|i: int|
            0 <= i < with_len(lens, n).len() ==> 0 <= #[trigger] with_len(lens, n)[i] < lens.len()
                && lens[with_len(lens, n)[i]] == n,
        forall|s: int| 0 <= s < lens.len() && #[trigger] lens[s] == n ==> with_len(lens, n).contains(
            s,
        ),
        forall|i: int, j: int|
            0 <= i < j < with_len(lens, n).len() ==> #[trigger] with_len(lens, n)[i]
                < #[trigger] with_len(lens, n)[j],
    decreases lens.len(),
{
    if lens.len() > 0 {
        let rest = lens.drop_last();
        law_symbols_of_a_length(rest, n);
        let w = with_len(lens, n);
        let v = with_len(rest, n);
        assert forall|i: int| 0 <= i < w.len() implies 0 <= #[trigger] w[i] < lens.len()
            && lens[w[i]] == n by {
            if i < v.len() {
                assert(w[i] == v[i]);
                assert(rest[v[i]] == lens[v[i]]);
            }
        }
        assert forall|s: int| 0 <= s < lens.len() && #[trigger] lens[s] == n implies w.contains(
            s,
        ) by {
            if s < rest.len() {
                assert(rest[s] == n);
                let i = choose|i: int| 0 <= i < v.len() && v[i] == s;
                assert(w[i] == s);
            } else {
                assert(w[w.len() - 1] == s);
            }
        }
        assert forall|i: int, j: int| 0 <= i < j < w.len() implies #[trigger] w[i]
            < #[trigger] w[j] by {
            assert(w[i] == v[i]);
            if j < v.len() {
                assert(w[j] == v[j]);
            }
        }
    }
}

/// A symbol that is read has a code of its own length.
pub proof fn law_symbol_has_its_length(
    lens: Seq<u8>,
    b: Seq<u8>,
    p: int,
    n: int,
    code: int,
    first: int,
)
    requires
        1 <= n,
    ensures
        find(lens, b, p, n, code, first) matches Some((s, c)) ==> 0 <= s < lens.len() && lens[s] == c
            && n <= c <= 15,
    decreases 16 - n,
{
    if n <= 15 {
        let c = code + bit(b, p + n - 1);
        let same = with_len(lens, n);
        law_symbols_of_a_length(lens, n);
        if !(first <= c < first + same.len()) {
            law_symbol_has_its_length(lens, b, p, n + 1, 2 * c, 2 * (first + same.len()));
        }
    }
}

/// The fixed codes are complete. Literals up to 143 and the last eight symbols have
/// eight bits, the other literals nine, the end of a block and the shorter lengths
/// seven; every offset has five.
pub proof fn law_fixed_codes(s: int)
    ensures
        usable(fixed_literals()),
        usable(fixed_offsets()),
        fixed_literals().len() == 288,
        fixed_offsets().len() == 32,
        0 <= s <= 143 ==> fixed_literals()[s] == 8,
        144 <= s <= 255 ==> fixed_literals()[s] == 9,
        256 <= s <= 279 ==> fixed_literals()[s] == 7,
        280 <= s <= 287 ==> fixed_literals()[s] == 8,
        0 <= s <= 31 ==> fixed_offsets()[s] == 5,
{
    lemma_fixed_codes();
}

/// A literal puts out one byte, and the end of a block none.
pub proof fn law_literals(off: Seq<u8>, b: Seq<u8>, at: Spot, s: int, q: int)
    requires
        0 <= at.out < 32768,
    ensures
        s < 256 ==> symbol_step(off, b, at, s, q) == Walk::Go(
            Spot { p: q, loaded: at.loaded, out: at.out + 1 },
        ),
        s == 256 ==> symbol_step(off, b, at, s, q) == Walk::End(
            Spot { p: q, loaded: at.loaded, out: at.out },
        ),
{
}

/// A match overtaxes the inflater exactly if its bits were not loaded, or if nothing
/// is left to load after it while fewer than eleven bits are. A match that reaches
/// back before the output is an error instead, if its bits were there.
pub proof fn law_match(
    off: Seq<u8>,
    b: Seq<u8>,
    at: Spot,
    s: int,
    q: int,
    d: int,
    c: int,
    left: int,
)
    requires
        symbol(off, b, q + length_extra(s)) == Some((d, c)),
        left == 8 * at.loaded - (q + length_extra(s) + c + offset_extra(d)),
    ensures
        ({
            let w = match_step(off, b, at, s, q);
            let offset = offset_base(d) + take(b, q + length_extra(s) + c, offset_extra(d));
            &&& w is Burst <==> left < 0 || offset <= at.out && left < 11 && at.loaded + 8 > b.len()
            &&& w is Fine <==> left >= 0 && offset > at.out
            &&& w matches Walk::Go(next) ==> next.p == 8 * at.loaded - left && next.out == capped(
                at.out + length_base(s) + take(b, q, length_extra(s)),
            )
        }),
{
}

} // verus!
