//! The chunks of a PNG file, as the decoder `zune-png` comes across them, and
//! what among them the decoder cannot be trusted with.
//!
//! The decoder takes up to three runs at the chunks before it inflates the image
//! data. A run ends at the last chunk, or with the chunks of one animation frame.

use crate::deflate::{self, overtaxes};
use crate::units;
use vstd::prelude::*;

verus! {

pub const IHDR: u32 = 0x4948_4452;

pub const PLTE: u32 = 0x504C_5445;

pub const IDAT: u32 = 0x4944_4154;

pub const IEND: u32 = 0x4945_4E44;

pub const TRNS: u32 = 0x7452_4E53;

pub const GAMA: u32 = 0x6741_4D41;

pub const ICCP: u32 = 0x6943_4350;

pub const ITXT: u32 = 0x6954_5874;

pub const ZTXT: u32 = 0x7A54_5874;

pub const ACTL: u32 = 0x6163_544C;

pub const FCTL: u32 = 0x6663_544C;

pub const FDAT: u32 = 0x6664_4154;

/// The big-endian number in the four bytes from `p` on.
pub open spec fn be32(b: Seq<u8>, p: int) -> int {
    b[p] * 0x100_0000 + b[p + 1] * 0x1_0000 + b[p + 2] * 0x100 + b[p + 3]
}

/// The length of a chunk's keyword: the first zero from `i` on among the first 79
/// bytes of the chunk, whose `n` bytes start at `d`.
pub open spec fn keyword_len(b: Seq<u8>, d: int, n: int, i: int) -> Option<int>
    decreases 79 - i,
{
    if i >= n || i >= 79 {
        None
    } else if b[d + i] == 0 {
        Some(i)
    } else {
        keyword_len(b, d, n, i + 1)
    }
}

/// The zlib stream in a chunk that holds a keyword, a byte for the method and a
/// compressed text or profile.
pub open spec fn packed(b: Seq<u8>, d: int, n: int) -> Option<Seq<u8>> {
    match keyword_len(b, d, n, 0) {
        None => None,
        Some(k) => Some(
            b.subrange(
                d + k + 2,
                if n >= k + 2 {
                    d + n
                } else {
                    d + k + 2
                },
            ),
        ),
    }
}

/// Where the decoder looks for the next chunk, after one whose `n` bytes start at
/// `d`. It goes by the length that it expects of some
/// chunks, and not by the one they have.
pub open spec fn next_chunk(b: Seq<u8>, kind: int, d: int, n: int) -> int {
    let keyword = keyword_len(b, d, n, 0);
    if kind == PLTE && n / 3 > 256 {
        d + 772
    } else if kind == PLTE {
        d + n / 3 * 3 + 4
    } else if kind == TRNS && b[25] == 0 {
        d + 6
    } else if kind == TRNS && b[25] == 2 {
        d + 10
    } else if kind == GAMA {
        d + 8
    } else if kind == ACTL && n != 8 {
        d + n + 16
    } else if (kind == ICCP || kind == ZTXT) && keyword is Some && n < keyword->Some_0 + 2 {
        d + keyword->Some_0 + 6
    } else if kind == ITXT && keyword is Some && n < keyword->Some_0 + 5 {
        d + keyword->Some_0 + 9
    } else {
        d + n + 4
    }
}

/// How far the chunks were followed.
pub struct Trail {
    pub pos: int,
    /// How many runs are left, the present one included.
    pub runs: int,
    /// A frame's chunk was met, and nothing came after it yet.
    pub framed: bool,
    pub fresh: bool,
    /// The size of the frame that was met last.
    pub frame_w: int,
    pub frame_h: int,
    /// The size in which the image data is taken: that of the image, or of the
    /// frame that its last chunk belongs to.
    pub own_w: int,
    pub own_h: int,
    /// A frame beside the image was opened.
    pub extra: bool,
    /// The image was given a transparent colour in the first run, or only after
    /// it, when the room for the samples is already measured out.
    pub clear: bool,
    pub recolored: bool,
    /// The image data so far.
    pub data: Seq<u8>,
}

/// What following the chunks led to.
pub enum Scan {
    /// To an objection of the decoder: nothing is inflated.
    Stop,
    /// To a frame that the decoder cannot be trusted with: the image's own, in a
    /// size that it does not fit in, or one without its sequence number.
    Frame,
    /// To a compressed text or profile that overtaxes the inflater.
    Stream,
    /// To the image data.
    Data(Seq<u8>),
}

/// One chunk led to an end, or on to the next one.
pub enum Step {
    Over(Scan),
    On(Trail),
}

/// Image data in the size `w` by `h` fits in the room for the image. A frame
/// without rows counts as one row. Interlaced rows are spread out in the image's
/// own width, so that only the first row of a narrower frame has its place.
pub open spec fn frame_fits(b: Seq<u8>, w: int, h: int) -> bool {
    &&& w * units::greatest(h, 1) <= be32(b, 16) * be32(b, 20)
    &&& b[28] == 0 || w >= be32(b, 16) || h <= 1
}

/// All chunks that count were met.
pub open spec fn finished(b: Seq<u8>, at: Trail) -> Scan {
    let whole = at.own_w == be32(b, 16) && at.own_h == be32(b, 20);
    if whole || (frame_fits(b, at.own_w, at.own_h) && !at.recolored) {
        Scan::Data(at.data)
    } else {
        Scan::Frame
    }
}

/// What a chunk of image data leads to. It counts in the size of the frame that
/// was met before it, if there was one.
pub open spec fn data_step(b: Seq<u8>, at: Trail, d: int, n: int) -> Trail {
    Trail {
        pos: d + n + 4,
        fresh: false,
        own_w: if at.framed {
            at.frame_w
        } else {
            at.own_w
        },
        own_h: if at.framed {
            at.frame_h
        } else {
            at.own_h
        },
        data: at.data + b.subrange(d, d + n),
        ..at
    }
}

/// What a chunk of a frame's data leads to. It opens a frame where it comes right
/// behind the frame's own chunk, and goes to the image where none was opened.
pub open spec fn frame_data_step(b: Seq<u8>, at: Trail, d: int, n: int) -> Trail {
    Trail {
        pos: d + n + 4,
        fresh: false,
        extra: at.extra || at.fresh,
        data: if at.extra || at.fresh {
            at.data
        } else {
            at.data + b.subrange(d + 4, d + n)
        },
        ..at
    }
}

/// What one chunk leads to, whose `n` bytes start at `d`.
pub open spec fn chunk_step(b: Seq<u8>, at: Trail, kind: int, d: int, n: int) -> Step {
    if kind == IEND {
        Step::Over(finished(b, at))
    } else if kind == FCTL && at.framed && at.runs <= 1 {
        Step::Over(finished(b, at))
    } else if kind == FCTL && n != 26 {
        Step::Over(Scan::Stop)
    } else if kind == FCTL {
        Step::On(
            Trail {
                pos: d + 30,
                runs: if at.framed {
                    at.runs - 1
                } else {
                    at.runs
                },
                framed: true,
                fresh: true,
                frame_w: be32(b, d + 4),
                frame_h: be32(b, d + 8),
                ..at
            },
        )
    } else if kind == IDAT {
        Step::On(data_step(b, at, d, n))
    } else if kind == FDAT && at.framed && n < 4 {
        Step::Over(Scan::Frame)
    } else if kind == FDAT && at.framed {
        Step::On(frame_data_step(b, at, d, n))
    } else if (kind == ICCP || kind == ZTXT) && packed(b, d, n) is Some && deflate::overtaxing(
        packed(b, d, n)->Some_0,
    ) {
        Step::Over(Scan::Stream)
    } else if kind == IHDR && (at.pos != 8 || n != 13) {
        Step::Over(Scan::Stop)
    } else {
        Step::On(
            Trail {
                pos: next_chunk(b, kind, d, n),
                fresh: false,
                clear: at.clear || (kind == TRNS && at.runs == 3),
                recolored: at.recolored || (kind == TRNS && at.runs != 3 && !at.clear),
                ..at
            },
        )
    }
}

/// What the chunk at hand leads to.
#[verifier::opaque]
pub open spec fn scan_step(b: Seq<u8>, at: Trail) -> Step {
    let d = at.pos + 8;
    let n = be32(b, at.pos);
    if at.pos < 8 || d + 4 > b.len() || d + n + 4 > b.len() {
        Step::Over(Scan::Stop)
    } else {
        chunk_step(b, at, be32(b, at.pos + 4), d, n)
    }
}

/// Follows the chunks.
pub open spec fn scan(b: Seq<u8>, at: Trail) -> Scan
    decreases units::greatest(0, b.len() - at.pos),
{
    match scan_step(b, at) {
        Step::Over(found) => found,
        Step::On(next) => if at.pos < next.pos && at.pos < b.len() {
            scan(b, next)
        } else {
            Scan::Stop
        },
    }
}

/// Follows the chunks of a whole file, which has to start with that of the
/// image's dimensions.
pub open spec fn scanned(b: Seq<u8>) -> Scan {
    if b.len() < 33 || be32(b, 12) != IHDR {
        Scan::Stop
    } else {
        scan(
            b,
            Trail {
                pos: 8,
                runs: 3,
                framed: false,
                fresh: false,
                frame_w: 0,
                frame_h: 0,
                own_w: be32(b, 16),
                own_h: be32(b, 20),
                extra: false,
                clear: false,
                recolored: false,
                data: seq![],
            },
        )
    }
}

/// What the decoder cannot be trusted with.
#[derive(Debug, Clone, Copy, PartialEq, Eq, Structural)]
pub enum Hazard {
    /// An animation frame.
    Frame,
    /// A compressed stream.
    Stream,
}

/// What there is in a file that the decoder cannot be trusted with.
pub open spec fn hazard(b: Seq<u8>) -> Option<Hazard> {
    match scanned(b) {
        Scan::Stop => None,
        Scan::Frame => Some(Hazard::Frame),
        Scan::Stream => Some(Hazard::Stream),
        Scan::Data(z) => if deflate::overtaxing(z) {
            Some(Hazard::Stream)
        } else {
            None
        },
    }
}

fn read_be32(b: &[u8], p: usize) -> (r: u32)
    requires
        p + 4 <= b@.len(),
    ensures
        r == be32(b@, p as int),
{
    b[p] as u32 * 0x100_0000 + b[p + 1] as u32 * 0x1_0000 + b[p + 2] as u32 * 0x100 + b[p
        + 3] as u32
}

fn find_keyword(b: &[u8], d: usize, n: usize) -> (r: Option<usize>)
    requires
        d + n <= b@.len(),
    ensures
        match r {
            None => keyword_len(b@, d as int, n as int, 0) is None,
            Some(k) => keyword_len(b@, d as int, n as int, 0) == Some(k as int) && k < n && k < 79,
        },
{
    let len: usize = b.len();
    let mut i: usize = 0;
    while i < n && i < 79
        invariant
            len == b@.len(),
            d + n <= len,
            i <= n,
            i <= 79,
            keyword_len(b@, d as int, n as int, 0) == keyword_len(
                b@,
                d as int,
                n as int,
                i as int,
            ),
        decreases 79 - i,
    {
        if b[d + i] == 0 {
            return Some(i);
        }
        i = i + 1;
    }
    None
}

/// Where the next chunk is looked for.
fn find_next(b: &[u8], kind: u32, d: usize, n: usize) -> (r: u128)
    requires
        d + n + 4 <= b@.len(),
        b@.len() >= 33,
    ensures
        r == next_chunk(b@, kind as int, d as int, n as int),
{
    let keyword: Option<usize> = find_keyword(b, d, n);
    let (named, k): (bool, u128) = match keyword {
        Some(k) => (true, k as u128),
        None => (false, 0),
    };
    let start: u128 = d as u128;
    let len: u128 = n as u128;
    if kind == PLTE && n / 3 > 256 {
        start + 772
    } else if kind == PLTE {
        start + len / 3 * 3 + 4
    } else if kind == TRNS && b[25] == 0 {
        start + 6
    } else if kind == TRNS && b[25] == 2 {
        start + 10
    } else if kind == GAMA {
        start + 8
    } else if kind == ACTL && n != 8 {
        start + len + 16
    } else if (kind == ICCP || kind == ZTXT) && named && len < k + 2 {
        start + k + 6
    } else if kind == ITXT && named && len < k + 5 {
        start + k + 9
    } else {
        start + len + 4
    }
}

/// Whether the chunk's compressed stream, if it has one, overtaxes the inflater.
fn overtaxes_packed(b: &[u8], d: usize, n: usize) -> (r: bool)
    requires
        d + n + 4 <= b@.len(),
    ensures
        r == (packed(b@, d as int, n as int) is Some && deflate::overtaxing(
            packed(b@, d as int, n as int)->Some_0,
        )),
{
    let len: usize = b.len();
    assert(d + n + 4 <= len);
    match find_keyword(b, d, n) {
        None => false,
        Some(k) => {
            let end: usize = if n >= k + 2 {
                d + n
            } else {
                d + k + 2
            };
            overtaxes(vstd::slice::slice_subrange(b, d + k + 2, end))
        },
    }
}

fn append(out: &mut Vec<u8>, tail: &[u8])
    ensures
        final(out)@ == old(out)@ + tail@,
{
    let ghost start = out@;
    let mut i: usize = 0;
    assert(start + tail@.take(0) =~= start);
    while i < tail.len()
        invariant
            i <= tail@.len(),
            out@ == start + tail@.take(i as int),
        decreases tail@.len() - i,
    {
        out.push(tail[i]);
        assert(start + tail@.take(i + 1) =~= (start + tail@.take(i as int)).push(tail@[i as int]));
        i = i + 1;
    }
    assert(tail@.take(i as int) =~= tail@);
}

/// How far the chunks were followed.
struct Progress {
    pos: usize,
    runs: u8,
    framed: bool,
    fresh: bool,
    frame_w: u32,
    frame_h: u32,
    own_w: u32,
    own_h: u32,
    extra: bool,
    clear: bool,
    recolored: bool,
    data: Vec<u8>,
}

impl Progress {
    spec fn trail(self) -> Trail {
        Trail {
            pos: self.pos as int,
            runs: self.runs as int,
            framed: self.framed,
            fresh: self.fresh,
            frame_w: self.frame_w as int,
            frame_h: self.frame_h as int,
            own_w: self.own_w as int,
            own_h: self.own_h as int,
            extra: self.extra,
            clear: self.clear,
            recolored: self.recolored,
            data: self.data@,
        }
    }

    spec fn ok(self) -> bool {
        &&& 8 <= self.pos
        &&& self.runs >= 1
    }
}

/// What following the chunks led to.
enum Found {
    Stop,
    Frame,
    Stream,
    Data(Vec<u8>),
}

impl Found {
    spec fn seen(self) -> Scan {
        match self {
            Found::Stop => Scan::Stop,
            Found::Frame => Scan::Frame,
            Found::Stream => Scan::Stream,
            Found::Data(z) => Scan::Data(z@),
        }
    }
}

enum Turn {
    Over(Found),
    On(Progress),
}

/// The next chunk is looked for at `pos`, which may lie behind the last byte.
fn go_on(b: &[u8], pos: u128, at: Progress) -> (r: Turn)
    ensures
        match r {
            Turn::Over(found) => found is Stop && pos > b@.len(),
            Turn::On(next) => {
                &&& pos <= b@.len()
                &&& next.trail() == (Trail { pos: pos as int, ..at.trail() })
            },
        },
{
    if pos > b.len() as u128 {
        Turn::Over(Found::Stop)
    } else {
        Turn::On(Progress { pos: pos as usize, ..at })
    }
}

/// Behind the last byte there is no chunk.
proof fn lemma_behind(b: Seq<u8>, at: Trail)
    requires
        at.pos > b.len(),
    ensures
        scan(b, at) is Stop,
{
    reveal(scan_step);
    assert(be32(b, at.pos) >= 0);
}

/// Follows one chunk.
fn follow_chunk(b: &[u8], at: Progress) -> (r: Turn)
    requires
        at.ok(),
        b@.len() >= 33,
    ensures
        match r {
            Turn::Over(found) => scan(b@, at.trail()) == found.seen(),
            Turn::On(next) => {
                &&& scan(b@, at.trail()) == scan(b@, next.trail())
                &&& next.ok()
                &&& at.pos < next.pos <= b@.len()
            },
        },
{
    proof {
        reveal(scan_step);
    }
    let len: usize = b.len();
    if at.pos > len || len - at.pos < 12 {
        assert(be32(b@, at.pos as int) >= 0);
        return Turn::Over(Found::Stop);
    }
    let d: usize = at.pos + 8;
    let n32: u32 = read_be32(b, at.pos);
    let kind: u32 = read_be32(b, at.pos + 4);
    if n32 as u64 + 4 > (len - d) as u64 {
        return Turn::Over(Found::Stop);
    }
    let n: usize = n32 as usize;
    assert(scan_step(b@, at.trail()) == chunk_step(
        b@,
        at.trail(),
        kind as int,
        d as int,
        n as int,
    ));
    if kind == IEND || (kind == FCTL && at.framed && at.runs <= 1) {
        return Turn::Over(finish(b, at));
    }
    if kind == FCTL {
        if n != 26 {
            return Turn::Over(Found::Stop);
        }
        let runs: u8 = if at.framed {
            at.runs - 1
        } else {
            at.runs
        };
        let frame_w: u32 = read_be32(b, d + 4);
        let frame_h: u32 = read_be32(b, d + 8);
        return Turn::On(
            Progress { pos: d + 30, runs, framed: true, fresh: true, frame_w, frame_h, ..at },
        );
    }
    if kind == IDAT {
        return Turn::On(follow_data(b, at, d, n));
    }
    if kind == FDAT && at.framed {
        if n < 4 {
            return Turn::Over(Found::Frame);
        }
        return Turn::On(follow_frame_data(b, at, d, n));
    }
    if (kind == ICCP || kind == ZTXT) && overtaxes_packed(b, d, n) {
        return Turn::Over(Found::Stream);
    }
    if kind == IHDR && (at.pos != 8 || n != 13) {
        return Turn::Over(Found::Stop);
    }
    let next: u128 = find_next(b, kind, d, n);
    let clear: bool = at.clear || (kind == TRNS && at.runs == 3);
    let recolored: bool = at.recolored || (kind == TRNS && at.runs != 3 && !at.clear);
    let after: Progress = Progress { fresh: false, clear, recolored, ..at };
    proof {
        if next > len {
            lemma_behind(b@, Trail { pos: next as int, ..after.trail() });
        }
    }
    go_on(b, next, after)
}

/// Decides on the image data once all chunks that count were met.
fn finish(b: &[u8], at: Progress) -> (r: Found)
    requires
        b@.len() >= 33,
    ensures
        r.seen() == finished(b@, at.trail()),
{
    let w: u32 = read_be32(b, 16);
    let h: u32 = read_be32(b, 20);
    if at.own_w == w && at.own_h == h {
        return Found::Data(at.data);
    }
    let rows: u32 = if at.own_h == 0 {
        1
    } else {
        at.own_h
    };
    let own_w: u32 = at.own_w;
    assert(0 <= own_w * rows <= 0xFFFF_FFFF * 0xFFFF_FFFF && 0 <= w * h <= 0xFFFF_FFFF
        * 0xFFFF_FFFF) by (nonlinear_arith)
        requires
            0 <= own_w <= 0xFFFF_FFFF,
            0 <= rows <= 0xFFFF_FFFF,
            0 <= w <= 0xFFFF_FFFF,
            0 <= h <= 0xFFFF_FFFF,
    ;
    let fits: bool = own_w as u64 * rows as u64 <= w as u64 * h as u64 && (b[28] == 0 || own_w >= w
        || at.own_h <= 1);
    if fits && !at.recolored {
        Found::Data(at.data)
    } else {
        Found::Frame
    }
}

/// Takes a chunk of image data.
fn follow_data(b: &[u8], at: Progress, d: usize, n: usize) -> (r: Progress)
    requires
        d + n + 4 <= b@.len(),
        at.ok(),
    ensures
        r.trail() == data_step(b@, at.trail(), d as int, n as int),
        r.runs == at.runs,
        r.pos == d + n + 4,
{
    let len: usize = b.len();
    assert(d + n + 4 <= len);
    let (own_w, own_h): (u32, u32) = if at.framed {
        (at.frame_w, at.frame_h)
    } else {
        (at.own_w, at.own_h)
    };
    let mut data: Vec<u8> = at.data;
    append(&mut data, vstd::slice::slice_subrange(b, d, d + n));
    Progress { pos: d + n + 4, fresh: false, own_w, own_h, data, ..at }
}

/// Takes a chunk of a frame's data.
fn follow_frame_data(b: &[u8], at: Progress, d: usize, n: usize) -> (r: Progress)
    requires
        d + n + 4 <= b@.len(),
        n >= 4,
        at.ok(),
    ensures
        r.trail() == frame_data_step(b@, at.trail(), d as int, n as int),
        r.runs == at.runs,
        r.pos == d + n + 4,
{
    let len: usize = b.len();
    assert(d + n + 4 <= len);
    let extra: bool = at.extra || at.fresh;
    let mut data: Vec<u8> = at.data;
    if !extra {
        append(&mut data, vstd::slice::slice_subrange(b, d + 4, d + n));
    }
    Progress { pos: d + n + 4, fresh: false, extra, data, ..at }
}

/// Looks for what the decoder cannot be trusted with.
pub fn find_hazard(b: &[u8]) -> (r: Option<Hazard>)
    ensures
        r == hazard(b@),
{
    let len: usize = b.len();
    if len < 33 || read_be32(b, 12) != IHDR {
        return None;
    }
    let mut at: Progress = Progress {
        pos: 8,
        runs: 3,
        framed: false,
        fresh: false,
        frame_w: 0,
        frame_h: 0,
        own_w: read_be32(b, 16),
        own_h: read_be32(b, 20),
        extra: false,
        clear: false,
        recolored: false,
        data: Vec::new(),
    };
    assert(at.trail().data =~= seq![]);
    loop
        invariant
            len == b@.len(),
            33 <= len,
            be32(b@, 12) == IHDR,
            at.ok(),
            at.pos <= len,
            scanned(b@) == scan(b@, at.trail()),
        decreases len - at.pos,
    {
        match follow_chunk(b, at) {
            Turn::On(next) => {
                at = next;
            },
            Turn::Over(Found::Stop) => {
                return None;
            },
            Turn::Over(Found::Frame) => {
                return Some(Hazard::Frame);
            },
            Turn::Over(Found::Stream) => {
                return Some(Hazard::Stream);
            },
            Turn::Over(Found::Data(data)) => {
                return if overtaxes(data.as_slice()) {
                    Some(Hazard::Stream)
                } else {
                    None
                };
            },
        }
    }
}

/// The four bytes of a number stand in the order of their weight, the heaviest
/// first.
pub proof fn law_numbers_are_big_endian(b: Seq<u8>, p: int)
    ensures
        be32(b, p) == 256 * (256 * (256 * b[p] + b[p + 1]) + b[p + 2]) + b[p + 3],
        0 <= be32(b, p) <= 0xFFFF_FFFF,
{
}

/// The four bytes spell the name.
pub open spec fn spells(b: Seq<u8>, p: int, name: (char, char, char, char)) -> bool {
    &&& b[p] == name.0 as u8
    &&& b[p + 1] == name.1 as u8
    &&& b[p + 2] == name.2 as u8
    &&& b[p + 3] == name.3 as u8
}

/// The letters of a chunk's name are its kind.
pub proof fn law_kinds_are_letters(b: Seq<u8>, p: int)
    ensures
        be32(b, p) == IHDR <==> spells(b, p, ('I', 'H', 'D', 'R')),
        be32(b, p) == PLTE <==> spells(b, p, ('P', 'L', 'T', 'E')),
        be32(b, p) == IDAT <==> spells(b, p, ('I', 'D', 'A', 'T')),
        be32(b, p) == IEND <==> spells(b, p, ('I', 'E', 'N', 'D')),
        be32(b, p) == TRNS <==> spells(b, p, ('t', 'R', 'N', 'S')),
        be32(b, p) == GAMA <==> spells(b, p, ('g', 'A', 'M', 'A')),
        be32(b, p) == ICCP <==> spells(b, p, ('i', 'C', 'C', 'P')),
        be32(b, p) == ITXT <==> spells(b, p, ('i', 'T', 'X', 't')),
        be32(b, p) == ZTXT <==> spells(b, p, ('z', 'T', 'X', 't')),
        be32(b, p) == ACTL <==> spells(b, p, ('a', 'c', 'T', 'L')),
        be32(b, p) == FCTL <==> spells(b, p, ('f', 'c', 'T', 'L')),
        be32(b, p) == FDAT <==> spells(b, p, ('f', 'd', 'A', 'T')),
{
}

/// The keyword ends before the first zero, which is one of the chunk's first 79
/// bytes.
pub proof fn law_keyword_ends_at_the_first_zero(b: Seq<u8>, d: int, n: int, i: int, k: int)
    requires
        0 <= i <= k,
        forall|j: int| i <= j < k ==> #[trigger] b[d + j] != 0,
    ensures
        k < n && k < 79 && b[d + k] == 0 ==> keyword_len(b, d, n, i) == Some(k),
        k >= n || k >= 79 ==> keyword_len(b, d, n, i) is None,
    decreases k - i,
{
    if i < k {
        assert(b[d + i] != 0);
        law_keyword_ends_at_the_first_zero(b, d, n, i + 1, k);
    }
}

/// In a plain file of one chunk of image data, the data that is inflated is what
/// that chunk holds, and the file is dangerous exactly if inflating it is.
pub proof fn law_plain_file(b: Seq<u8>, n: int)
    requires
        0 <= n,
        b.len() >= 57 + n,
        be32(b, 8) == 13,
        be32(b, 12) == IHDR,
        be32(b, 33) == n,
        be32(b, 37) == IDAT,
        be32(b, 45 + n) == 0,
        be32(b, 49 + n) == IEND,
    ensures
        scanned(b) == Scan::Data(b.subrange(41, 41 + n)),
        hazard(b) == if deflate::overtaxing(b.subrange(41, 41 + n)) {
            Some(Hazard::Stream)
        } else {
            None
        },
{
    reveal(scan_step);
    reveal_with_fuel(scan, 4);
    assert(Seq::<u8>::empty() + b.subrange(41, 41 + n) =~= b.subrange(41, 41 + n));
}

/// A file that is cut short, or whose first chunk is another one, is not dangerous:
/// the decoder refuses it before it inflates anything.
pub proof fn law_refused_files_are_harmless(b: Seq<u8>)
    ensures
        b.len() < 33 ==> hazard(b) is None,
        be32(b, 12) != IHDR ==> hazard(b) is None,
{
}

/// Image data of the image's own size fits, and so does that of a frame with fewer
/// pixels in an image without interlacing.
pub proof fn law_frames_that_fit(b: Seq<u8>, w: int, h: int)
    requires
        0 <= w,
        0 <= h,
    ensures
        be32(b, 16) >= 1 && be32(b, 20) >= 1 ==> frame_fits(b, be32(b, 16), be32(b, 20)),
        b[28] == 0 && h >= 1 ==> (frame_fits(b, w, h) <==> w * h <= be32(b, 16) * be32(b, 20)),
        b[28] != 0 && h > 1 && w < be32(b, 16) ==> !frame_fits(b, w, h),
{
}

/// A chunk of image data adds its own bytes to the data, all of them, and changes
/// nothing else but the place and the size in which the data is taken.
pub proof fn law_image_data_is_collected(b: Seq<u8>, at: Trail, d: int, n: int)
    ensures
        chunk_step(b, at, IDAT as int, d, n) matches Step::On(next) && {
            &&& next.pos == d + n + 4
            &&& next.data == at.data + b.subrange(d, d + n)
            &&& at.framed ==> next.own_w == at.frame_w && next.own_h == at.frame_h
            &&& !at.framed ==> next.own_w == at.own_w && next.own_h == at.own_h
            &&& next.runs == at.runs && next.framed == at.framed && next.extra == at.extra
            &&& next.frame_w == at.frame_w && next.frame_h == at.frame_h
            &&& next.clear == at.clear && next.recolored == at.recolored
            &&& !next.fresh
        },
{
}

/// A chunk without a meaning to the decoder is passed over: the next one stands
/// behind its bytes and its checksum.
pub proof fn law_other_chunks_are_passed_over(b: Seq<u8>, at: Trail, kind: int, d: int, n: int)
    requires
        kind != IHDR && kind != PLTE && kind != IDAT && kind != IEND && kind != TRNS && kind != GAMA,
        kind != ICCP && kind != ITXT && kind != ZTXT && kind != ACTL && kind != FCTL && kind != FDAT,
    ensures
        chunk_step(b, at, kind, d, n) == Step::On(Trail { pos: d + n + 4, fresh: false, ..at }),
{
}

/// A frame's chunk names the frame's size, and starts a new run if one was met
/// before. A third frame ends the chunks, and so does the last chunk.
pub proof fn law_frames_start_runs(b: Seq<u8>, at: Trail, d: int, n: int)
    ensures
        chunk_step(b, at, IEND as int, d, n) == Step::Over(finished(b, at)),
        at.framed && at.runs <= 1 ==> chunk_step(b, at, FCTL as int, d, n) == Step::Over(
            finished(b, at),
        ),
        n != 26 && !(at.framed && at.runs <= 1) ==> chunk_step(b, at, FCTL as int, d, n)
            == Step::Over(Scan::Stop),
        n == 26 && !(at.framed && at.runs <= 1) ==> (chunk_step(b, at, FCTL as int, d, n) matches
            Step::On(next) && {
            &&& next.pos == d + 30
            &&& next.framed && next.fresh
            &&& next.frame_w == be32(b, d + 4)
            &&& next.frame_h == be32(b, d + 8)
            &&& next.runs == if at.framed { at.runs - 1 } else { at.runs }
            &&& next.data == at.data
        }),
{
}

/// The data of a frame beside the image is not the image's: only what comes before
/// such a frame was opened is added, without the sequence number in its first four
/// bytes.
pub proof fn law_frame_data(b: Seq<u8>, at: Trail, d: int, n: int)
    requires
        at.framed,
    ensures
        n < 4 ==> chunk_step(b, at, FDAT as int, d, n) == Step::Over(Scan::Frame),
        n >= 4 ==> (chunk_step(b, at, FDAT as int, d, n) matches Step::On(next) && {
            &&& next.pos == d + n + 4
            &&& next.extra <==> at.extra || at.fresh
            &&& next.extra ==> next.data == at.data
            &&& !next.extra ==> next.data == at.data + b.subrange(d + 4, d + n)
            &&& next.own_w == at.own_w && next.own_h == at.own_h
        }),
{
}

/// The data in the image's own size is inflated. That in another size is inflated
/// where it fits and the image's colours were settled before it; elsewhere the
/// frame is dangerous.
pub proof fn law_finished(b: Seq<u8>, at: Trail)
    ensures
        at.own_w == be32(b, 16) && at.own_h == be32(b, 20) ==> finished(b, at) == Scan::Data(
            at.data,
        ),
        !(at.own_w == be32(b, 16) && at.own_h == be32(b, 20)) ==> {
            &&& frame_fits(b, at.own_w, at.own_h) && !at.recolored ==> finished(b, at)
                == Scan::Data(at.data)
            &&& !frame_fits(b, at.own_w, at.own_h) || at.recolored ==> finished(b, at)
                == Scan::Frame
        },
{
}

} // verus!
