//! The mathematical model of the pixel decoder: the running state, the
//! opcode classification, and the per-pixel step function that the
//! executable decoder is proved to follow.

use vstd::prelude::*;

use crate::color::spec_hash;
use crate::color::QoiColor;
use crate::header::QOI_END_SEGMENT_SIZE;
use crate::header::QOI_HEADER_SIZE;

verus! {

/// One decoded opcode, carrying only the raw fields of its byte.
pub enum QoiOp {
    /// Reuse the cache entry at this 6-bit slot.
    Index(u8),
    /// Add each biased 2-bit field (raw value 0..=3, bias 2) to r, g, b.
    Diff { dr: u8, dg: u8, db: u8 },
    /// Raw 6-bit green field (bias 32); a second byte carries the red and
    /// blue sub-deltas (bias 8).
    Luma(u8),
    /// Repeat the previous color for this many additional pixels.
    Run(u8),
    /// Three raw bytes follow: new r, g, b; alpha unchanged.
    Rgb,
    /// Four raw bytes follow: new r, g, b, a.
    Rgba,
}

/// Classification of an opcode byte by its top bits, with `0xfe`/`0xff`
/// taken out of the run range first. The four 2-bit patterns cover every
/// byte, so every byte classifies.
pub open spec fn spec_classify(b: u8) -> QoiOp {
    if b == 0xfe {
        QoiOp::Rgb
    } else if b == 0xff {
        QoiOp::Rgba
    } else if b & 0xc0 == 0x00 {
        QoiOp::Index(b & 0x3f)
    } else if b & 0xc0 == 0x40 {
        QoiOp::Diff { dr: (b >> 4) & 0x03, dg: (b >> 2) & 0x03, db: b & 0x03 }
    } else if b & 0xc0 == 0x80 {
        QoiOp::Luma(b & 0x3f)
    } else {
        QoiOp::Run(b & 0x3f)
    }
}

impl QoiOp {
    /// Decodes one opcode byte.
    pub fn from_byte(b: u8) -> (op: QoiOp)
        ensures
            op == spec_classify(b),
    {
        if b == 0xfe {
            QoiOp::Rgb
        } else if b == 0xff {
            QoiOp::Rgba
        } else if b & 0xc0 == 0x00 {
            QoiOp::Index(b & 0x3f)
        } else if b & 0xc0 == 0x40 {
            QoiOp::Diff { dr: (b >> 4) & 0x03, dg: (b >> 2) & 0x03, db: b & 0x03 }
        } else if b & 0xc0 == 0x80 {
            QoiOp::Luma(b & 0x3f)
        } else {
            QoiOp::Run(b & 0x3f)
        }
    }
}

/// 8-bit wraparound: the value of `x` modulo 256, as a channel byte.
pub open spec fn wrap8(x: int) -> u8 {
    (x % 256) as u8
}

/// The color a DIFF opcode resolves to: each raw 2-bit field, less its bias
/// of 2, added to the matching channel modulo 256; alpha unchanged.
pub open spec fn diff_color(p: QoiColor, dr: u8, dg: u8, db: u8) -> QoiColor {
    QoiColor {
        r: wrap8(p.r + dr - 2),
        g: wrap8(p.g + dg - 2),
        b: wrap8(p.b + db - 2),
        a: p.a,
    }
}

/// The color a LUMA opcode resolves to: `vg` is the raw 6-bit green field
/// `v` less its bias of 32; red and blue add `vg - 8` plus their 4-bit
/// sub-delta from the second byte `b2`; all modulo 256; alpha unchanged.
pub open spec fn luma_color(p: QoiColor, v: u8, b2: u8) -> QoiColor {
    let vg = v - 32;
    QoiColor {
        r: wrap8(p.r + vg - 8 + ((b2 >> 4) & 0x0f)),
        g: wrap8(p.g + vg),
        b: wrap8(p.b + vg - 8 + (b2 & 0x0f)),
        a: p.a,
    }
}

/// The running state of a decode pass, before a given pixel is produced.
pub ghost struct DecodeState {
    /// The previous resolved color; the next pixel starts from it.
    pub prev: QoiColor,
    /// The 64-entry color cache.
    pub cache: Seq<QoiColor>,
    /// Pending repeats of `prev` that consume no bytes.
    pub run: int,
    /// Position of the next unread byte of the opcode stream.
    pub cursor: int,
}

/// The state a decode pass starts from: previous color opaque black, every
/// cache slot opaque black, no pending run, cursor just past the header.
pub open spec fn init_state() -> DecodeState {
    DecodeState {
        prev: QoiColor { r: 0, g: 0, b: 0, a: 255 },
        cache: Seq::new(64, |i: int| QoiColor { r: 0, g: 0, b: 0, a: 255 }),
        run: 0,
        cursor: QOI_HEADER_SIZE as int,
    }
}

/// First byte index of the reserved 8-byte end marker; opcode bytes are
/// read only below it.
pub open spec fn chunks_len(bytes: Seq<u8>) -> int {
    bytes.len() - QOI_END_SEGMENT_SIZE
}

/// The state after an opcode resolved color `c`: `c` becomes the previous
/// color and is written to its cache slot unconditionally, the run is
/// spent, and the cursor stands at `cursor`.
pub open spec fn after_op(s: DecodeState, c: QoiColor, cursor: int) -> DecodeState {
    DecodeState { prev: c, cache: s.cache.update(spec_hash(c), c), run: 0, cursor }
}

/// Produces one pixel: a pending run repeats the previous color without
/// reading a byte; otherwise, while the cursor is before the end-marker
/// region, one opcode is consumed; a cursor at or past that region leaves
/// the state unchanged, so the tail of the image repeats the previous
/// color. Run continuations do not touch the cache.
pub open spec fn step(bytes: Seq<u8>, s: DecodeState) -> DecodeState {
    if s.run > 0 {
        DecodeState { prev: s.prev, cache: s.cache, run: s.run - 1, cursor: s.cursor }
    } else if s.cursor < chunks_len(bytes) {
        let b1 = bytes[s.cursor];
        match spec_classify(b1) {
            QoiOp::Rgb => after_op(
                s,
                QoiColor {
                    r: bytes[s.cursor + 1],
                    g: bytes[s.cursor + 2],
                    b: bytes[s.cursor + 3],
                    a: s.prev.a,
                },
                s.cursor + 4,
            ),
            QoiOp::Rgba => after_op(
                s,
                QoiColor {
                    r: bytes[s.cursor + 1],
                    g: bytes[s.cursor + 2],
                    b: bytes[s.cursor + 3],
                    a: bytes[s.cursor + 4],
                },
                s.cursor + 5,
            ),
            QoiOp::Index(i) => after_op(s, s.cache[i as int], s.cursor + 1),
            QoiOp::Diff { dr, dg, db } => after_op(
                s,
                diff_color(s.prev, dr, dg, db),
                s.cursor + 1,
            ),
            QoiOp::Luma(v) => after_op(
                s,
                luma_color(s.prev, v, bytes[s.cursor + 1]),
                s.cursor + 2,
            ),
            QoiOp::Run(n) => DecodeState {
                prev: s.prev,
                cache: s.cache.update(spec_hash(s.prev), s.prev),
                run: n as int,
                cursor: s.cursor + 1,
            },
        }
    } else {
        s
    }
}

/// The state after the first `n` pixels have been produced.
pub open spec fn state_at(bytes: Seq<u8>, n: nat) -> DecodeState
    decreases n,
{
    if n == 0 {
        init_state()
    } else {
        step(bytes, state_at(bytes, (n - 1) as nat))
    }
}

/// The color of pixel `k` (0-based, row-major): the previous color once
/// `k + 1` pixels have been produced.
pub open spec fn color_at(bytes: Seq<u8>, k: int) -> QoiColor {
    state_at(bytes, (k + 1) as nat).prev
}

/// The channel bytes pixel `k` contributes to the output: r, g, b, and the
/// alpha channel only when the image has four channels.
pub open spec fn pixel_seq(bytes: Seq<u8>, ch: int, k: int) -> Seq<u8> {
    let c = color_at(bytes, k);
    if ch == 4 {
        seq![c.r, c.g, c.b, c.a]
    } else {
        seq![c.r, c.g, c.b]
    }
}

/// The output buffer of the first `n` pixels, laid out left to right.
pub open spec fn spec_pixels(bytes: Seq<u8>, ch: int, n: nat) -> Seq<u8>
    decreases n,
{
    if n == 0 {
        Seq::empty()
    } else {
        spec_pixels(bytes, ch, (n - 1) as nat) + pixel_seq(bytes, ch, n - 1)
    }
}

/// Pixel `k` of the output buffer `out` holds the channels of `color_at`:
/// r, g, b in order, and alpha as the fourth byte when `ch` is 4.
pub open spec fn pixel_matches(bytes: Seq<u8>, ch: int, out: Seq<u8>, k: int) -> bool {
    let c = color_at(bytes, k);
    &&& out[k * ch] == c.r
    &&& out[k * ch + 1] == c.g
    &&& out[k * ch + 2] == c.b
    &&& ch == 4 ==> out[k * ch + 3] == c.a
}

/// The output buffer of `n` pixels is `n * ch` bytes long.
pub proof fn lemma_spec_pixels_len(bytes: Seq<u8>, ch: int, n: nat)
    requires
        ch == 3 || ch == 4,
    ensures
        spec_pixels(bytes, ch, n).len() == n * ch,
    decreases n,
{
    if n == 0 {
        assert(0 * ch == 0) by (nonlinear_arith);
    } else {
        lemma_spec_pixels_len(bytes, ch, (n - 1) as nat);
        assert((n - 1) * ch + ch == n * ch) by (nonlinear_arith);
    }
}

/// Each pixel of the output buffer holds the channels of its color.
pub proof fn lemma_spec_pixels_index(bytes: Seq<u8>, ch: int, n: nat, k: int)
    requires
        ch == 3 || ch == 4,
        0 <= k < n,
    ensures
        pixel_matches(bytes, ch, spec_pixels(bytes, ch, n), k),
    decreases n,
{
    let prefix = spec_pixels(bytes, ch, (n - 1) as nat);
    lemma_spec_pixels_len(bytes, ch, (n - 1) as nat);
    if k < n - 1 {
        lemma_spec_pixels_index(bytes, ch, (n - 1) as nat, k);
        assert((k + 1) * ch <= (n - 1) * ch) by (nonlinear_arith)
            requires
                k + 1 <= n - 1 && ch >= 3,
        ;
        assert(k * ch + ch == (k + 1) * ch) by (nonlinear_arith);
    } else {
        assert(k * ch == (n - 1) * ch);
    }
}

} // verus!
