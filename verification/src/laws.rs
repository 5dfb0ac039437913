//! Format laws proved of the decode model: run expansion, cache lookup,
//! wraparound deltas, and the padded tail of a truncated stream.

use vstd::prelude::*;

use crate::color::QoiColor;
use crate::model::chunks_len;
use crate::model::color_at;
use crate::model::diff_color;
use crate::model::luma_color;
use crate::model::state_at;
use crate::model::step;

verus! {

/// While a run is pending, pixels repeat the previous color and consume no
/// bytes: after `j` of the pending repeats, the previous color, cursor and
/// cache stand unchanged and the run has shrunk by `j`.
pub proof fn lemma_run_drain(bytes: Seq<u8>, m: nat, j: nat)
    requires
        j <= state_at(bytes, m).run,
    ensures
        state_at(bytes, (m + j) as nat).prev == state_at(bytes, m).prev,
        state_at(bytes, (m + j) as nat).run == state_at(bytes, m).run - j,
        state_at(bytes, (m + j) as nat).cursor == state_at(bytes, m).cursor,
        state_at(bytes, (m + j) as nat).cache == state_at(bytes, m).cache,
    decreases j,
{
    if j > 0 {
        assert(state_at(bytes, (m + 1) as nat) == step(bytes, state_at(bytes, m)));
        lemma_run_drain(bytes, (m + 1) as nat, (j - 1) as nat);
    }
}

/// A run opcode with count `c` reproduces the color standing before it for
/// `c + 1` pixels in total: the run-opcode pixel and `c` run pixels, none
/// of which reads a byte beyond the opcode itself.
pub proof fn lemma_run_repeats(bytes: Seq<u8>, n: nat, i: int)
    requires
        state_at(bytes, n).run == 0,
        state_at(bytes, n).cursor < chunks_len(bytes),
        bytes[state_at(bytes, n).cursor] & 0xc0 == 0xc0,
        bytes[state_at(bytes, n).cursor] != 0xfe,
        bytes[state_at(bytes, n).cursor] != 0xff,
        0 <= i <= bytes[state_at(bytes, n).cursor] & 0x3f,
    ensures
        color_at(bytes, n + i) == state_at(bytes, n).prev,
{
    let s = state_at(bytes, n);
    assert(state_at(bytes, (n + 1) as nat) == step(bytes, s));
    lemma_run_drain(bytes, (n + 1) as nat, i as nat);
}

/// An INDEX opcode referencing slot `i` reproduces exactly the color the
/// cache holds in slot `i` at that point.
pub proof fn lemma_index_reads_cache(bytes: Seq<u8>, n: nat)
    requires
        state_at(bytes, n).run == 0,
        state_at(bytes, n).cursor < chunks_len(bytes),
        bytes[state_at(bytes, n).cursor] & 0xc0 == 0x00,
    ensures
        color_at(bytes, n as int) == state_at(bytes, n).cache[(bytes[state_at(
            bytes,
            n,
        ).cursor] & 0x3f) as int],
{
    let s = state_at(bytes, n);
    let b = bytes[s.cursor];
    assert(b != 0xfe && b != 0xff) by (bit_vector)
        requires
            b & 0xc0 == 0x00,
    ;
    assert(state_at(bytes, (n + 1) as nat) == step(bytes, s));
}

/// Before any write, every cache slot holds opaque black `{0, 0, 0, 255}`,
/// the same value the previous color starts at; an INDEX opcode referencing
/// a never-written slot yields exactly this value.
pub proof fn lemma_initial_cache(bytes: Seq<u8>, k: int)
    requires
        0 <= k < 64,
    ensures
        state_at(bytes, 0).cache.len() == 64,
        state_at(bytes, 0).cache[k] == (QoiColor { r: 0, g: 0, b: 0, a: 255 }),
        state_at(bytes, 0).prev == (QoiColor { r: 0, g: 0, b: 0, a: 255 }),
        state_at(bytes, 0).run == 0,
{
}

/// A DIFF opcode shifts each of r, g, b by its biased 2-bit field modulo
/// 256 — wraparound, never clamping — and leaves alpha unchanged.
pub proof fn lemma_diff_wraps(bytes: Seq<u8>, n: nat)
    requires
        state_at(bytes, n).run == 0,
        state_at(bytes, n).cursor < chunks_len(bytes),
        bytes[state_at(bytes, n).cursor] & 0xc0 == 0x40,
    ensures
        color_at(bytes, n as int) == diff_color(
            state_at(bytes, n).prev,
            (bytes[state_at(bytes, n).cursor] >> 4) & 0x03,
            (bytes[state_at(bytes, n).cursor] >> 2) & 0x03,
            bytes[state_at(bytes, n).cursor] & 0x03,
        ),
{
    let s = state_at(bytes, n);
    let b = bytes[s.cursor];
    assert(b != 0xfe && b != 0xff) by (bit_vector)
        requires
            b & 0xc0 == 0x40,
    ;
    assert(state_at(bytes, (n + 1) as nat) == step(bytes, s));
}

/// A LUMA opcode shifts g by its biased 6-bit field and r, b by that field
/// plus their biased 4-bit sub-deltas, all modulo 256 — wraparound, never
/// clamping — and leaves alpha unchanged.
pub proof fn lemma_luma_wraps(bytes: Seq<u8>, n: nat)
    requires
        state_at(bytes, n).run == 0,
        state_at(bytes, n).cursor < chunks_len(bytes),
        bytes[state_at(bytes, n).cursor] & 0xc0 == 0x80,
    ensures
        color_at(bytes, n as int) == luma_color(
            state_at(bytes, n).prev,
            bytes[state_at(bytes, n).cursor] & 0x3f,
            bytes[state_at(bytes, n).cursor + 1],
        ),
{
    let s = state_at(bytes, n);
    let b = bytes[s.cursor];
    assert(b != 0xfe && b != 0xff) by (bit_vector)
        requires
            b & 0xc0 == 0x80,
    ;
    assert(state_at(bytes, (n + 1) as nat) == step(bytes, s));
}

/// Once the cursor has reached the reserved end-marker region with no run
/// pending, no further byte is ever read: the state never changes again,
/// and every remaining pixel repeats the last resolved color. A stream
/// truncated at the end-marker boundary therefore still yields a full-size
/// image instead of an error.
pub proof fn lemma_exhausted_tail(bytes: Seq<u8>, n: nat, j: nat)
    requires
        state_at(bytes, n).run == 0,
        state_at(bytes, n).cursor >= chunks_len(bytes),
    ensures
        state_at(bytes, (n + j) as nat) == state_at(bytes, n),
        color_at(bytes, n + j as int) == state_at(bytes, n).prev,
    decreases j,
{
    if j == 0 {
        assert(state_at(bytes, (n + 1) as nat) == step(bytes, state_at(bytes, n)));
    } else {
        lemma_exhausted_tail(bytes, n, (j - 1) as nat);
        assert(state_at(bytes, (n + j) as nat) == step(
            bytes,
            state_at(bytes, (n + j - 1) as nat),
        ));
        assert(state_at(bytes, (n + j + 1) as nat) == step(bytes, state_at(bytes, (n + j) as nat)));
    }
}

} // verus!
