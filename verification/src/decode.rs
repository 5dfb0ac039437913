//! The pixel decoder: rebuilds the raw pixel buffer from a QOI byte stream,
//! proved to follow the model step function pixel by pixel.

use vstd::prelude::*;

use crate::color::QoiColor;
use crate::header::header_valid;
use crate::header::parse_header;
use crate::header::read_8;
use crate::header::spec_header;
use crate::header::spec_header_error;
use crate::header::FormatError;
use crate::header::QoiHeader;
use crate::header::QOI_END_SEGMENT_SIZE;
use crate::header::QOI_HEADER_SIZE;
use crate::header::QOI_PIXELS_MAX;
use crate::model::color_at;
use crate::model::diff_color;
use crate::model::init_state;
use crate::model::luma_color;
use crate::model::pixel_matches;
use crate::model::spec_pixels;
use crate::model::state_at;
use crate::model::step;
use crate::model::wrap8;
use crate::model::QoiOp;
use vstd::arithmetic::div_mod::lemma_fundamental_div_mod;
use vstd::arithmetic::div_mod::lemma_mod_add_multiples_vanish;
use vstd::arithmetic::div_mod::lemma_mod_bound;
use vstd::arithmetic::div_mod::lemma_mod_sub_multiples_vanish;
use vstd::arithmetic::div_mod::lemma_small_mod;
use vstd::arithmetic::mul::lemma_mul_inequality;

verus! {

/// A decoded image: the validated header and the raw pixel bytes,
/// `width * height * channels` of them, row-major.
#[derive(Clone, Debug)]
pub struct QoiImage {
    /// The header the buffer opened with.
    pub header: QoiHeader,
    /// The decoded pixel bytes: r, g, b per pixel, plus alpha when the
    /// image has four channels.
    pub bytes: Vec<u8>,
}

impl QoiImage {
    /// An empty image: all header fields zero, no pixel bytes.
    pub fn new() -> (img: QoiImage)
        ensures
            img.header == (QoiHeader { magic: 0, width: 0, height: 0, channels: 0, colorspace: 0 }),
            img.bytes@ =~= Seq::<u8>::empty(),
    {
        QoiImage {
            header: QoiHeader { magic: 0, width: 0, height: 0, channels: 0, colorspace: 0 },
            bytes: Vec::new(),
        }
    }

    /// Image width in pixels.
    pub fn get_width(&self) -> (w: u32)
        ensures
            w == self.header.width,
    {
        self.header.width
    }

    /// Image height in pixels.
    pub fn get_height(&self) -> (h: u32)
        ensures
            h == self.header.height,
    {
        self.header.height
    }

    /// Number of channels per pixel: 3 or 4.
    pub fn get_channels(&self) -> (c: u8)
        ensures
            c == self.header.channels,
    {
        self.header.channels
    }

    /// A copy of the raw pixel bytes.
    pub fn get_bytes(&self) -> (b: Vec<u8>)
        ensures
            b@ == self.bytes@,
    {
        let b = self.bytes.clone();
        proof {
            assert(b@ =~= self.bytes@);
        }
        b
    }
}

/// What a successful decode returns for the buffer `bytes`: the parsed
/// header, and the pixel buffer of the model, `width * height * channels`
/// bytes with every pixel holding the channels of its `color_at`.
pub open spec fn decode_output_ok(bytes: Seq<u8>, img: QoiImage) -> bool {
    let h = spec_header(bytes);
    let n = h.width * h.height;
    let ch = h.channels as int;
    &&& img.header == h
    &&& img.bytes@.len() == n * ch
    &&& img.bytes@ == spec_pixels(bytes, ch, n as nat)
    &&& forall|k: int| 0 <= k < n ==> pixel_matches(bytes, ch, img.bytes@, k)
}

/// A valid header bounds the pixel count: `height < QOI_PIXELS_MAX / width`
/// (integer division) forces `width * height < QOI_PIXELS_MAX`.
proof fn lemma_pixel_count_bound(w: int, h: int)
    requires
        1 <= w,
        1 <= h,
        h < QOI_PIXELS_MAX as int / w,
    ensures
        w * h < QOI_PIXELS_MAX as int,
{
    let q = QOI_PIXELS_MAX as int / w;
    let r = QOI_PIXELS_MAX as int % w;
    lemma_fundamental_div_mod(QOI_PIXELS_MAX as int, w);
    lemma_mod_bound(QOI_PIXELS_MAX as int, w);
    lemma_mul_inequality(h + 1, q, w);
    assert(w * h < 400000000) by (nonlinear_arith)
        requires
            (h + 1) * w <= q * w,
            400000000 == w * q + r,
            0 <= r,
            1 <= w,
    ;
}

/// Reduces `x` modulo 256 into a channel byte.
fn wrap8_exec(x: i32) -> (r: u8)
    requires
        -256 <= x < 768,
    ensures
        r == wrap8(x as int),
{
    proof {
        if x < 0 {
            lemma_mod_add_multiples_vanish(x as int, 256);
            lemma_small_mod((x + 256) as nat, 256);
        } else if x < 256 {
            lemma_small_mod(x as nat, 256);
        } else if x < 512 {
            lemma_mod_sub_multiples_vanish(x as int, 256);
            lemma_small_mod((x - 256) as nat, 256);
        } else {
            lemma_mod_sub_multiples_vanish(x as int, 256);
            lemma_mod_sub_multiples_vanish(x - 256, 256);
            lemma_small_mod((x - 512) as nat, 256);
        }
    }
    if x < 0 {
        (x + 256) as u8
    } else if x < 256 {
        x as u8
    } else if x < 512 {
        (x - 256) as u8
    } else {
        (x - 512) as u8
    }
}

/// Applies a DIFF opcode's three biased 2-bit fields to the previous color.
fn apply_diff(p: QoiColor, dr: u8, dg: u8, db: u8) -> (c: QoiColor)
    ensures
        c == diff_color(p, dr, dg, db),
{
    QoiColor {
        r: wrap8_exec(p.r as i32 + dr as i32 - 2),
        g: wrap8_exec(p.g as i32 + dg as i32 - 2),
        b: wrap8_exec(p.b as i32 + db as i32 - 2),
        a: p.a,
    }
}

/// Applies a LUMA opcode: `v` is the raw 6-bit green field, `b2` the byte
/// carrying the red and blue sub-deltas.
fn apply_luma(p: QoiColor, v: u8, b2: u8) -> (c: QoiColor)
    ensures
        c == luma_color(p, v, b2),
{
    let vg: i32 = v as i32 - 32;
    let hi: i32 = ((b2 >> 4) & 0x0f) as i32;
    let lo: i32 = (b2 & 0x0f) as i32;
    QoiColor {
        r: wrap8_exec(p.r as i32 + vg - 8 + hi),
        g: wrap8_exec(p.g as i32 + vg),
        b: wrap8_exec(p.b as i32 + vg - 8 + lo),
        a: p.a,
    }
}

/// Decodes a QOI byte buffer into its raw pixel buffer.
///
/// Succeeds exactly on the buffers whose header `validate` accepts; an
/// invalid header earns the same named rejection that `parse_header`
/// gives, and nothing past the header is touched. On success the output
/// holds `width * height` pixels, each equal to the color the model
/// assigns it, whatever the opcode stream holds — a stream truncated at
/// the end-marker boundary still yields the full-size buffer, the tail
/// repeating the last resolved color.
#[verifier::loop_isolation(false)]
pub fn decode_qoi(bytes: &[u8]) -> (r: Result<QoiImage, FormatError>)
    ensures
        r is Ok <==> header_valid(bytes@),
        r is Err ==> r->Err_0 == spec_header_error(bytes@),
        r is Ok ==> decode_output_ok(bytes@, r->Ok_0),
{
    let header = match parse_header(bytes) {
        Ok(h) => h,
        Err(e) => {
            return Err(e);
        },
    };
    let w = header.width;
    let h = header.height;
    let ch = header.channels;
    proof {
        lemma_pixel_count_bound(w as int, h as int);
    }
    let npix: usize = ((w as u64) * (h as u64)) as usize;
    proof {
        assert((ch as usize) as int == ch as int);
        assert(npix as int * ch as int <= 4 * npix as int) by (nonlinear_arith)
            requires
                ch as int <= 4,
                npix as int >= 0,
        ;
    }
    let px_len: usize = npix * (ch as usize);

    let mut cache: Vec<QoiColor> = Vec::with_capacity(64);
    let mut ci: usize = 0;
    while ci < 64
        invariant
            ci <= 64,
            cache@.len() == ci,
            forall|k: int|
                0 <= k < ci ==> cache@[k] == (QoiColor { r: 0, g: 0, b: 0, a: 255 }),
        decreases 64 - ci,
    {
        cache.push(QoiColor { r: 0, g: 0, b: 0, a: 255 });
        ci = ci + 1;
    }
    proof {
        assert(cache@ =~= init_state().cache);
    }

    let mut pixels: Vec<u8> = Vec::with_capacity(px_len);
    let mut prev = QoiColor { r: 0, g: 0, b: 0, a: 255 };
    let mut run: usize = 0;
    let mut cursor: usize = QOI_HEADER_SIZE;
    let size = bytes.len();
    let end_boundary = size - QOI_END_SEGMENT_SIZE;
    let mut px: usize = 0;
    while px < npix
        invariant
            px <= npix,
            prev == state_at(bytes@, px as nat).prev,
            cache@ == state_at(bytes@, px as nat).cache,
            run as int == state_at(bytes@, px as nat).run,
            cursor as int == state_at(bytes@, px as nat).cursor,
            cache@.len() == 64,
            pixels@ == spec_pixels(bytes@, ch as int, px as nat),
        decreases npix - px,
    {
        let ghost s = state_at(bytes@, px as nat);
        if run > 0 {
            run = run - 1;
        } else if cursor < end_boundary {
            let b1 = read_8(bytes, &mut cursor);
            match QoiOp::from_byte(b1) {
                QoiOp::Rgb => {
                    let r0 = read_8(bytes, &mut cursor);
                    let g0 = read_8(bytes, &mut cursor);
                    let b0 = read_8(bytes, &mut cursor);
                    prev = QoiColor { r: r0, g: g0, b: b0, a: prev.a };
                },
                QoiOp::Rgba => {
                    let r0 = read_8(bytes, &mut cursor);
                    let g0 = read_8(bytes, &mut cursor);
                    let b0 = read_8(bytes, &mut cursor);
                    let a0 = read_8(bytes, &mut cursor);
                    prev = QoiColor { r: r0, g: g0, b: b0, a: a0 };
                },
                QoiOp::Index(i) => {
                    proof {
                        assert(b1 & 0x3f < 64) by (bit_vector);
                    }
                    prev = cache[i as usize];
                },
                QoiOp::Diff { dr, dg, db } => {
                    prev = apply_diff(prev, dr, dg, db);
                },
                QoiOp::Luma(v) => {
                    let b2 = read_8(bytes, &mut cursor);
                    prev = apply_luma(prev, v, b2);
                },
                QoiOp::Run(n) => {
                    run = n as usize;
                },
            }
            let slot = prev.hash();
            cache[slot] = prev;
        }
        proof {
            assert(state_at(bytes@, (px + 1) as nat) == step(bytes@, s));
        }
        pixels.push(prev.r);
        pixels.push(prev.g);
        pixels.push(prev.b);
        if ch == 4 {
            pixels.push(prev.a);
        }
        proof {
            assert(color_at(bytes@, px as int) == state_at(bytes@, (px + 1) as nat).prev);
            assert(pixels@ =~= spec_pixels(bytes@, ch as int, (px + 1) as nat));
        }
        px = px + 1;
    }
    proof {
        crate::model::lemma_spec_pixels_len(bytes@, ch as int, npix as nat);
        assert forall|k: int| 0 <= k < npix implies pixel_matches(
            bytes@,
            ch as int,
            pixels@,
            k,
        ) by {
            crate::model::lemma_spec_pixels_index(bytes@, ch as int, npix as nat, k);
        }
    }
    Ok(QoiImage { header, bytes: pixels })
}

} // verus!
