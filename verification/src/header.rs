//! The fixed 14-byte QOI header: parsing, validation, and the rejection
//! taxonomy.

use vstd::prelude::*;

verus! {

/// The magic tag `"qoif"` packed big-endian: `'q' 'o' 'i' 'f'`.
pub const QOI_MAGIC: u32 = 0x716f6966;

/// Upper bound on `width * height`; images at or above it are rejected.
pub const QOI_PIXELS_MAX: u32 = 400000000;

/// Byte length of the fixed header.
pub const QOI_HEADER_SIZE: usize = 14;

/// Byte length of the fixed end marker that trails the opcode stream.
pub const QOI_END_SEGMENT_SIZE: usize = 8;

/// Why a buffer was rejected before any pixel work began.
#[derive(Clone, Copy, Debug, PartialEq, Eq, Structural)]
pub enum FormatError {
    /// Fewer than 14 bytes supplied: no room for a header.
    BufferTooShort,
    /// The first four bytes are not the tag `"qoif"`.
    BadMagic,
    /// Zero width or height, or the pixel count reaches the maximum.
    BadDimensions,
    /// The channels byte is neither 3 nor 4.
    BadChannels,
    /// The colorspace byte is neither 0 nor 1.
    BadColorspace,
}

/// The parsed fixed header.
#[derive(Clone, Copy, Debug, PartialEq, Eq, Structural)]
pub struct QoiHeader {
    /// Magic bytes, `"qoif"` when valid.
    pub magic: u32,
    /// Image width in pixels (stored big-endian).
    pub width: u32,
    /// Image height in pixels (stored big-endian).
    pub height: u32,
    /// 3 = RGB, 4 = RGBA.
    pub channels: u8,
    /// 0 = sRGB with linear alpha, 1 = all channels linear.
    pub colorspace: u8,
}

/// The big-endian 32-bit word at byte offset `i`.
pub open spec fn be32_at(bytes: Seq<u8>, i: int) -> int {
    bytes[i] * 0x1000000 + bytes[i + 1] * 0x10000 + bytes[i + 2] * 0x100 + bytes[i + 3]
}

/// The header that a buffer of at least 14 bytes carries, field by field.
pub open spec fn spec_header(bytes: Seq<u8>) -> QoiHeader {
    QoiHeader {
        magic: be32_at(bytes, 0) as u32,
        width: be32_at(bytes, 4) as u32,
        height: be32_at(bytes, 8) as u32,
        channels: bytes[12],
        colorspace: bytes[13],
    }
}

/// The validity predicate of the header: the magic tag matches, both
/// dimensions are nonzero, channels and colorspace are in range, and
/// `height < QOI_PIXELS_MAX / width` (integer division) bounds the pixel
/// count without a 64-bit multiply.
pub open spec fn header_valid(bytes: Seq<u8>) -> bool {
    let h = spec_header(bytes);
    &&& bytes.len() >= QOI_HEADER_SIZE
    &&& h.magic == QOI_MAGIC
    &&& h.width != 0
    &&& h.height != 0
    &&& 3 <= h.channels <= 4
    &&& h.colorspace <= 1
    &&& h.height < QOI_PIXELS_MAX as int / h.width as int
}

/// Which rejection an invalid buffer earns. Checks run in this order:
/// buffer length, magic, dimensions, channels, colorspace.
pub open spec fn spec_header_error(bytes: Seq<u8>) -> FormatError {
    let h = spec_header(bytes);
    if bytes.len() < QOI_HEADER_SIZE {
        FormatError::BufferTooShort
    } else if h.magic != QOI_MAGIC {
        FormatError::BadMagic
    } else if h.width == 0 || h.height == 0 || h.height >= QOI_PIXELS_MAX as int
        / h.width as int {
        FormatError::BadDimensions
    } else if !(3 <= h.channels <= 4) {
        FormatError::BadChannels
    } else {
        FormatError::BadColorspace
    }
}

/// Reads the big-endian 32-bit word at `*offset` and advances the cursor
/// past it.
pub fn read_32(bytes: &[u8], offset: &mut usize) -> (r: u32)
    requires
        *old(offset) + 4 <= bytes@.len(),
    ensures
        *final(offset) == *old(offset) + 4,
        r == be32_at(bytes@, *old(offset) as int),
{
    let a: u32 = bytes[*offset] as u32;
    let b: u32 = bytes[*offset + 1] as u32;
    let c: u32 = bytes[*offset + 2] as u32;
    let d: u32 = bytes[*offset + 3] as u32;
    *offset = *offset + 4;
    proof {
        assert(a << 24 | b << 16 | c << 8 | d == a * 0x1000000 + b * 0x10000 + c * 0x100 + d)
            by (bit_vector)
            requires
                a < 256 && b < 256 && c < 256 && d < 256,
        ;
    }
    a << 24 | b << 16 | c << 8 | d
}

/// Reads the byte at `*offset` and advances the cursor past it.
pub fn read_8(bytes: &[u8], offset: &mut usize) -> (r: u8)
    requires
        *old(offset) < bytes@.len(),
    ensures
        *final(offset) == *old(offset) + 1,
        r == bytes@[*old(offset) as int],
{
    let a: u8 = bytes[*offset];
    *offset = *offset + 1;
    a
}

/// Parses and checks the fixed header. Succeeds exactly on the buffers that
/// `header_valid` admits, returning the parsed fields; otherwise names the
/// first check that failed.
pub fn parse_header(bytes: &[u8]) -> (r: Result<QoiHeader, FormatError>)
    ensures
        r is Ok <==> header_valid(bytes@),
        r is Ok ==> r->Ok_0 == spec_header(bytes@),
        r is Err ==> r->Err_0 == spec_header_error(bytes@),
{
    if bytes.len() < QOI_HEADER_SIZE {
        return Err(FormatError::BufferTooShort);
    }
    let mut index: usize = 0;
    let magic = read_32(bytes, &mut index);
    let width = read_32(bytes, &mut index);
    let height = read_32(bytes, &mut index);
    let channels = read_8(bytes, &mut index);
    let colorspace = read_8(bytes, &mut index);
    if magic != QOI_MAGIC {
        return Err(FormatError::BadMagic);
    }
    if width == 0 || height == 0 {
        return Err(FormatError::BadDimensions);
    }
    if height >= QOI_PIXELS_MAX / width {
        return Err(FormatError::BadDimensions);
    }
    if channels < 3 || channels > 4 {
        return Err(FormatError::BadChannels);
    }
    if colorspace > 1 {
        return Err(FormatError::BadColorspace);
    }
    Ok(QoiHeader { magic, width, height, channels, colorspace })
}

/// Header-only sniff: does the buffer open with a valid QOI header?
///
/// Agrees with the header check inside `decode_qoi` on every input: both
/// are stated over the same predicate `header_valid`.
pub fn validate(bytes: &[u8]) -> (ok: bool)
    ensures
        ok == header_valid(bytes@),
{
    parse_header(bytes).is_ok()
}

} // verus!
