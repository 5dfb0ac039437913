use qoi_decode::decode_qoi;
use qoi_decode::QoiColor;
use qoi_decode::QoiImage;

fn qoi_image(w: u32, h: u32, ch: u8, ops: &[u8]) -> Vec<u8> {
    let mut v = vec![0x71, 0x6f, 0x69, 0x66];
    v.extend_from_slice(&w.to_be_bytes());
    v.extend_from_slice(&h.to_be_bytes());
    v.push(ch);
    v.push(0);
    v.extend_from_slice(ops);
    v.extend_from_slice(&[0, 0, 0, 0, 0, 0, 0, 1]);
    v
}

#[test]
fn minimal_rgb_pixel() {
    // One RGB opcode: a single pixel, and no alpha byte in the output.
    let bytes = qoi_image(1, 1, 3, &[0xfe, 9, 8, 7]);
    let img = decode_qoi(&bytes).unwrap();
    assert_eq!(img.get_width(), 1);
    assert_eq!(img.get_height(), 1);
    assert_eq!(img.get_channels(), 3);
    assert_eq!(img.get_bytes(), vec![9, 8, 7]);
}

#[test]
fn minimal_rgba_pixel() {
    let bytes = qoi_image(1, 1, 4, &[0xff, 1, 2, 3, 4]);
    let img = decode_qoi(&bytes).unwrap();
    assert_eq!(img.get_bytes(), vec![1, 2, 3, 4]);
}

#[test]
fn rgb_keeps_previous_alpha() {
    let bytes = qoi_image(2, 1, 4, &[0xff, 1, 2, 3, 77, 0xfe, 4, 5, 6]);
    let img = decode_qoi(&bytes).unwrap();
    assert_eq!(img.get_bytes(), vec![1, 2, 3, 77, 4, 5, 6, 77]);
}

#[test]
fn run_repeats_color() {
    // RGB sets the color, then a run with count 3 adds the run-opcode pixel
    // plus three repeats: five identical pixels in total.
    let bytes = qoi_image(5, 1, 3, &[0xfe, 10, 20, 30, 0xc3]);
    let img = decode_qoi(&bytes).unwrap();
    assert_eq!(
        img.get_bytes(),
        vec![10, 20, 30, 10, 20, 30, 10, 20, 30, 10, 20, 30, 10, 20, 30]
    );
}

#[test]
fn longest_run_opcode() {
    // 0xfd is the largest run opcode: count 61, so 62 pixels besides the
    // color-setting pixel.
    let bytes = qoi_image(63, 1, 3, &[0xfe, 1, 1, 1, 0xfd]);
    let img = decode_qoi(&bytes).unwrap();
    let out = img.get_bytes();
    assert_eq!(out.len(), 189);
    assert!(out.iter().all(|&b| b == 1));
}

#[test]
fn index_initial_slot() {
    // Slot 0 was never written: it yields the initial {0, 0, 0, 255}.
    let bytes = qoi_image(1, 1, 4, &[0x00]);
    let img = decode_qoi(&bytes).unwrap();
    assert_eq!(img.get_bytes(), vec![0, 0, 0, 255]);
}

#[test]
fn index_reuses_cached_color() {
    // (10, 20, 30, 255) hashes to slot 9; the later INDEX opcode 0x09
    // reproduces it exactly.
    assert_eq!(QoiColor { r: 10, g: 20, b: 30, a: 255 }.hash(), 9);
    let bytes = qoi_image(3, 1, 4, &[0xfe, 10, 20, 30, 0xff, 1, 2, 3, 4, 0x09]);
    let img = decode_qoi(&bytes).unwrap();
    assert_eq!(img.get_bytes(), vec![10, 20, 30, 255, 1, 2, 3, 4, 10, 20, 30, 255]);
}

#[test]
fn diff_wraps_below_zero() {
    // DIFF fields (0, 2, 2) mean deltas (-2, 0, 0) on {0, 0, 0, 255}:
    // red wraps to 254 instead of clamping at 0.
    let bytes = qoi_image(1, 1, 4, &[0x4a]);
    let img = decode_qoi(&bytes).unwrap();
    assert_eq!(img.get_bytes(), vec![254, 0, 0, 255]);
}

#[test]
fn diff_adds_small_delta() {
    // DIFF fields (3, 2, 2) mean deltas (+1, 0, 0).
    let bytes = qoi_image(1, 1, 3, &[0x7a]);
    let img = decode_qoi(&bytes).unwrap();
    assert_eq!(img.get_bytes(), vec![1, 0, 0]);
}

#[test]
fn luma_wraps_below_zero() {
    // LUMA with raw green field 0 means vg = -32; with both sub-deltas 0
    // the channels become (-40, -32, -40) mod 256.
    let bytes = qoi_image(1, 1, 3, &[0x80, 0x00]);
    let img = decode_qoi(&bytes).unwrap();
    assert_eq!(img.get_bytes(), vec![216, 224, 216]);
}

#[test]
fn luma_positive_deltas() {
    // Raw green field 63 means vg = 31; sub-deltas (15, 0) give
    // r = 31 - 8 + 15 = 38, g = 31, b = 31 - 8 = 23.
    let bytes = qoi_image(1, 1, 3, &[0xbf, 0xf0]);
    let img = decode_qoi(&bytes).unwrap();
    assert_eq!(img.get_bytes(), vec![38, 31, 23]);
}

#[test]
fn truncated_stream_pads_with_last_color() {
    // Four pixels owed but only one opcode present: the tail repeats the
    // last resolved color instead of erroring.
    let bytes = qoi_image(2, 2, 3, &[0xfe, 5, 6, 7]);
    let img = decode_qoi(&bytes).unwrap();
    assert_eq!(img.get_bytes(), vec![5, 6, 7, 5, 6, 7, 5, 6, 7, 5, 6, 7]);
}

#[test]
fn empty_opcode_stream_yields_initial_color() {
    // Truncated exactly at the end-marker boundary: a full-size buffer of
    // the initial previous color (alpha only emitted with 4 channels).
    let bytes = qoi_image(2, 1, 3, &[]);
    let img = decode_qoi(&bytes).unwrap();
    assert_eq!(img.get_bytes(), vec![0, 0, 0, 0, 0, 0]);

    let bytes4 = qoi_image(2, 1, 4, &[]);
    let img4 = decode_qoi(&bytes4).unwrap();
    assert_eq!(img4.get_bytes(), vec![0, 0, 0, 255, 0, 0, 0, 255]);
}

#[test]
fn run_continuation_does_not_touch_cache() {
    // After RGBA (0,0,0,1) — slot 11 — a run repeats it; the INDEX opcode
    // for slot 53 (home of the initial {0,0,0,255}) must still find the
    // initial color, since run continuations write nothing to the cache.
    assert_eq!(QoiColor { r: 0, g: 0, b: 0, a: 1 }.hash(), 11);
    assert_eq!(QoiColor { r: 0, g: 0, b: 0, a: 255 }.hash(), 53);
    let bytes = qoi_image(4, 1, 4, &[0xff, 0, 0, 0, 1, 0xc1, 0x35]);
    let img = decode_qoi(&bytes).unwrap();
    assert_eq!(
        img.get_bytes(),
        vec![0, 0, 0, 1, 0, 0, 0, 1, 0, 0, 0, 1, 0, 0, 0, 255]
    );
}

#[test]
fn two_rows_row_major() {
    let bytes = qoi_image(2, 2, 3, &[0xfe, 1, 0, 0, 0xfe, 2, 0, 0, 0xfe, 3, 0, 0, 0xfe, 4, 0, 0]);
    let img = decode_qoi(&bytes).unwrap();
    assert_eq!(img.get_bytes(), vec![1, 0, 0, 2, 0, 0, 3, 0, 0, 4, 0, 0]);
}

#[test]
fn new_image_is_empty() {
    let img = QoiImage::new();
    assert_eq!(img.get_width(), 0);
    assert_eq!(img.get_height(), 0);
    assert_eq!(img.get_channels(), 0);
    assert_eq!(img.get_bytes(), Vec::<u8>::new());
}

#[test]
fn color_hash_values() {
    assert_eq!(QoiColor { r: 0, g: 0, b: 0, a: 255 }.hash(), 53);
    assert_eq!(QoiColor { r: 0, g: 0, b: 0, a: 0 }.hash(), 0);
    assert_eq!(QoiColor { r: 10, g: 20, b: 30, a: 255 }.hash(), 9);
}

#[test]
fn color_from_u32_unpacks_channels() {
    let c = QoiColor::from_u32(0x11223344);
    assert_eq!(c.r, 0x11);
    assert_eq!(c.g, 0x22);
    assert_eq!(c.b, 0x33);
    assert_eq!(c.a, 0x44);
    let opaque = QoiColor::from_u32(0x000000ff);
    assert_eq!((opaque.r, opaque.g, opaque.b, opaque.a), (0, 0, 0, 255));
}
