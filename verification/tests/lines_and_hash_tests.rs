use preview_core::frame::{span_to_lines, ByteRange, SrcSpan};
use preview_core::hash::{append_u64_le, fnv_extend, hash_svg, FNV_OFFSET};
use preview_core::lines::{byte_to_line, range_to_lines};

#[test]
fn byte_to_line_counts_newlines() {
    let text = b"one\ntwo\nthree";
    assert_eq!(byte_to_line(text, 0), Some(0));
    assert_eq!(byte_to_line(text, 3), Some(0));
    assert_eq!(byte_to_line(text, 4), Some(1));
    assert_eq!(byte_to_line(text, 8), Some(2));
    assert_eq!(byte_to_line(text, 13), Some(2));
    assert_eq!(byte_to_line(text, 14), None);
}

/// A span entirely within line 1 maps to line_start == line_end == 1.
#[test]
fn span_within_first_line() {
    let text = b"hello\nworld";
    let r = range_to_lines(text, 1, 4).unwrap();
    assert_eq!(r.line_start, 1);
    assert_eq!(r.line_end, 1);
}

/// A span crossing two newlines maps to line_end == line_start + 2.
#[test]
fn span_crossing_newlines() {
    let text = b"aa\nbb\ncc\ndd";
    let r = range_to_lines(text, 1, 8).unwrap();
    assert_eq!(r.line_start, 1);
    assert_eq!(r.line_end, 3);
    let r2 = range_to_lines(text, 3, 11).unwrap();
    assert_eq!(r2.line_start, 2);
    assert_eq!(r2.line_end, 4);
}

/// The end line comes from the last byte actually covered: an empty or
/// reversed range clamps to the start line.
#[test]
fn end_line_clamped() {
    let text = b"aa\nbb";
    let r = range_to_lines(text, 3, 3).unwrap();
    assert_eq!(r.line_start, 2);
    assert_eq!(r.line_end, 2);
    // end == 0 clamps to start as well
    let r2 = range_to_lines(text, 0, 0).unwrap();
    assert_eq!(r2.line_start, 1);
    assert_eq!(r2.line_end, 1);
}

#[test]
fn out_of_range_is_none() {
    let text = b"abc";
    assert_eq!(range_to_lines(text, 4, 5), None);
}

#[test]
fn span_to_lines_needs_attached_range() {
    let text = b"abc\ndef";
    assert_eq!(span_to_lines(None, text), None);
    assert_eq!(span_to_lines(Some(SrcSpan { raw: 5, range: None }), text), None);
    let s = SrcSpan { raw: 5, range: Some(ByteRange { start: 4, end: 7 }) };
    let r = span_to_lines(Some(s), text).unwrap();
    assert_eq!(r.line_start, 2);
    assert_eq!(r.line_end, 2);
}

/// The artifact hash is 64-bit FNV-1a over the UTF-8 bytes.
#[test]
fn hash_svg_exact_values() {
    assert_eq!(hash_svg(""), 0xcbf29ce484222325);
    assert_eq!(hash_svg("abc"), 0xe71fa2190541574b);
    assert_eq!(hash_svg("<svg>1</svg>"), 0xe4ec8b13521e368b);
}

#[test]
fn identical_artifacts_hash_identically() {
    let a = format!("<svg>{}</svg>", 1);
    assert_eq!(hash_svg(&a), hash_svg("<svg>1</svg>"));
    assert_ne!(hash_svg("<svg>1</svg>"), hash_svg("<svg>2</svg>"));
}

#[test]
fn fnv_extend_matches_hash() {
    assert_eq!(fnv_extend(FNV_OFFSET, b"abc"), hash_svg("abc"));
}

#[test]
fn u64_le_bytes() {
    let mut out = Vec::new();
    append_u64_le(&mut out, 0x0102030405060708);
    assert_eq!(out, vec![8, 7, 6, 5, 4, 3, 2, 1]);
}
