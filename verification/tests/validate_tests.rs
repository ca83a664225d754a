use oort_vm::validate::{
    decode_lines, decode_texts, validate_floats, validate_lines, validate_texts, Line, Text,
    LINE_BYTES, TEXT_BYTES,
};

fn encode_line(x0: f64, y0: f64, x1: f64, y1: f64, color: u32) -> Vec<u8> {
    let mut b = Vec::new();
    b.extend_from_slice(&x0.to_bits().to_le_bytes());
    b.extend_from_slice(&y0.to_bits().to_le_bytes());
    b.extend_from_slice(&x1.to_bits().to_le_bytes());
    b.extend_from_slice(&y1.to_bits().to_le_bytes());
    b.extend_from_slice(&color.to_le_bytes());
    b.extend_from_slice(&[0u8; 4]); // padding
    assert_eq!(b.len(), LINE_BYTES);
    b
}

fn encode_text(x: f64, y: f64, color: u32, length: u32, text: &[u8]) -> Vec<u8> {
    let mut b = Vec::new();
    b.extend_from_slice(&x.to_bits().to_le_bytes());
    b.extend_from_slice(&y.to_bits().to_le_bytes());
    b.extend_from_slice(&color.to_le_bytes());
    b.extend_from_slice(&length.to_le_bytes());
    let mut buf = [0u8; 32];
    buf[..text.len()].copy_from_slice(text);
    b.extend_from_slice(&buf);
    assert_eq!(b.len(), TEXT_BYTES);
    b
}

#[test]
fn line_decoding_round_trip() {
    let mut bytes = encode_line(1.0, 2.0, 3.0, 4.0, 0xff00ff);
    bytes.extend(encode_line(-1.5, 0.0, 9.0, -2.25, 7));
    let lines = decode_lines(&bytes, 2);
    assert_eq!(lines.len(), 2);
    assert_eq!(lines[0].x0, 1.0f64.to_bits());
    assert_eq!(lines[0].y1, 4.0f64.to_bits());
    assert_eq!(lines[0].color, 0xff00ff);
    assert_eq!(lines[1].x0, (-1.5f64).to_bits());
    assert_eq!(lines[1].color, 7);
}

#[test]
fn line_batch_rejected_on_single_nan() {
    let mut lines: Vec<Line> = Vec::new();
    for i in 0..128 {
        lines.push(Line {
            x0: (i as f64).to_bits(),
            y0: 0,
            x1: 0,
            y1: 0,
            color: 0,
        });
    }
    assert!(validate_lines(&lines));
    lines[37].y1 = f64::NAN.to_bits();
    assert!(!validate_lines(&lines));
}

#[test]
fn text_batch_validation() {
    let bytes = encode_text(1.0, 2.0, 3, 5, b"hello");
    let texts = decode_texts(&bytes, 1);
    assert_eq!(texts.len(), 1);
    assert_eq!(texts[0].length, 5);
    assert_eq!(&texts[0].text[..5], b"hello");
    assert!(validate_texts(&texts));

    let bad_len = decode_texts(&encode_text(1.0, 2.0, 3, 33, b"x"), 1);
    assert!(!validate_texts(&bad_len));

    let bad_coord = decode_texts(&encode_text(f64::INFINITY, 2.0, 3, 1, b"x"), 1);
    assert!(!validate_texts(&bad_coord));
}

#[test]
fn float_batch_validation() {
    let good = vec![0u64, 1.5f64.to_bits(), (-7.25f64).to_bits()];
    assert!(validate_floats(&good));
    let bad = vec![1.0f64.to_bits(), f64::NAN.to_bits()];
    assert!(!validate_floats(&bad));
}
