use winfr_core::decode::Utf16Decoder;

fn utf16le(s: &str) -> Vec<u8> {
    let mut out = Vec::new();
    for u in s.encode_utf16() {
        out.extend_from_slice(&u.to_le_bytes());
    }
    out
}

#[test]
fn whole_stream_decodes() {
    let bytes = utf16le("Pass 1: Scanning drive...");
    let mut d = Utf16Decoder::new();
    let out = d.push_bytes(&bytes);
    assert_eq!(out, "Pass 1: Scanning drive...");
}

#[test]
fn split_code_unit_is_carried() {
    let bytes = utf16le("Hi");
    let mut d = Utf16Decoder::new();
    let first = d.push_bytes(&bytes[..1]);
    assert_eq!(first, "");
    let second = d.push_bytes(&bytes[1..]);
    assert_eq!(second, "Hi");
}

#[test]
fn byte_by_byte_equals_whole() {
    let text = "Pass 2: Recovering 47%\r\nFound Recovery_20240101_121212\r\n";
    let bytes = utf16le(text);
    let mut whole = Utf16Decoder::new();
    let expect = whole.push_bytes(&bytes);
    let mut piecewise = Utf16Decoder::new();
    let mut got = String::new();
    for b in &bytes {
        got.push_str(&piecewise.push_bytes(std::slice::from_ref(b)));
    }
    assert_eq!(got, expect);
    assert_eq!(got, text);
}

#[test]
fn every_split_point_equals_whole() {
    let text = "100% \u{00e9}\u{20ac} done";
    let bytes = utf16le(text);
    for cut in 0..=bytes.len() {
        let mut d = Utf16Decoder::new();
        let mut got = d.push_bytes(&bytes[..cut]);
        got.push_str(&d.push_bytes(&bytes[cut..]));
        assert_eq!(got, text, "split at {cut}");
    }
}

#[test]
fn non_bmp_text_survives_aligned_decode() {
    // a supergrapheme outside the BMP decodes via a surrogate pair when the
    // pair is not split across reads
    let text = "ok \u{1F600}";
    let bytes = utf16le(text);
    let mut d = Utf16Decoder::new();
    let out = d.push_bytes(&bytes);
    assert_eq!(out, text);
}

#[test]
fn empty_read_yields_empty_text() {
    let mut d = Utf16Decoder::new();
    assert_eq!(d.push_bytes(&[]), "");
}
