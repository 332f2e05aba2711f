use winbend::preview::{base64, png_data_url, preview_height, PREVIEW_WIDTH};

#[test]
fn rfc4648() {
    for (a, b) in [
        ("", ""),
        ("f", "Zg=="),
        ("fo", "Zm8="),
        ("foo", "Zm9v"),
        ("foob", "Zm9vYg=="),
        ("fooba", "Zm9vYmE="),
        ("foobar", "Zm9vYmFy"),
    ] {
        assert_eq!(base64(a.as_bytes()), b);
    }
}

#[test]
fn base64_uses_the_whole_alphabet() {
    assert_eq!(base64(&[0xfb, 0xff, 0xbf]), "+/+/");
    assert_eq!(base64(&[0, 0, 0]), "AAAA");
}

#[test]
fn preview_keeps_the_capture_aspect() {
    assert_eq!(PREVIEW_WIDTH, 512);
    assert_eq!(preview_height(1920, 1080), 288);
    assert_eq!(preview_height(2560, 1600), 320);
    assert_eq!(preview_height(3, 2), 341);
}

#[test]
fn preview_height_is_clamped() {
    assert_eq!(preview_height(10000, 1), 1);
    assert_eq!(preview_height(100, 100000), 960);
    assert_eq!(preview_height(0, 100), 960);
    assert_eq!(preview_height(0, 0), 1);
}

#[test]
fn preview_is_a_png_data_url() {
    let url = png_data_url(&[0, 0, 0, 255], 1, 1).unwrap();
    // The PNG signature, base64 encoded.
    assert!(url.starts_with("data:image/png;base64,iVBORw0KGgo"), "{url}");
}

#[test]
fn preview_of_wrong_size_is_refused() {
    assert!(png_data_url(&[0, 0, 0], 1, 1).is_none());
    assert!(png_data_url(&[], 0, 0).is_none());
}

fn rfc4648_decode(s: &str) -> Vec<u8> {
    let value = |c: u8| -> u32 {
        match c {
            b'A'..=b'Z' => (c - b'A') as u32,
            b'a'..=b'z' => (c - b'a') as u32 + 26,
            b'0'..=b'9' => (c - b'0') as u32 + 52,
            b'+' => 62,
            b'/' => 63,
            _ => 0,
        }
    };
    let mut out = Vec::new();
    for q in s.as_bytes().chunks(4) {
        let v = (value(q[0]) << 18) | (value(q[1]) << 12) | (value(q[2]) << 6) | value(q[3]);
        out.push((v >> 16) as u8);
        if q[2] != b'=' {
            out.push((v >> 8) as u8);
        }
        if q[3] != b'=' {
            out.push(v as u8);
        }
    }
    out
}

#[test]
fn base64_decodes_back_to_its_bytes() {
    let inputs: [&[u8]; 6] = [b"", &[0], &[0xff, 0xfe], &[1, 2, 3], &[0xfb, 0xff, 0xbf, 0x00, 0x10], b"winbend preview"];
    for bytes in inputs {
        let text = base64(bytes);
        assert_eq!(text.len(), 4 * bytes.len().div_ceil(3));
        assert_eq!(rfc4648_decode(&text), bytes);
    }
}
