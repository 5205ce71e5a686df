use picocode::image::{base64_encode, guess_image_mime, image_attachment_from_bytes, MAX_IMAGE_BYTES};

#[test]
fn base64_pads_short_groups() {
    assert_eq!(base64_encode(b"Man"), "TWFu");
    assert_eq!(base64_encode(b"Ma"), "TWE=");
    assert_eq!(base64_encode(b"M"), "TQ==");
    assert_eq!(base64_encode(b""), "");
    assert_eq!(base64_encode(&[0xFB, 0xFF]), "+/8=");
}

#[test]
fn base64_length_is_four_per_group() {
    for n in 0..20usize {
        let bytes = vec![7u8; n];
        assert_eq!(base64_encode(&bytes).len(), 4 * ((n + 2) / 3));
    }
}

#[test]
fn mime_comes_from_magic_bytes_before_extension() {
    let png = [0x89, b'P', b'N', b'G', 0x0D, 0x0A, 0x1A, 0x0A, 0];
    assert_eq!(guess_image_mime(Some("jpg"), &png), Some("image/png"));
    assert_eq!(guess_image_mime(None, &[0xFF, 0xD8, 0xFF, 0xE0]), Some("image/jpeg"));
    assert_eq!(guess_image_mime(None, b"GIF89a..."), Some("image/gif"));
    assert_eq!(guess_image_mime(None, b"RIFF\0\0\0\0WEBPVP8 "), Some("image/webp"));
    assert_eq!(guess_image_mime(None, b"BM...."), Some("image/bmp"));
    assert_eq!(guess_image_mime(Some("SVG"), b"<svg/>"), Some("image/svg+xml"));
    assert_eq!(guess_image_mime(Some("JPEG"), b"????"), Some("image/jpeg"));
    assert_eq!(guess_image_mime(Some("txt"), b"hello"), None);
    assert_eq!(guess_image_mime(None, b"hello"), None);
}

#[test]
fn attachment_builds_data_url() {
    let png = [0x89, b'P', b'N', b'G', 0x0D, 0x0A, 0x1A, 0x0A];
    let a = image_attachment_from_bytes("./shot.png".to_owned(), "shot.png".to_owned(), "./shot.png", Some("png"), &png)
        .unwrap();
    assert_eq!(a.mime_type, "image/png");
    assert_eq!(a.byte_len, 8);
    assert_eq!(a.data_url, "data:image/png;base64,iVBORw0KGgo=");
}

#[test]
fn attachment_refuses_empty_large_and_unknown_files() {
    assert_eq!(
        image_attachment_from_bytes("a".to_owned(), "a".to_owned(), "/tmp/a.png", Some("png"), &[]).unwrap_err(),
        "image file is empty: /tmp/a.png"
    );
    let big = vec![0u8; MAX_IMAGE_BYTES + 1];
    assert_eq!(
        image_attachment_from_bytes("a".to_owned(), "a".to_owned(), "a", Some("png"), &big).unwrap_err(),
        "image is too large: 5242881 bytes exceeds 5242880 bytes"
    );
    assert_eq!(
        image_attachment_from_bytes("a".to_owned(), "a".to_owned(), "a", Some("Txt"), b"x").unwrap_err(),
        "unsupported image format: Txt"
    );
    assert_eq!(
        image_attachment_from_bytes("a".to_owned(), "a".to_owned(), "a", None, b"x").unwrap_err(),
        "unsupported image format: <unknown>"
    );
}
