use quicuts::icon::{
    base64_encode, bitmap_data_uri, bgra_to_rgba, data_uri, icon_file_mime, icon_mime, png_data_uri,
    MAX_ICON_BYTES,
};

#[test]
fn base64_matches_reference() {
    assert_eq!(base64_encode(b""), "");
    assert_eq!(base64_encode(b"f"), "Zg==");
    assert_eq!(base64_encode(b"fo"), "Zm8=");
    assert_eq!(base64_encode(b"foo"), "Zm9v");
    assert_eq!(base64_encode(b"foobar"), "Zm9vYmFy");
}

#[test]
fn base64_uses_the_whole_alphabet() {
    assert_eq!(base64_encode(&[0xFB, 0xFF]), "+/8=");
    assert_eq!(base64_encode(&[0x00, 0x00, 0x00]), "AAAA");
    assert_eq!(base64_encode(&[0xFF, 0xFF, 0xFF, 0xFF]), "/////w==");
    assert_eq!(base64_encode(b"Man is"), "TWFuIGlz");
}

#[test]
fn data_uri_prefixes_mime() {
    assert_eq!(data_uri("image/png", b"fake-png-bytes"), format!("data:image/png;base64,{}", base64_encode(b"fake-png-bytes")));
    assert_eq!(png_data_uri(b"fo"), "data:image/png;base64,Zm8=");
}

#[test]
fn icon_mime_by_extension() {
    assert_eq!(icon_mime("png"), Some("image/png"));
    assert_eq!(icon_mime("PNG"), Some("image/png"));
    assert_eq!(icon_mime("jpg"), Some("image/jpeg"));
    assert_eq!(icon_mime("Jpeg"), Some("image/jpeg"));
    assert_eq!(icon_mime("gif"), Some("image/gif"));
    assert_eq!(icon_mime("webp"), Some("image/webp"));
    assert_eq!(icon_mime("svg"), Some("image/svg+xml"));
    assert_eq!(icon_mime("ico"), Some("image/x-icon"));
    assert_eq!(icon_mime("bmp"), Some("image/bmp"));
    assert_eq!(icon_mime("exe"), None);
    assert_eq!(icon_mime(""), None);
}

#[test]
fn oversized_or_unknown_icon_files_are_not_inlined() {
    assert_eq!(icon_file_mime(Some("png"), 14), Some("image/png"));
    assert_eq!(icon_file_mime(Some("png"), MAX_ICON_BYTES), Some("image/png"));
    assert_eq!(icon_file_mime(Some("png"), MAX_ICON_BYTES + 1), None);
    assert_eq!(icon_file_mime(Some("exe"), 4), None);
    assert_eq!(icon_file_mime(None, 4), None);
    assert_eq!(MAX_ICON_BYTES, 512 * 1024);
}

#[test]
fn bgra_swaps_whole_pixels_only() {
    let mut px = vec![1u8, 2, 3, 4, 5, 6, 7, 8, 9, 10];
    bgra_to_rgba(&mut px);
    assert_eq!(px, vec![3u8, 2, 1, 4, 7, 6, 5, 8, 9, 10]);
}

#[test]
fn bitmap_becomes_a_png_data_uri() {
    // One opaque blue pixel in BGRA.
    let uri = bitmap_data_uri(1, 1, vec![255, 0, 0, 255]).unwrap();
    assert!(uri.starts_with("data:image/png;base64,iVBORw0KGgo"));
    // Wrong buffer size and empty images are refused.
    assert_eq!(bitmap_data_uri(2, 1, vec![255, 0, 0, 255]), None);
    assert_eq!(bitmap_data_uri(0, 0, Vec::new()), None);
}
