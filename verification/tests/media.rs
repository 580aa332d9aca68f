use jobowalls::media::{classify_path, classify_signature, has_supported_extension, MediaKind};

#[test]
fn classifies_static_extensions() {
    assert_eq!(classify_path("wall.png", None).unwrap(), MediaKind::Static);
    assert_eq!(classify_path("wall.WEBP", None).unwrap(), MediaKind::Static);
}

#[test]
fn classifies_live_extensions() {
    assert_eq!(classify_path("rain.mp4", None).unwrap(), MediaKind::Live);
    assert_eq!(classify_path("rain.MKV", None).unwrap(), MediaKind::Live);
}

#[test]
fn rejects_unknown_extensions() {
    assert!(classify_path("notes.txt", None).is_err());
}

#[test]
fn falls_back_to_file_signature_without_extension() {
    let bytes: &[u8] = b"\x89PNG\r\n\x1a\nrest";
    assert_eq!(classify_path("/tmp/wall", Some(bytes)).unwrap(), MediaKind::Static);
}

#[test]
fn unknown_media_error_names_the_path() {
    let bytes: &[u8] = b"plain text";
    assert_eq!(
        classify_path("/tmp/notes", Some(bytes)).unwrap_err(),
        "unsupported wallpaper media type: /tmp/notes"
    );
}

#[test]
fn recognises_video_signatures() {
    let mp4: &[u8] = b"\x00\x00\x00\x18ftypisom\x00\x00";
    let mkv: &[u8] = &[0x1a, 0x45, 0xdf, 0xa3, 0x00];
    let webp: &[u8] = b"RIFF\x00\x00\x00\x00WEBPVP8 ";
    assert_eq!(classify_signature(mp4), Some(MediaKind::Live));
    assert_eq!(classify_signature(mkv), Some(MediaKind::Live));
    assert_eq!(classify_signature(webp), Some(MediaKind::Static));
    assert_eq!(classify_signature(b"GIF89a"), Some(MediaKind::Static));
    assert_eq!(classify_signature(b"nothing"), None);
}

#[test]
fn supported_extension_ignores_case_and_needs_a_dot() {
    assert!(has_supported_extension("/tmp/a.JpEg"));
    assert!(!has_supported_extension("/tmp/jpg"));
    assert!(!has_supported_extension("/tmp/.png"));
}
