use abelscreensaver::classify::{MediaKind, classify, is_hidden, is_valid_media};

#[test]
fn classifies_png_as_image() {
    assert_eq!(classify("photo.png", false), MediaKind::Image);
    assert!(is_valid_media("photo.png", false));
}

#[test]
fn classifies_jpeg_as_image() {
    assert_eq!(classify("holiday.jpg", true), MediaKind::Image);
}

#[test]
fn svg_is_always_rejected() {
    assert_eq!(classify("icon.svg", true), MediaKind::Rejected);
    assert_eq!(classify("icon.svg", false), MediaKind::Rejected);
    assert!(!is_valid_media("icon.svg", true));
}

#[test]
fn video_depends_on_flag() {
    assert_eq!(classify("clip.mp4", true), MediaKind::Video);
    assert_eq!(classify("clip.mp4", false), MediaKind::Rejected);
    assert!(is_valid_media("clip.mp4", true));
    assert!(!is_valid_media("clip.mp4", false));
}

#[test]
fn unknown_types_rejected() {
    assert_eq!(classify("notes.txt", true), MediaKind::Rejected);
    assert_eq!(classify("bare", true), MediaKind::Rejected);
    assert_eq!(classify("", true), MediaKind::Rejected);
}

#[test]
fn hidden_names_start_with_a_dot() {
    assert!(is_hidden(".config"));
    assert!(is_hidden("."));
    assert!(!is_hidden("photo.png"));
    assert!(!is_hidden(""));
}
