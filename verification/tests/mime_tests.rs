use stellarfiles::mime::{icon_for_mime, label_for_mime, resolve_icon, resolve_mime_str};

#[test]
fn test_resolve_mime_str() {
    assert_eq!(resolve_mime_str("tensor_category", true), "Folder");
    assert_eq!(resolve_mime_str("ozric_tentacles.jpg", false), "Image");
    assert_eq!(resolve_mime_str("space_ritual.mp4", false), "Video");
    assert_eq!(resolve_mime_str("poincare_conjecture.txt", false), "Document");
    assert_eq!(resolve_mime_str("doremi_fasol_latido.zip", false), "Archive");

    // unknown files default to application/octet-stream, which evaluates to Application
    assert_eq!(resolve_mime_str("riemann.zeta", false), "Application");
}

#[test]
fn test_resolve_icon() {
    assert_eq!(resolve_icon("homotopy_group", true), "folder-symbolic");
    assert_eq!(resolve_icon("levitation.png", false), "image-x-generic-symbolic");
    assert_eq!(resolve_icon("incompleteness.js", false), "text-x-script-symbolic");
    assert_eq!(resolve_icon("masters_of_the_universe.tar.gz", false), "package-x-generic-symbolic");
}

#[test]
fn labels_and_icons_by_type() {
    assert_eq!(label_for_mime("audio", "mpeg"), "Audio");
    assert_eq!(label_for_mime("application", "pdf"), "PDF Document");
    assert_eq!(label_for_mime("application", "x-tar"), "Archive");
    assert_eq!(label_for_mime("font", "woff"), "File");
    assert_eq!(icon_for_mime("text", "html"), "text-html-symbolic");
    assert_eq!(icon_for_mime("text", "plain"), "text-x-generic-symbolic");
    assert_eq!(icon_for_mime("application", "x-7z-compressed"), "package-x-generic-symbolic");
    assert_eq!(icon_for_mime("application", "octet-stream"), "application-x-executable-symbolic");
    assert_eq!(icon_for_mime("video", "mp4"), "video-x-generic-symbolic");
}
