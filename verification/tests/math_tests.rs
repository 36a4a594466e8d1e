use stellarfiles::errors::AppError;
use stellarfiles::math::{check_security, format_bytes, sanitize_filename, warns_about_links, FileKind, MetaInfo};

#[test]
fn test_format_bytes() {
    assert_eq!(format_bytes(0), "0 B");

    assert_eq!(format_bytes(1_729), "1 KB");
    assert_eq!(format_bytes(1_618_033), "1.6 MB");
    assert_eq!(format_bytes(3_141_592_653), "3.1 GB");
}

#[test]
fn format_bytes_unit_boundaries() {
    assert_eq!(format_bytes(999), "999 B");
    assert_eq!(format_bytes(1_000), "1 KB");
    assert_eq!(format_bytes(999_999), "999 KB");
    assert_eq!(format_bytes(1_000_000), "1.0 MB");
    assert_eq!(format_bytes(999_999_999), "1000.0 MB");
    assert_eq!(format_bytes(1_000_000_000), "1.0 GB");
}

#[test]
fn format_bytes_rounds_like_the_float_quotient() {
    // 1.05 and 1.15 have no exact double: the nearest ones lie above and
    // below, and the tenth follows them.
    assert_eq!(format_bytes(1_050_000), "1.1 MB");
    assert_eq!(format_bytes(1_150_000), "1.1 MB");
    // 1.25 is exact: the tie goes to the even tenth.
    assert_eq!(format_bytes(1_250_000), "1.2 MB");
    assert_eq!(format_bytes(1_750_000), "1.8 MB");
    assert_eq!(format_bytes(u64::MAX), "18446744073.7 GB");
}

#[test]
fn test_sanitize_filename() {
    // valid names
    assert_eq!(
        sanitize_filename("banach-tarski_sphere.obj").unwrap(),
        "banach-tarski_sphere.obj"
    );
    assert_eq!(
        sanitize_filename("  flying teapot  ").unwrap(),
        "  flying teapot  "
    );

    // invalid names
    assert!(sanitize_filename("").is_err());
    assert!(sanitize_filename("   ").is_err());
    assert!(sanitize_filename(".").is_err());
    assert!(sanitize_filename("..").is_err());
    assert!(sanitize_filename("hawkwind/slash.txt").is_err());
    assert!(sanitize_filename("null\0byte").is_err());
}

#[test]
fn sanitize_filename_error_is_a_security_violation() {
    let e = sanitize_filename(" .. ").unwrap_err();
    assert_eq!(e, AppError::Security("Invalid filename.".to_string()));
    assert_eq!(e.message(), "Security violation: Invalid filename.");
    assert_eq!(sanitize_filename(" ...").unwrap(), " ...");
}

#[test]
fn test_check_security_standard_file() {
    let meta = MetaInfo { kind: FileKind::Regular, nlink: 1 };

    let result = check_security(&meta);
    assert!(result.is_ok(), "Standard files should pass security checks");
}

#[test]
fn check_security_refuses_devices() {
    for kind in [FileKind::BlockDevice, FileKind::CharDevice, FileKind::Fifo, FileKind::Socket] {
        let r = check_security(&MetaInfo { kind, nlink: 1 });
        assert_eq!(
            r,
            Err(AppError::Security("Target is a system device. Cannot operate safely.".to_string()))
        );
    }
    assert!(check_security(&MetaInfo { kind: FileKind::Directory, nlink: 2 }).is_ok());
    assert!(check_security(&MetaInfo { kind: FileKind::Symlink, nlink: 1 }).is_ok());
}

#[test]
fn hard_links_are_warned_about() {
    assert!(warns_about_links(&MetaInfo { kind: FileKind::Regular, nlink: 2 }));
    assert!(!warns_about_links(&MetaInfo { kind: FileKind::Regular, nlink: 1 }));
}

#[test]
fn error_messages() {
    assert_eq!(AppError::Io("disk full".into()).message(), "I/O Error: disk full");
    assert_eq!(AppError::Cancelled.message(), "Operation cancelled.");
    assert_eq!(AppError::AlreadyExists("/a".into()).message(), "Target already exists: /a");
    assert_eq!(AppError::Archive("bad".into()).message(), "Archive error: bad");
    assert_eq!(AppError::Task("gone".into()).message(), "Task failed: gone");
    assert_eq!(AppError::security("x"), AppError::Security("x".into()));
}
