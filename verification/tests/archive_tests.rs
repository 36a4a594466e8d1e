use stellarfiles::archive::{
    bz3_block, gz_level, mode_is_symlink, p7z_args, stored_name_of, walked_entry_name_of,
    zip_level, zip_symlink_mode, zstd_level, ArchiveFormat, CompressionLevel,
};
use stellarfiles::paths::is_safe_path;

#[test]
fn test_is_safe_path() {
    assert!(is_safe_path("valid/folder/file.txt"));
    assert!(is_safe_path("file.txt"));

    assert!(!is_safe_path("../file.txt"));
    assert!(!is_safe_path("valid/../../file.txt"));
    assert!(!is_safe_path("/etc/passwd"));
}

#[test]
fn test_archive_format_parsing() {
    assert_eq!(ArchiveFormat::from_filename("archive.7z"), ArchiveFormat::SevenZ);
    assert_eq!(ArchiveFormat::from_filename("archive.ZIP"), ArchiveFormat::Zip);
    assert_eq!(ArchiveFormat::from_filename("file.TAR.BZ3"), ArchiveFormat::TarBz3);
    assert_eq!(ArchiveFormat::from_filename("backup.tzst"), ArchiveFormat::TarZst);
    assert_eq!(ArchiveFormat::from_filename("backup.tar.gz"), ArchiveFormat::TarGz);
    assert_eq!(ArchiveFormat::from_filename("unknown.rar"), ArchiveFormat::Unsupported);
}

#[test]
fn archive_format_more_names() {
    assert_eq!(ArchiveFormat::from_filename("x.TGZ"), ArchiveFormat::TarGz);
    assert_eq!(ArchiveFormat::from_filename("x.tar"), ArchiveFormat::Tar);
    assert_eq!(ArchiveFormat::from_filename("x.tar.zst"), ArchiveFormat::TarZst);
    assert_eq!(ArchiveFormat::from_filename(".7z"), ArchiveFormat::SevenZ);
    assert_eq!(ArchiveFormat::from_filename("zip"), ArchiveFormat::Unsupported);
}

#[test]
fn archive_format_ids() {
    assert_eq!(ArchiveFormat::from_str_id("7z"), ArchiveFormat::SevenZ);
    assert_eq!(ArchiveFormat::from_str_id("ZIP"), ArchiveFormat::Zip);
    assert_eq!(ArchiveFormat::from_str_id("tar.bz3"), ArchiveFormat::TarBz3);
    assert_eq!(ArchiveFormat::from_str_id("Tar.Zst"), ArchiveFormat::TarZst);
    assert_eq!(ArchiveFormat::from_str_id("tar.gz"), ArchiveFormat::TarGz);
    assert_eq!(ArchiveFormat::from_str_id("tar"), ArchiveFormat::Tar);
    assert_eq!(ArchiveFormat::from_str_id("rar"), ArchiveFormat::Unsupported);
    assert_eq!(ArchiveFormat::from_str_id(" zip"), ArchiveFormat::Unsupported);
}

#[test]
fn compression_levels() {
    assert_eq!(CompressionLevel::from_str("Fast"), CompressionLevel::Fast);
    assert_eq!(CompressionLevel::from_str("Maximum"), CompressionLevel::Maximum);
    assert_eq!(CompressionLevel::from_str("Normal"), CompressionLevel::Normal);
    assert_eq!(CompressionLevel::from_str("fast"), CompressionLevel::Normal);
    assert_eq!(zip_level(CompressionLevel::Fast), 1);
    assert_eq!(zip_level(CompressionLevel::Normal), 5);
    assert_eq!(zip_level(CompressionLevel::Maximum), 9);
    assert_eq!(zstd_level(CompressionLevel::Fast), 1);
    assert_eq!(zstd_level(CompressionLevel::Normal), 3);
    assert_eq!(zstd_level(CompressionLevel::Maximum), 19);
    assert_eq!(gz_level(CompressionLevel::Fast), 1);
    assert_eq!(gz_level(CompressionLevel::Normal), 6);
    assert_eq!(gz_level(CompressionLevel::Maximum), 9);
    assert_eq!(bz3_block(CompressionLevel::Fast), 100 * 1024);
    assert_eq!(bz3_block(CompressionLevel::Normal), 500 * 1024);
    assert_eq!(bz3_block(CompressionLevel::Maximum), 1024 * 1024);
    assert_eq!(p7z_args(CompressionLevel::Fast), vec!["-mx=1", "-ms=16m"]);
    assert_eq!(p7z_args(CompressionLevel::Normal), vec!["-mx=5", "-ms=64m"]);
    assert_eq!(p7z_args(CompressionLevel::Maximum), vec!["-mx=9", "-ms=128m"]);
}

#[test]
fn gz_levels_match_flate2() {
    assert_eq!(gz_level(CompressionLevel::Fast), flate2::Compression::fast().level());
    assert_eq!(gz_level(CompressionLevel::Normal), flate2::Compression::default().level());
    assert_eq!(gz_level(CompressionLevel::Maximum), flate2::Compression::best().level());
}

#[test]
fn symlink_modes() {
    assert!(mode_is_symlink(0o120777));
    assert!(!mode_is_symlink(0o100644));
    assert!(!mode_is_symlink(0o040755));
    assert_eq!(zip_symlink_mode(0o120755), 0o120755);
    assert_eq!(zip_symlink_mode(0o100644), 0o120644);
}

#[test]
fn walked_entry_names() {
    assert_eq!(walked_entry_name_of("/home/u/photos", "/home/u/photos/a/b.jpg"), Some("photos/a/b.jpg".to_string()));
    assert_eq!(walked_entry_name_of("/home/u/photos", "/home/u/photos"), Some("photos".to_string()));
    assert_eq!(walked_entry_name_of("/", "/"), None);
    assert_eq!(walked_entry_name_of("/home/u/photos", "/etc/passwd"), None);
    assert_eq!(walked_entry_name_of("docs", "docs/x.txt"), Some("docs/x.txt".to_string()));
}

#[test]
fn stored_file_names() {
    assert_eq!(stored_name_of("/home/u/a.txt"), Some("a.txt".to_string()));
    assert_eq!(stored_name_of("/"), Some(String::new()));
}

#[test]
fn names_written_with_a_format_id_read_back_as_that_format() {
    for id in ["7z", "zip", "tar.bz3", "tar.zst", "tar.gz", "tar"] {
        for stem in ["", "a", "my.photos", "x.zip"] {
            let name = format!("{stem}.{id}");
            assert_eq!(ArchiveFormat::from_filename(&name), ArchiveFormat::from_str_id(id));
            assert_ne!(ArchiveFormat::from_str_id(id), ArchiveFormat::Unsupported);
        }
    }
}
