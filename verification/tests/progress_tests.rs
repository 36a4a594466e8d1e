use stellarfiles::copying::{copy_step, CopyStep, CopyTransfer, COPY_CHUNK};
use stellarfiles::errors::AppError;
use stellarfiles::math::{FileKind, MetaInfo};
use stellarfiles::progress::{copy_report_due, is_utf8, parse_percent_line, ProgressCounter, SevenZipProgress};

#[test]
fn seven_zip_percentages() {
    assert_eq!(parse_percent_line(b" 45% 12 + file.txt"), Some(45));
    assert_eq!(parse_percent_line(b"100%"), Some(100));
    assert_eq!(parse_percent_line(b"  7% a 50%"), Some(50));
    assert_eq!(parse_percent_line(b"no percent"), None);
    assert_eq!(parse_percent_line(b"x%"), None);
    assert_eq!(parse_percent_line(b" +3%"), Some(3));
    assert_eq!(parse_percent_line(&[0xff, b'5', b'%']), None);
    assert_eq!(parse_percent_line(b"99999999999999999999%"), None);
}

#[test]
fn utf8_check() {
    assert!(is_utf8("héllo €".as_bytes()));
    assert!(!is_utf8(&[0xc3]));
    assert!(!is_utf8(&[0xed, 0xa0, 0x80]));
}

#[test]
fn seven_zip_progress_turns_percentages_into_bytes() {
    let mut p = SevenZipProgress::new(1000);
    let mut chunks = Vec::new();
    for b in b" 10%\r 10%\r 35% x\r 5%\r120%\r100%\n".iter() {
        if let Some(c) = p.push_byte(*b) {
            chunks.push(c);
        }
    }
    assert_eq!(chunks, vec![100, 250, 650]);
    assert_eq!(chunks.iter().sum::<u64>(), 1000);
}

#[test]
fn progress_counter_checks_every_half_megabyte() {
    let mut c = ProgressCounter::new();
    assert!(!c.record(500_000));
    assert!(c.record(24_288));
    assert!(c.has_pending());
    assert_eq!(c.take_report(), 524_288);
    assert!(!c.has_pending());
    assert!(!copy_report_due(1_048_576, 51));
    assert!(copy_report_due(1_048_577, 51));
    assert!(!copy_report_due(2_000_000, 50));
}

#[test]
fn copy_steps() {
    let reg = MetaInfo { kind: FileKind::Regular, nlink: 1 };
    assert_eq!(copy_step(&reg, false, true), Ok(CopyStep::Contents { overwrite: false }));
    assert_eq!(copy_step(&reg, true, false), Ok(CopyStep::Contents { overwrite: true }));
    let link = MetaInfo { kind: FileKind::Symlink, nlink: 1 };
    assert_eq!(copy_step(&link, true, true), Ok(CopyStep::Link { replace: true }));
    assert_eq!(copy_step(&link, true, false), Ok(CopyStep::Link { replace: false }));
    assert_eq!(copy_step(&link, false, true), Ok(CopyStep::Link { replace: false }));
    let dir = MetaInfo { kind: FileKind::Directory, nlink: 3 };
    assert_eq!(copy_step(&dir, false, false), Ok(CopyStep::Descend));
    let fifo = MetaInfo { kind: FileKind::Fifo, nlink: 1 };
    assert_eq!(
        copy_step(&fifo, false, false),
        Err(AppError::Security("Target is a system device. Cannot operate safely.".to_string()))
    );
}

#[test]
fn a_transfer_reports_every_byte_once() {
    let size = 10 * 1024 * 1024 + 17;
    let mut t = CopyTransfer::new(size);
    let mut reported = 0;
    let mut step = 0;
    while t.remaining > 0 {
        let n = t.next_len();
        assert!(n <= COPY_CHUNK);
        if let Some(r) = t.advance(n, if step % 2 == 0 { 60 } else { 10 }) {
            reported += r;
        }
        step += 1;
    }
    if let Some(r) = t.finish() {
        reported += r;
    }
    assert_eq!(reported, size);
    assert_eq!(t.bytes_acc, 0);
}

#[test]
fn transfer_reports_only_when_due() {
    let mut t = CopyTransfer::new(3_000_000);
    assert_eq!(t.next_len(), 3_000_000);
    assert_eq!(t.advance(1_000_000, 100), None);
    assert_eq!(t.advance(100_000, 10), None);
    assert_eq!(t.advance(100_000, 100), Some(1_200_000));
    assert_eq!(t.finish(), None);
}

#[test]
fn seven_zip_lines_that_are_not_utf8_are_kept() {
    let mut p = SevenZipProgress::new(1000);
    let mut chunks = Vec::new();
    for b in [0xffu8, b'\r', b' ', b'5', b'0', b'%', b'\n'] {
        if let Some(c) = p.push_byte(b) {
            chunks.push(c);
        }
    }
    // The broken byte stays in the partial line, so no percentage is read.
    assert!(chunks.is_empty());
}

#[test]
fn extraction_progress_clears_every_line() {
    let mut p = SevenZipProgress::for_extraction(1000);
    let mut chunks = Vec::new();
    for b in [0xffu8, b'\r', b' ', b'5', b'0', b'%', b'\n'] {
        if let Some(c) = p.push_byte(b) {
            chunks.push(c);
        }
    }
    // The broken line ends at the carriage return; the next one is read.
    assert_eq!(chunks, vec![500]);
}
