use stellarfiles::perms::{format_mode, parse_mode};

#[test]
fn modes_print_as_four_octal_digits() {
    assert_eq!(format_mode(0o644), "0644");
    assert_eq!(format_mode(0), "0000");
    assert_eq!(format_mode(0o7777), "7777");
    assert_eq!(format_mode(0o100644), "100644");
    assert_eq!(format!("{:04o}", 0o100644), format_mode(0o100644));
}

#[test]
fn modes_parse_as_octal() {
    assert_eq!(parse_mode("0755"), Some(0o755));
    assert_eq!(parse_mode("+17"), Some(0o17));
    assert_eq!(parse_mode("8"), None);
    assert_eq!(parse_mode(""), None);
    assert_eq!(parse_mode("+"), None);
    assert_eq!(parse_mode("-1"), None);
    assert_eq!(parse_mode("37777777777"), Some(u32::MAX));
    assert_eq!(parse_mode("40000000000"), None);
    assert_eq!(parse_mode(" 7"), None);
    for m in [0u32, 0o644, 0o755, 0o4777, u32::MAX] {
        assert_eq!(parse_mode(&format_mode(m)), Some(m));
        assert_eq!(parse_mode(&format_mode(m)), u32::from_str_radix(&format!("{:04o}", m), 8).ok());
    }
}
