use gigabroom::utils::{expand_tilde, format_size, get_project_name, parse_size, u64_to_string};

#[test]
fn test_parse_size() {
    assert_eq!(parse_size("1024").unwrap(), 1024);
    assert_eq!(parse_size("1KB").unwrap(), 1024);
    assert_eq!(parse_size("1MB").unwrap(), 1024 * 1024);
    assert_eq!(parse_size("1GB").unwrap(), 1024 * 1024 * 1024);
    assert_eq!(parse_size("1TB").unwrap(), 1024_u64.pow(4));
    assert_eq!(parse_size("100mb").unwrap(), 100 * 1024 * 1024);
}

#[test]
fn test_format_size() {
    assert_eq!(format_size(1024), "1.00 KB");
    assert_eq!(format_size(1024 * 1024), "1.00 MB");
    assert_eq!(format_size(1536 * 1024 * 1024), "1.50 GB");
}

#[test]
fn test_expand_tilde() {
    let expanded = expand_tilde("~/test", Some("/home/someone"));
    assert!(expanded.contains("test"));
    assert!(!expanded.starts_with("~"));
    assert_eq!(expanded, "/home/someone/test");

    let expanded_home = expand_tilde("~", Some("/home/someone"));
    assert!(!expanded_home.is_empty());
    assert_eq!(expanded_home, "/home/someone");

    let normal = expand_tilde("/usr/local/bin", Some("/home/someone"));
    assert_eq!(normal, "/usr/local/bin");
}

#[test]
fn test_expand_tilde_without_home() {
    assert_eq!(expand_tilde("~/test", None), "~/test");
    assert_eq!(expand_tilde("a\\ b", None), "a b");
}

#[test]
fn test_parse_size_exact_bytes() {
    assert_eq!(parse_size("100MB").unwrap(), 104857600);
    assert_eq!(parse_size("1GB").unwrap(), 1073741824);
    assert_eq!(parse_size("500").unwrap(), 500);
    assert!(parse_size("abc").is_err());
}

#[test]
fn test_parse_size_whitespace_and_bare_b() {
    assert_eq!(parse_size("  42  ").unwrap(), 42);
    assert_eq!(parse_size("100 MB").unwrap(), 104857600);
    assert_eq!(parse_size("500B").unwrap(), 500);
    assert!(parse_size("").is_err());
    assert!(parse_size("MB").is_err());
    assert!(parse_size("-5").is_err());
    assert!(parse_size("12.5MB").is_err());
}

#[test]
fn test_parse_size_error_message() {
    let err = parse_size("abc").unwrap_err();
    assert_eq!(err, "Invalid size format: ABC");
}

#[test]
fn test_parse_size_saturates() {
    // 20000000 TB does not fit in u64; the product saturates.
    assert_eq!(parse_size("20000000TB").unwrap(), u64::MAX);
    // A number that itself overflows u64 is a parse error.
    assert!(parse_size("99999999999999999999").is_err());
}

#[test]
fn test_format_size_bytes_and_rounding() {
    assert_eq!(format_size(0), "0 B");
    assert_eq!(format_size(1023), "1023 B");
    assert_eq!(format_size(1536), "1.50 KB");
    assert_eq!(format_size(1024_u64.pow(4)), "1.00 TB");
}

#[test]
fn test_u64_to_string() {
    assert_eq!(u64_to_string(0), "0");
    assert_eq!(u64_to_string(907), "907");
    assert_eq!(u64_to_string(u64::MAX), "18446744073709551615");
}

#[test]
fn test_get_project_name() {
    assert_eq!(get_project_name("/work/proj/target"), "proj");
    assert_eq!(get_project_name("a/b"), "a");
    assert_eq!(get_project_name("/a"), "Unknown");
    assert_eq!(get_project_name("alone"), "Unknown");
    assert_eq!(get_project_name(""), "Unknown");
}
