use frots::config::{Config, ConfigError};

#[test]
fn plain_byte_count_parses() {
    let cfg = Config::new("a.log".to_string(), "100", 2, false, false).unwrap();
    assert_eq!(cfg.file_path, "a.log");
    assert_eq!(cfg.file_sz_lim, 100);
    assert_eq!(cfg.num_rotate, 2);
    assert!(!cfg.tee);
}

#[test]
fn unit_suffixes_parse() {
    let cfg = Config::new("f".to_string(), "1KiB", 1, false, true).unwrap();
    assert_eq!(cfg.file_sz_lim, 1024);
    assert!(cfg.tee);
    let cfg = Config::new("f".to_string(), "3MB", 1, false, false).unwrap();
    assert_eq!(cfg.file_sz_lim, 3_000_000);
}

#[test]
fn malformed_size_limit_rejected() {
    let r = Config::new("f".to_string(), "not-a-size", 1, false, false);
    assert_eq!(r.unwrap_err(), ConfigError::BadSizeLimit);
}

#[test]
fn zero_rotation_count_rejected() {
    let r = Config::new("f".to_string(), "1G", 0, false, false);
    assert_eq!(r.unwrap_err(), ConfigError::ZeroRotate);
}

#[test]
fn bad_size_reported_before_zero_rotate() {
    let r = Config::new("f".to_string(), "", 0, false, false);
    assert_eq!(r.unwrap_err(), ConfigError::BadSizeLimit);
}
