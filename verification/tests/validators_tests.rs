//! Conversion-function validation: durations, paths, permissions, URLs,
//! addresses and ports.
use predikit::validators::parse_validator;

#[test]
fn test_duration_parse() {
    let result = parse_validator("test".to_string(), "d", "(  10s  )".to_string(), 0, 3);
    assert!(result.is_ok());
}

#[test]
fn test_invalid_duration() {
    let result = parse_validator("test".to_string(), "d", "(invalid)".to_string(), 0, 7);
    assert!(result.is_err());
}

#[test]
fn test_path_parse() {
    let result = parse_validator("test".to_string(), "p", "(  /tmp/test  )".to_string(), 0, 9);
    assert!(result.is_ok());
}

#[test]
fn test_invalid_path() {
    let result = parse_validator("test".to_string(), "p", "()".to_string(), 0, 13);
    assert!(result.is_err());
}

#[test]
fn test_url_parse() {
    let result = parse_validator(
        "test".to_string(),
        "url",
        "(  http://example.com  )".to_string(),
        0,
        18,
    );
    assert!(result.is_ok());
}

#[test]
fn test_invalid_url() {
    let result = parse_validator("test".to_string(), "url", "(not a url)".to_string(), 0, 9);
    assert!(result.is_err());
}

#[test]
fn test_ip_parse() {
    let result = parse_validator(
        "test".to_string(),
        "ip",
        "(  127.0.0.1  )".to_string(),
        0,
        9,
    );
    assert!(result.is_ok());
}

#[test]
fn test_invalid_ip() {
    let result = parse_validator("test".to_string(), "ip", "(not.an.ip)".to_string(), 0, 9);
    assert!(result.is_err());
}

#[test]
fn test_ipv4_parse() {
    let result = parse_validator(
        "test".to_string(),
        "ipv4",
        "(  192.168.1.1  )".to_string(),
        0,
        11,
    );
    assert!(result.is_ok());
}

#[test]
fn test_invalid_ipv4() {
    let result = parse_validator(
        "test".to_string(),
        "ipv4",
        "(  256.1.2.3  )".to_string(),
        0,
        9,
    );
    assert!(result.is_err());
}

#[test]
fn test_ipv6_parse() {
    let result = parse_validator("test".to_string(), "ipv6", "(::1)".to_string(), 0, 3);
    assert!(result.is_ok());
}

#[test]
fn test_invalid_ipv6() {
    let result = parse_validator(
        "test".to_string(),
        "ipv6",
        "(invalid_ipv6)".to_string(),
        0,
        11,
    );
    assert!(result.is_err());
}

#[test]
fn test_port_parse() {
    let result = parse_validator("test".to_string(), "port", "(  8080 )".to_string(), 0, 4);
    assert!(result.is_ok());
}

#[test]
fn test_invalid_port() {
    let result = parse_validator("test".to_string(), "port", "(  65536  )".to_string(), 0, 5);
    assert!(result.is_err());
}

#[test]
fn test_invalid_port2() {
    let result = parse_validator("test".to_string(), "port", "(  pants )".to_string(), 0, 5);
    assert!(result.is_err());
}

#[test]
fn test_fileperms_parse() {
    let result = parse_validator(
        "test".to_string(),
        "fileperms",
        "(  644  )".to_string(),
        0,
        3,
    );
    assert!(result.is_ok());
}

#[test]
fn test_invalid_fileperms() {
    let result = parse_validator("test".to_string(), "fileperms", "(999)".to_string(), 0, 3);
    assert!(result.is_err());
}

#[test]
fn test_invalid_fileperms2() {
    let result = parse_validator(
        "test".to_string(),
        "fileperms",
        "(  pants )".to_string(),
        0,
        3,
    );
    assert!(result.is_err());
}

// An unknown conversion name is refused outright.
#[test]
fn unknown_conversion_is_refused() {
    let result = parse_validator("test".to_string(), "frobnicate", "(x)".to_string(), 0, 3);
    assert!(result.is_err());
}
