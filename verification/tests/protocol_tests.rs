use disco_foundation::error::ProtocolError;
use disco_foundation::protocol::{ErrorCode, ProtocolVersion, Versioned};

#[test]
fn versions_render_as_major_dot_minor() {
    assert_eq!(ProtocolVersion::new(1, 0).to_string(), "1.0");
    assert_eq!(ProtocolVersion::new(12, 345).to_string(), "12.345");
    assert_eq!(ProtocolVersion::new(65535, 0).to_string(), "65535.0");
}

#[test]
fn current_version_is_one_zero() {
    assert_eq!(ProtocolVersion::current(), ProtocolVersion::new(1, 0));
    assert_eq!(ProtocolVersion::default(), ProtocolVersion::new(1, 0));
}

#[test]
fn compatibility_requires_same_major_and_older_remote_minor() {
    let local = ProtocolVersion::new(1, 3);
    assert!(local.is_compatible_with(ProtocolVersion::new(1, 3)));
    assert!(local.is_compatible_with(ProtocolVersion::new(1, 0)));
    assert!(!local.is_compatible_with(ProtocolVersion::new(1, 4)));
    assert!(!local.is_compatible_with(ProtocolVersion::new(2, 0)));
}

#[test]
fn ensure_compatible_negotiates_the_remote_version() {
    let local = ProtocolVersion::new(1, 3);
    let remote = ProtocolVersion::new(1, 1);
    assert_eq!(local.ensure_compatible(remote), Ok(remote));
}

#[test]
fn ensure_compatible_names_both_versions_on_error() {
    let local = ProtocolVersion::new(1, 0);
    let remote = ProtocolVersion::new(2, 7);
    assert_eq!(
        local.ensure_compatible(remote),
        Err(ProtocolError::BadVersion { local: "1.0".to_string(), remote: "2.7".to_string() })
    );
}

#[test]
fn min_and_max_order_lexicographically() {
    let a = ProtocolVersion::new(1, 9);
    let b = ProtocolVersion::new(2, 0);
    assert_eq!(a.min(b), a);
    assert_eq!(b.min(a), a);
    assert_eq!(a.max(b), b);
    assert_eq!(b.max(a), b);
    assert_eq!(a.min(a), a);
}

#[test]
fn error_codes_follow_protocol_errors() {
    let bad = ProtocolError::BadVersion { local: "1.0".to_string(), remote: "2.0".to_string() };
    assert_eq!(ErrorCode::from(&bad), ErrorCode::Protocol);
    assert_eq!(ErrorCode::from(&ProtocolError::UnknownMessage), ErrorCode::UnknownMessage);
    assert_eq!(ErrorCode::from(&ProtocolError::Decode("x".to_string())), ErrorCode::Protocol);
    assert_eq!(ErrorCode::from(&ProtocolError::Expired), ErrorCode::TaskRejected);
    assert_eq!(ErrorCode::from(&ProtocolError::Unsupported), ErrorCode::Protocol);
}

struct Pinned;

impl Versioned for Pinned {
    fn version(&self) -> ProtocolVersion {
        ProtocolVersion::new(3, 1)
    }
}

#[test]
fn versioned_reports_its_revision() {
    assert_eq!(Pinned.version(), ProtocolVersion::new(3, 1));
}
