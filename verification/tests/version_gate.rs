use build_driver::errors::DriverError;
use build_driver::podman_driver::PodmanDriver;
use build_driver::version::{parse_version, Version, VersionRequirement};

#[test]
fn parse_plain_version() {
    assert_eq!(parse_version(b"4.2.0"), Some(Version { major: 4, minor: 2, patch: 0 }));
    assert_eq!(parse_version(b"3.9.0"), Some(Version { major: 3, minor: 9, patch: 0 }));
    assert_eq!(parse_version(b"0.0.0"), Some(Version { major: 0, minor: 0, patch: 0 }));
}

#[test]
fn parse_rejects_wrong_shapes() {
    assert_eq!(parse_version(b""), None);
    assert_eq!(parse_version(b"4"), None);
    assert_eq!(parse_version(b"4.2"), None);
    assert_eq!(parse_version(b"4.2.0.1"), None);
    assert_eq!(parse_version(b"4..0"), None);
    assert_eq!(parse_version(b"4.2.0-dev"), None);
    assert_eq!(parse_version(b"a.b.c"), None);
    assert_eq!(parse_version(b" 4.2.0"), None);
}

#[test]
fn parse_rejects_leading_zeros() {
    assert_eq!(parse_version(b"04.2.0"), None);
    assert_eq!(parse_version(b"4.02.0"), None);
    assert_eq!(parse_version(b"4.2.00"), None);
}

#[test]
fn parse_handles_word_sized_components() {
    assert_eq!(
        parse_version(b"18446744073709551615.0.0"),
        Some(Version { major: u64::MAX, minor: 0, patch: 0 })
    );
    assert_eq!(parse_version(b"18446744073709551616.0.0"), None);
}

#[test]
fn version_ordering_is_lexicographic() {
    let v4 = Version { major: 4, minor: 0, patch: 0 };
    assert!(Version { major: 4, minor: 2, patch: 0 }.at_least(&v4));
    assert!(Version { major: 4, minor: 0, patch: 0 }.at_least(&v4));
    assert!(!Version { major: 3, minor: 9, patch: 0 }.at_least(&v4));
    assert!(Version { major: 5, minor: 0, patch: 0 }.at_least(&Version { major: 4, minor: 9, patch: 9 }));
    assert!(!Version { major: 4, minor: 1, patch: 0 }.at_least(&Version { major: 4, minor: 1, patch: 1 }));
}

#[test]
fn gate_rejects_old_version() {
    let found = Version { major: 3, minor: 9, patch: 0 };
    match PodmanDriver::check_version(&found) {
        Err(DriverError::VersionMismatch { backend, required, found: f }) => {
            assert_eq!(backend, "podman");
            assert_eq!(required, VersionRequirement { min: Version { major: 4, minor: 0, patch: 0 } });
            assert_eq!(f, found);
        }
        other => panic!("expected a version mismatch, got {other:?}"),
    }
}

#[test]
fn gate_accepts_new_version() {
    assert!(PodmanDriver::check_version(&Version { major: 4, minor: 2, patch: 0 }).is_ok());
}

#[test]
fn gate_message_names_everything() {
    let e = PodmanDriver::check_version(&Version { major: 3, minor: 9, patch: 0 }).unwrap_err();
    assert_eq!(
        e.message(),
        "podman requires a version matching >=4.0.0, found 3.9.0"
    );
}

#[test]
fn malformed_version_output_is_a_hard_error() {
    let e = PodmanDriver::version_result(b"oops").unwrap_err();
    match &e {
        DriverError::MalformedOutput { message } => {
            assert_eq!(message, "Unable to parse the version podman reported");
        }
        other => panic!("expected malformed output, got {other:?}"),
    }
    assert_eq!(
        PodmanDriver::version_result(b"4.9.3").unwrap(),
        Version { major: 4, minor: 9, patch: 3 }
    );
}

#[test]
fn requirement_renders_as_range() {
    let req = PodmanDriver::version_requirement();
    assert_eq!(req.render(), ">=4.0.0");
    assert!(req.satisfied_by(&Version { major: 4, minor: 0, patch: 0 }));
    assert!(!req.satisfied_by(&Version { major: 3, minor: 99, patch: 99 }));
}
