use build_driver::errors::DriverError;
use build_driver::inspect::{digests_to_verify, finish_inspection, InspectionRecord, Label};

const D1: &str = "registry.example.org/repo/image@sha256:1111111111111111111111111111111111111111111111111111111111111111";
const D2: &str = "registry.example.org/repo/image@sha256:2222222222222222222222222222222222222222222222222222222222222222";

fn record(digests: &[&str]) -> InspectionRecord {
    InspectionRecord {
        labels: vec![Label { key: "os-version".to_owned(), value: "\"40\"".to_owned() }],
        repo_digests: digests.iter().map(|d| (*d).to_owned()).collect(),
    }
}

#[test]
fn empty_record_set_fails_before_verification() {
    let e = digests_to_verify(&vec![]).unwrap_err();
    assert_eq!(
        e.message(),
        "Podman inspection must have at least one metadata entry"
    );
}

#[test]
fn empty_digest_list_fails_before_verification() {
    let e = digests_to_verify(&vec![record(&[])]).unwrap_err();
    assert_eq!(e.message(), "Podman metadata requires at least 1 digest");
}

#[test]
fn digests_of_first_record_are_verified() {
    let records = vec![record(&[D1, D2]), record(&["ignored"])];
    let ds = digests_to_verify(&records).unwrap();
    assert_eq!(ds, &vec![D1.to_owned(), D2.to_owned()]);
}

#[test]
fn first_verifying_digest_wins() {
    let records = vec![record(&[D1, D2])];
    let m = finish_inspection(&records, &vec![false, true]).unwrap();
    assert_eq!(
        m.digest,
        "sha256:2222222222222222222222222222222222222222222222222222222222222222"
    );
    assert_eq!(m.labels.len(), 1);
    assert_eq!(m.labels[0].key, "os-version");
    assert_eq!(m.labels[0].value, "\"40\"");
}

#[test]
fn earlier_verifying_digest_beats_later_one() {
    let records = vec![record(&[D1, D2])];
    let m = finish_inspection(&records, &vec![true, true]).unwrap();
    assert_eq!(
        m.digest,
        "sha256:1111111111111111111111111111111111111111111111111111111111111111"
    );
}

#[test]
fn no_verifying_digest_names_all_of_them() {
    let records = vec![record(&[D1, D2])];
    let e = finish_inspection(&records, &vec![false, false]).unwrap_err();
    match &e {
        DriverError::DigestUnverifiable { digests } => {
            assert_eq!(digests, &vec![D1.to_owned(), D2.to_owned()]);
        }
        other => panic!("expected unverifiable digests, got {other:?}"),
    }
    assert_eq!(
        e.message(),
        format!("No repo digest could be verified: {D1}, {D2}")
    );
}

#[test]
fn verified_reference_without_digest_part_is_malformed() {
    let records = vec![record(&["registry.example.org/repo/image:latest"])];
    let e = finish_inspection(&records, &vec![true]).unwrap_err();
    assert_eq!(
        e.message(),
        "Unable to read digest from registry.example.org/repo/image:latest"
    );
}
