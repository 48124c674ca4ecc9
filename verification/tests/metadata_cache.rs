use build_driver::cache::{BeginOutcome, MetadataCache, MetadataKey};
use build_driver::inspect::{ImageMetadata, Label};
use build_driver::opts::{GetMetadataOpts, Platform};

fn key(image: &str, tag: Option<&str>, platform: Platform) -> MetadataKey {
    MetadataKey { image: image.to_owned(), tag: tag.map(str::to_owned), platform }
}

fn metadata(digest: &str) -> ImageMetadata {
    ImageMetadata {
        labels: vec![Label { key: "k".to_owned(), value: "v".to_owned() }],
        digest: digest.to_owned(),
    }
}

#[test]
fn first_caller_leads_and_later_callers_wait() {
    let mut cache = MetadataCache::new();
    let k = key("image", Some("latest"), Platform::Native);
    assert!(matches!(cache.begin(&k), BeginOutcome::Lead));
    assert!(matches!(cache.begin(&k), BeginOutcome::Wait));
    assert!(matches!(cache.begin(&k), BeginOutcome::Wait));
}

#[test]
fn completed_result_is_handed_to_every_caller() {
    let mut cache = MetadataCache::new();
    let k = key("image", Some("latest"), Platform::Native);
    assert!(matches!(cache.begin(&k), BeginOutcome::Lead));
    cache.complete(&k, metadata("sha256:abc"));
    for _ in 0..3 {
        match cache.begin(&k) {
            BeginOutcome::Done(m) => {
                assert_eq!(m.digest, "sha256:abc");
                assert_eq!(m.labels.len(), 1);
                assert_eq!(m.labels[0].key, "k");
                assert_eq!(m.labels[0].value, "v");
            }
            _ => panic!("expected the cached result"),
        }
    }
}

#[test]
fn distinct_keys_do_not_collide() {
    let mut cache = MetadataCache::new();
    let with_tag = key("image", Some("latest"), Platform::Native);
    let joined = key("image:latest", None, Platform::Native);
    let other_platform = key("image", Some("latest"), Platform::LinuxArm64);
    assert!(matches!(cache.begin(&with_tag), BeginOutcome::Lead));
    assert!(matches!(cache.begin(&joined), BeginOutcome::Lead));
    assert!(matches!(cache.begin(&other_platform), BeginOutcome::Lead));
    cache.complete(&with_tag, metadata("sha256:one"));
    match cache.begin(&with_tag) {
        BeginOutcome::Done(m) => assert_eq!(m.digest, "sha256:one"),
        _ => panic!("expected the cached result"),
    }
    assert!(matches!(cache.begin(&joined), BeginOutcome::Wait));
    assert!(matches!(cache.begin(&other_platform), BeginOutcome::Wait));
}

#[test]
fn abandoned_key_is_retried_fresh() {
    let mut cache = MetadataCache::new();
    let k = key("image", None, Platform::LinuxAmd64);
    assert!(matches!(cache.begin(&k), BeginOutcome::Lead));
    cache.abandon(&k);
    assert!(matches!(cache.begin(&k), BeginOutcome::Lead));
}

#[test]
fn key_of_opts_copies_the_triple() {
    let opts = GetMetadataOpts {
        image: "ghcr.io/example/image".to_owned(),
        tag: Some("40".to_owned()),
        platform: Platform::LinuxAmd64,
    };
    let k = MetadataKey::of_opts(&opts);
    assert_eq!(k.image, "ghcr.io/example/image");
    assert_eq!(k.tag.as_deref(), Some("40"));
    assert_eq!(k.platform, Platform::LinuxAmd64);
}
