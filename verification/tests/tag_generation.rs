use build_driver::local_driver::LocalDriver;
use build_driver::opts::GenerateTagsOpts;

fn opts(
    os_version: &str,
    timestamp: &str,
    short_sha: Option<&str>,
    alt_tags: Option<Vec<&str>>,
) -> GenerateTagsOpts {
    GenerateTagsOpts {
        os_version: os_version.to_owned(),
        timestamp: timestamp.to_owned(),
        short_sha: short_sha.map(str::to_owned),
        alt_tags: alt_tags.map(|v| v.into_iter().map(str::to_owned).collect()),
    }
}

#[test]
fn tags_without_alternates_with_sha() {
    let tags = LocalDriver::generate_tags(&opts("40", "20240101", Some("abcd123"), None));
    assert_eq!(
        tags,
        vec![
            "latest".to_owned(),
            "20240101".to_owned(),
            "40".to_owned(),
            "20240101-40".to_owned(),
            "abcd123-40".to_owned(),
        ]
    );
}

#[test]
fn tags_without_alternates_without_sha() {
    let tags = LocalDriver::generate_tags(&opts("40", "20240101", None, None));
    assert_eq!(
        tags,
        vec![
            "latest".to_owned(),
            "20240101".to_owned(),
            "40".to_owned(),
            "20240101-40".to_owned(),
        ]
    );
}

#[test]
fn tags_with_alternates_without_sha() {
    let tags = LocalDriver::generate_tags(&opts(
        "40",
        "20240101",
        None,
        Some(vec!["stable", "beta"]),
    ));
    assert_eq!(
        tags,
        vec![
            "stable".to_owned(),
            "stable-40".to_owned(),
            "20240101-stable-40".to_owned(),
            "beta".to_owned(),
            "beta-40".to_owned(),
            "20240101-beta-40".to_owned(),
        ]
    );
}

#[test]
fn tags_with_alternates_with_sha() {
    let tags = LocalDriver::generate_tags(&opts("40", "20240101", Some("abcd123"), Some(vec!["stable"])));
    assert_eq!(
        tags,
        vec![
            "stable".to_owned(),
            "stable-40".to_owned(),
            "20240101-stable-40".to_owned(),
            "abcd123-stable-40".to_owned(),
        ]
    );
}

#[test]
fn tags_with_empty_alternate_list() {
    let tags = LocalDriver::generate_tags(&opts("40", "20240101", Some("abcd123"), Some(vec![])));
    assert_eq!(tags, Vec::<String>::new());
}

#[test]
fn tags_preserve_duplicates_and_order() {
    let tags = LocalDriver::generate_tags(&opts("40", "20240101", None, Some(vec!["a", "a"])));
    assert_eq!(
        tags,
        vec![
            "a".to_owned(),
            "a-40".to_owned(),
            "20240101-a-40".to_owned(),
            "a".to_owned(),
            "a-40".to_owned(),
            "20240101-a-40".to_owned(),
        ]
    );
}
