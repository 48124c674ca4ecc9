use build_driver::errors::DriverError;
use build_driver::local_driver::LocalDriver;
use build_driver::opts::{
    BuildOpts, CompressionType, GetMetadataOpts, Platform, PruneOpts, PushOpts, RunOpts,
    RunOptsEnv, RunOptsVolume, TagOpts,
};
use build_driver::podman_driver::{check_run_permission, command_outcome, CommandKind, PodmanDriver};

#[test]
fn version_command_asks_for_json() {
    assert_eq!(PodmanDriver::version_command(), vec!["podman", "version", "-f", "json"]);
}

#[test]
fn build_command_native_no_extras() {
    let opts = BuildOpts {
        image: "ghcr.io/example/image:latest".to_owned(),
        containerfile: "Containerfile".to_owned(),
        platform: Platform::Native,
        squash: false,
        host_network: false,
    };
    assert_eq!(
        PodmanDriver::build_command(&opts),
        vec![
            "podman",
            "build",
            "--pull=true",
            "--layers=true",
            "-f",
            "Containerfile",
            "-t",
            "ghcr.io/example/image:latest",
            ".",
        ]
    );
}

#[test]
fn build_command_platform_squash_and_host_network() {
    let opts = BuildOpts {
        image: "img".to_owned(),
        containerfile: "f".to_owned(),
        platform: Platform::LinuxArm64,
        squash: true,
        host_network: true,
    };
    assert_eq!(
        PodmanDriver::build_command(&opts),
        vec![
            "podman",
            "build",
            "--platform",
            "linux/arm64",
            "--pull=true",
            "--net=host",
            "--layers=false",
            "-f",
            "f",
            "-t",
            "img",
            ".",
        ]
    );
}

#[test]
fn tag_command_names_both_images() {
    let opts = TagOpts { src_image: "img:a".to_owned(), dest_image: "img:b".to_owned() };
    assert_eq!(PodmanDriver::tag_command(&opts), vec!["podman", "tag", "img:a", "img:b"]);
}

#[test]
fn push_command_defaults_to_gzip() {
    let opts = PushOpts { image: "img".to_owned(), compression_type: None };
    assert_eq!(
        PodmanDriver::push_command(&opts),
        vec!["podman", "push", "--compression-format=gzip", "img"]
    );
    let opts = PushOpts { image: "img".to_owned(), compression_type: Some(CompressionType::Zstd) };
    assert_eq!(
        PodmanDriver::push_command(&opts),
        vec!["podman", "push", "--compression-format=zstd", "img"]
    );
}

#[test]
fn login_command_never_carries_the_password() {
    let argv = PodmanDriver::login_command("user", "ghcr.io");
    assert_eq!(argv, vec!["podman", "login", "-u", "user", "--password-stdin", "ghcr.io"]);
    assert!(!argv.iter().any(|a| a.contains("hunter2")));
}

#[test]
fn prune_command_flags() {
    assert_eq!(
        PodmanDriver::prune_command(&PruneOpts { all: false, volumes: false }),
        vec!["podman", "system", "prune", "--force"]
    );
    assert_eq!(
        PodmanDriver::prune_command(&PruneOpts { all: true, volumes: true }),
        vec!["podman", "system", "prune", "--force", "--all", "--volumes"]
    );
}

#[test]
fn metadata_url_joins_image_and_tag() {
    let with_tag = GetMetadataOpts {
        image: "img".to_owned(),
        tag: Some("40".to_owned()),
        platform: Platform::Native,
    };
    assert_eq!(PodmanDriver::metadata_url(&with_tag), "img:40");
    let without = GetMetadataOpts { image: "img".to_owned(), tag: None, platform: Platform::Native };
    assert_eq!(PodmanDriver::metadata_url(&without), "img");
}

#[test]
fn pull_and_inspect_commands() {
    assert_eq!(
        PodmanDriver::pull_command("img:40", Platform::LinuxAmd64),
        vec!["podman", "pull", "--platform", "linux/amd64", "img:40"]
    );
    assert_eq!(PodmanDriver::pull_command("img:40", Platform::Native), vec!["podman", "pull", "img:40"]);
    assert_eq!(
        PodmanDriver::inspect_command("img:40"),
        vec!["podman", "image", "inspect", "--format=json", "img:40"]
    );
    assert_eq!(
        PodmanDriver::verify_digest_command("img@sha256:aa"),
        vec!["podman", "pull", "img@sha256:aa"]
    );
}

#[test]
fn run_command_full() {
    let opts = RunOpts {
        image: "img".to_owned(),
        args: vec!["echo".to_owned(), "hi".to_owned()],
        env_vars: vec![RunOptsEnv { key: "K".to_owned(), value: "V".to_owned() }],
        volumes: vec![RunOptsVolume {
            path_or_vol_name: "/host".to_owned(),
            container_path: "/inside".to_owned(),
        }],
        uid: Some(1000),
        gid: Some(1000),
        privileged: true,
        pull: true,
        remove: true,
    };
    assert_eq!(
        PodmanDriver::run_command(&opts, "/tmp/x/cid"),
        vec![
            "podman",
            "run",
            "--cidfile=/tmp/x/cid",
            "--privileged",
            "--network=host",
            "--rm",
            "--pull=always",
            "--user=1000:1000",
            "--volume",
            "/host:/inside",
            "--env",
            "K=V",
            "img",
            "echo",
            "hi",
        ]
    );
}

#[test]
fn run_command_defaults_are_bare() {
    let opts = RunOpts::new("img".to_owned());
    assert_eq!(
        PodmanDriver::run_command(&opts, "/tmp/x/cid"),
        vec!["podman", "run", "--cidfile=/tmp/x/cid", "img"]
    );
}

#[test]
fn run_command_uid_without_gid() {
    let mut opts = RunOpts::new("img".to_owned());
    opts.uid = Some(0);
    assert_eq!(
        PodmanDriver::run_command(&opts, "/tmp/x/cid"),
        vec!["podman", "run", "--cidfile=/tmp/x/cid", "--user=0", "img"]
    );
}

#[test]
fn privileged_run_without_root_is_denied() {
    assert!(check_run_permission(false, false).is_ok());
    assert!(check_run_permission(false, true).is_ok());
    assert!(check_run_permission(true, true).is_ok());
    match check_run_permission(true, false) {
        Err(DriverError::PermissionDenied { message }) => {
            assert_eq!(message, "You must be root to run privileged podman!");
        }
        other => panic!("expected a permission error, got {other:?}"),
    }
}

#[test]
fn unprivileged_run_preflight_passes() {
    let opts = RunOpts::new("img".to_owned());
    assert!(PodmanDriver::preflight_run(&opts).is_ok());
}

#[test]
fn outcome_failures_name_the_subject() {
    assert!(command_outcome(CommandKind::Build, true, "img").is_ok());
    let failures = [
        (CommandKind::Build, "img", "Failed to build img"),
        (CommandKind::Tag, "img:b", "Failed to tag image img:b"),
        (CommandKind::Push, "img", "Failed to push image img"),
        (CommandKind::Login, "denied", "Failed to login for podman: denied"),
        (CommandKind::Prune, "", "Failed to prune podman"),
        (CommandKind::MetadataPull, "img:40", "Failed to pull img:40 for inspection!"),
        (CommandKind::Inspect, "img:40", "Failed to inspect image img:40"),
    ];
    for (kind, subject, expected) in failures {
        match command_outcome(kind, false, subject) {
            Err(DriverError::SubprocessFailure { message }) => assert_eq!(message, expected),
            other => panic!("expected a subprocess failure, got {other:?}"),
        }
    }
}

#[test]
fn local_driver_defaults_and_gating() {
    assert!(!LocalDriver::on_default_branch());
    assert_eq!(LocalDriver::get_repo_url().unwrap(), "");
    assert_eq!(LocalDriver::get_registry().unwrap(), "localhost");
    for r in [LocalDriver::keyless_cert_identity(), LocalDriver::oidc_provider()] {
        match r {
            Err(DriverError::UnsupportedCapability { message }) => {
                assert_eq!(message, "Keyless not supported");
            }
            other => panic!("expected an unsupported capability, got {other:?}"),
        }
    }
}
