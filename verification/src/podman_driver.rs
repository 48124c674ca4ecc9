//! The podman backend: the exact argument vector of every operation, the
//! interpretation of exit statuses, and the backend's version gate. The
//! unverified shell spawns the vectors built here and reports back the
//! outcome.

use vstd::prelude::*;
use vstd::string::StringExecFns;
use crate::errors::DriverError;
use crate::opts::{
    spec_compression_chars, spec_platform_chars, BuildOpts, CompressionType, GetMetadataOpts,
    Platform, PruneOpts, PushOpts, RunOpts, TagOpts,
};
use crate::text::{lemma_strings_view_push, spec_decimal, strings_view, u64_to_string};
use crate::version::{spec_parse_version, spec_version_geq, parse_version, Version,
    VersionRequirement};

verus! {

/// The podman-backed driver. It carries no state: one process uses one
/// backend, chosen at startup.
#[derive(Debug)]
pub struct PodmanDriver;

pub open spec fn spec_bool_chars(b: bool) -> Seq<char> {
    if b {
        "true"@
    } else {
        "false"@
    }
}

fn bool_arg(b: bool) -> (r: &'static str)
    ensures
        r@ == spec_bool_chars(b),
{
    if b {
        "true"
    } else {
        "false"
    }
}

/// Appends one borrowed argument.
fn push_arg(v: &mut Vec<String>, s: &str)
    ensures
        strings_view(final(v)@) == strings_view(old(v)@).push(s@),
{
    let owned = s.to_owned();
    proof {
        lemma_strings_view_push(v@, owned);
    }
    v.push(owned);
}

/// Appends one owned argument.
fn push_arg_string(v: &mut Vec<String>, s: String)
    ensures
        strings_view(final(v)@) == strings_view(old(v)@).push(s@),
{
    proof {
        lemma_strings_view_push(v@, s);
    }
    v.push(s);
}

/// `podman version -f json`.
pub open spec fn spec_version_command() -> Seq<Seq<char>> {
    seq!["podman"@, "version"@, "-f"@, "json"@]
}

/// `podman build [--platform P] --pull=true [--net=host] --layers=<!squash>
/// -f <containerfile> -t <image> .`
pub open spec fn spec_build_command(opts: &BuildOpts) -> Seq<Seq<char>> {
    seq!["podman"@, "build"@] + (if opts.platform is Native {
        Seq::<Seq<char>>::empty()
    } else {
        seq!["--platform"@, spec_platform_chars(opts.platform)]
    }) + seq!["--pull=true"@] + (if opts.host_network {
        seq!["--net=host"@]
    } else {
        Seq::<Seq<char>>::empty()
    }) + seq!["--layers="@ + spec_bool_chars(!opts.squash)] + seq![
        "-f"@,
        opts.containerfile@,
        "-t"@,
        opts.image@,
        "."@,
    ]
}

/// `podman tag <src> <dest>`.
pub open spec fn spec_tag_command(opts: &TagOpts) -> Seq<Seq<char>> {
    seq!["podman"@, "tag"@, opts.src_image@, opts.dest_image@]
}

/// `podman push --compression-format=<F> <image>`; the format defaults to
/// gzip.
pub open spec fn spec_push_command(opts: &PushOpts) -> Seq<Seq<char>> {
    seq![
        "podman"@,
        "push"@,
        "--compression-format="@ + spec_compression_chars(
            match opts.compression_type {
                Some(c) => c,
                None => CompressionType::Gzip,
            },
        ),
        opts.image@,
    ]
}

/// `podman login -u <user> --password-stdin <registry>`: the password is
/// piped on standard input and never stands here.
pub open spec fn spec_login_command(username: Seq<char>, registry: Seq<char>) -> Seq<Seq<char>> {
    seq!["podman"@, "login"@, "-u"@, username, "--password-stdin"@, registry]
}

/// `podman system prune --force [--all] [--volumes]`.
pub open spec fn spec_prune_command(opts: &PruneOpts) -> Seq<Seq<char>> {
    seq!["podman"@, "system"@, "prune"@, "--force"@] + (if opts.all {
        seq!["--all"@]
    } else {
        Seq::<Seq<char>>::empty()
    }) + (if opts.volumes {
        seq!["--volumes"@]
    } else {
        Seq::<Seq<char>>::empty()
    })
}

/// The reference metadata retrieval pulls and inspects: `image` alone, or
/// `image:tag`.
pub open spec fn spec_metadata_url(image: Seq<char>, tag: Option<Seq<char>>) -> Seq<char> {
    match tag {
        Some(t) => image + ":"@ + t,
        None => image,
    }
}

/// `podman pull [--platform P] <url>`, the first half of an inspection.
pub open spec fn spec_pull_command(url: Seq<char>, platform: Platform) -> Seq<Seq<char>> {
    seq!["podman"@, "pull"@] + (if platform is Native {
        Seq::<Seq<char>>::empty()
    } else {
        seq!["--platform"@, spec_platform_chars(platform)]
    }) + seq![url]
}

/// `podman image inspect --format=json <url>`.
pub open spec fn spec_inspect_command(url: Seq<char>) -> Seq<Seq<char>> {
    seq!["podman"@, "image"@, "inspect"@, "--format=json"@, url]
}

/// `podman pull <digest>`: how one reported repo digest is independently
/// verified.
pub open spec fn spec_verify_digest_command(digest: Seq<char>) -> Seq<Seq<char>> {
    seq!["podman"@, "pull"@, digest]
}

impl PodmanDriver {
    pub fn version_command() -> (r: Vec<String>)
        ensures
            strings_view(r@) == spec_version_command(),
    {
        let mut r: Vec<String> = Vec::new();
        push_arg(&mut r, "podman");
        push_arg(&mut r, "version");
        push_arg(&mut r, "-f");
        push_arg(&mut r, "json");
        proof {
            assert(strings_view(r@) =~= spec_version_command());
        }
        r
    }

    pub fn build_command(opts: &BuildOpts) -> (r: Vec<String>)
        ensures
            strings_view(r@) == spec_build_command(opts),
    {
        let mut r: Vec<String> = Vec::new();
        push_arg(&mut r, "podman");
        push_arg(&mut r, "build");
        if !matches!(opts.platform, Platform::Native) {
            push_arg(&mut r, "--platform");
            push_arg_string(&mut r, opts.platform.as_arg());
        }
        push_arg(&mut r, "--pull=true");
        if opts.host_network {
            push_arg(&mut r, "--net=host");
        }
        let mut layers = "--layers=".to_owned();
        layers.append(bool_arg(!opts.squash));
        push_arg_string(&mut r, layers);
        push_arg(&mut r, "-f");
        push_arg(&mut r, opts.containerfile.as_str());
        push_arg(&mut r, "-t");
        push_arg(&mut r, opts.image.as_str());
        push_arg(&mut r, ".");
        proof {
            assert(strings_view(r@) =~= spec_build_command(opts));
        }
        r
    }

    pub fn tag_command(opts: &TagOpts) -> (r: Vec<String>)
        ensures
            strings_view(r@) == spec_tag_command(opts),
    {
        let mut r: Vec<String> = Vec::new();
        push_arg(&mut r, "podman");
        push_arg(&mut r, "tag");
        push_arg(&mut r, opts.src_image.as_str());
        push_arg(&mut r, opts.dest_image.as_str());
        proof {
            assert(strings_view(r@) =~= spec_tag_command(opts));
        }
        r
    }

    pub fn push_command(opts: &PushOpts) -> (r: Vec<String>)
        ensures
            strings_view(r@) == spec_push_command(opts),
    {
        let mut r: Vec<String> = Vec::new();
        push_arg(&mut r, "podman");
        push_arg(&mut r, "push");
        let compression = match &opts.compression_type {
            Some(c) => *c,
            None => CompressionType::Gzip,
        };
        let mut format = "--compression-format=".to_owned();
        let format_arg = compression.as_arg();
        format.append(format_arg.as_str());
        push_arg_string(&mut r, format);
        push_arg(&mut r, opts.image.as_str());
        proof {
            assert(strings_view(r@) =~= spec_push_command(opts));
        }
        r
    }

    /// Builds the login argument vector from the non-secret parts of the
    /// credentials; the password goes to the child's standard input only.
    pub fn login_command(username: &str, registry: &str) -> (r: Vec<String>)
        ensures
            strings_view(r@) == spec_login_command(username@, registry@),
    {
        let mut r: Vec<String> = Vec::new();
        push_arg(&mut r, "podman");
        push_arg(&mut r, "login");
        push_arg(&mut r, "-u");
        push_arg(&mut r, username);
        push_arg(&mut r, "--password-stdin");
        push_arg(&mut r, registry);
        proof {
            assert(strings_view(r@) =~= spec_login_command(username@, registry@));
        }
        r
    }

    pub fn prune_command(opts: &PruneOpts) -> (r: Vec<String>)
        ensures
            strings_view(r@) == spec_prune_command(opts),
    {
        let mut r: Vec<String> = Vec::new();
        push_arg(&mut r, "podman");
        push_arg(&mut r, "system");
        push_arg(&mut r, "prune");
        push_arg(&mut r, "--force");
        if opts.all {
            push_arg(&mut r, "--all");
        }
        if opts.volumes {
            push_arg(&mut r, "--volumes");
        }
        proof {
            assert(strings_view(r@) =~= spec_prune_command(opts));
        }
        r
    }

    pub fn metadata_url(opts: &GetMetadataOpts) -> (r: String)
        ensures
            r@ == spec_metadata_url(
                opts.image@,
                match opts.tag {
                    Some(t) => Some(t@),
                    None => None,
                },
            ),
    {
        match &opts.tag {
            Some(t) => {
                let mut r = opts.image.clone();
                r.append(":");
                r.append(t.as_str());
                r
            },
            None => opts.image.clone(),
        }
    }

    pub fn pull_command(url: &str, platform: Platform) -> (r: Vec<String>)
        ensures
            strings_view(r@) == spec_pull_command(url@, platform),
    {
        let mut r: Vec<String> = Vec::new();
        push_arg(&mut r, "podman");
        push_arg(&mut r, "pull");
        if !matches!(platform, Platform::Native) {
            push_arg(&mut r, "--platform");
            push_arg_string(&mut r, platform.as_arg());
        }
        push_arg(&mut r, url);
        proof {
            assert(strings_view(r@) =~= spec_pull_command(url@, platform));
        }
        r
    }

    pub fn inspect_command(url: &str) -> (r: Vec<String>)
        ensures
            strings_view(r@) == spec_inspect_command(url@),
    {
        let mut r: Vec<String> = Vec::new();
        push_arg(&mut r, "podman");
        push_arg(&mut r, "image");
        push_arg(&mut r, "inspect");
        push_arg(&mut r, "--format=json");
        push_arg(&mut r, url);
        proof {
            assert(strings_view(r@) =~= spec_inspect_command(url@));
        }
        r
    }

    pub fn verify_digest_command(digest: &str) -> (r: Vec<String>)
        ensures
            strings_view(r@) == spec_verify_digest_command(digest@),
    {
        let mut r: Vec<String> = Vec::new();
        push_arg(&mut r, "podman");
        push_arg(&mut r, "pull");
        push_arg(&mut r, digest);
        proof {
            assert(strings_view(r@) =~= spec_verify_digest_command(digest@));
        }
        r
    }
}

/// `--user=<uid>` or `--user=<uid>:<gid>`.
pub open spec fn spec_user_arg(uid: u32, gid: Option<u32>) -> Seq<char> {
    "--user="@ + spec_decimal(uid as nat) + (match gid {
        Some(g) => ":"@ + spec_decimal(g as nat),
        None => Seq::<char>::empty(),
    })
}

/// One `--volume H:C` pair per volume, in input order.
pub open spec fn spec_volume_args(vols: Seq<crate::opts::RunOptsVolume>) -> Seq<Seq<char>>
    decreases vols.len(),
{
    if vols.len() == 0 {
        Seq::<Seq<char>>::empty()
    } else {
        spec_volume_args(vols.drop_last()) + seq![
            "--volume"@,
            vols.last().path_or_vol_name@ + ":"@ + vols.last().container_path@,
        ]
    }
}

/// One `--env K=V` pair per variable, in input order.
pub open spec fn spec_env_args(envs: Seq<crate::opts::RunOptsEnv>) -> Seq<Seq<char>>
    decreases envs.len(),
{
    if envs.len() == 0 {
        Seq::<Seq<char>>::empty()
    } else {
        spec_env_args(envs.drop_last()) + seq!["--env"@, envs.last().key@ + "="@ + envs.last().value@]
    }
}

/// `podman run --cidfile=<path> [--privileged --network=host] [--rm]
/// [--pull=always] [--user=U] [--volume H:C]* [--env K=V]* <image> [ARGS...]`
pub open spec fn spec_run_command(opts: &RunOpts, cid_file: Seq<char>) -> Seq<Seq<char>> {
    seq!["podman"@, "run"@, "--cidfile="@ + cid_file] + (if opts.privileged {
        seq!["--privileged"@, "--network=host"@]
    } else {
        Seq::<Seq<char>>::empty()
    }) + (if opts.remove {
        seq!["--rm"@]
    } else {
        Seq::<Seq<char>>::empty()
    }) + (if opts.pull {
        seq!["--pull=always"@]
    } else {
        Seq::<Seq<char>>::empty()
    }) + (match opts.uid {
        Some(u) => seq![spec_user_arg(u, opts.gid)],
        None => Seq::<Seq<char>>::empty(),
    }) + spec_volume_args(opts.volumes@) + spec_env_args(opts.env_vars@) + seq![opts.image@]
        + strings_view(opts.args@)
}

impl PodmanDriver {
    /// Builds the full `run` argument vector. The container-id file path is
    /// chosen by the caller, which must register it for signal cleanup
    /// before spawning this command.
    pub fn run_command(opts: &RunOpts, cid_file: &str) -> (r: Vec<String>)
        ensures
            strings_view(r@) == spec_run_command(opts, cid_file@),
    {
        let mut r: Vec<String> = Vec::new();
        push_arg(&mut r, "podman");
        push_arg(&mut r, "run");
        let mut cid_arg = "--cidfile=".to_owned();
        cid_arg.append(cid_file);
        push_arg_string(&mut r, cid_arg);
        if opts.privileged {
            push_arg(&mut r, "--privileged");
            push_arg(&mut r, "--network=host");
        }
        if opts.remove {
            push_arg(&mut r, "--rm");
        }
        if opts.pull {
            push_arg(&mut r, "--pull=always");
        }
        if let Some(uid) = opts.uid {
            let mut user_arg = "--user=".to_owned();
            let uid_str = u64_to_string(uid as u64);
            user_arg.append(uid_str.as_str());
            if let Some(gid) = opts.gid {
                user_arg.append(":");
                let gid_str = u64_to_string(gid as u64);
                user_arg.append(gid_str.as_str());
            }
            assert(user_arg@ == spec_user_arg(uid, opts.gid));
            push_arg_string(&mut r, user_arg);
        }
        let ghost before_volumes = strings_view(r@);
        let mut k: usize = 0;
        while k < opts.volumes.len()
            invariant
                0 <= k <= opts.volumes@.len(),
                strings_view(r@) == before_volumes + spec_volume_args(
                    opts.volumes@.take(k as int),
                ),
            decreases opts.volumes@.len() - k,
        {
            proof {
                assert(opts.volumes@.take(k as int + 1).drop_last() =~= opts.volumes@.take(
                    k as int,
                ));
            }
            push_arg(&mut r, "--volume");
            let mut pair = opts.volumes[k].path_or_vol_name.clone();
            pair.append(":");
            pair.append(opts.volumes[k].container_path.as_str());
            push_arg_string(&mut r, pair);
            proof {
                assert(strings_view(r@) =~= before_volumes + spec_volume_args(
                    opts.volumes@.take(k as int + 1),
                ));
            }
            k = k + 1;
        }
        proof {
            assert(opts.volumes@.take(k as int) =~= opts.volumes@);
        }
        let ghost before_envs = strings_view(r@);
        let mut k: usize = 0;
        while k < opts.env_vars.len()
            invariant
                0 <= k <= opts.env_vars@.len(),
                strings_view(r@) == before_envs + spec_env_args(opts.env_vars@.take(k as int)),
            decreases opts.env_vars@.len() - k,
        {
            proof {
                assert(opts.env_vars@.take(k as int + 1).drop_last() =~= opts.env_vars@.take(
                    k as int,
                ));
            }
            push_arg(&mut r, "--env");
            let mut pair = opts.env_vars[k].key.clone();
            pair.append("=");
            pair.append(opts.env_vars[k].value.as_str());
            push_arg_string(&mut r, pair);
            proof {
                assert(strings_view(r@) =~= before_envs + spec_env_args(
                    opts.env_vars@.take(k as int + 1),
                ));
            }
            k = k + 1;
        }
        proof {
            assert(opts.env_vars@.take(k as int) =~= opts.env_vars@);
        }
        push_arg(&mut r, opts.image.as_str());
        let ghost before_args = strings_view(r@);
        let mut k: usize = 0;
        while k < opts.args.len()
            invariant
                0 <= k <= opts.args@.len(),
                strings_view(r@) == before_args + strings_view(opts.args@).take(k as int),
            decreases opts.args@.len() - k,
        {
            push_arg(&mut r, opts.args[k].as_str());
            proof {
                assert(strings_view(r@) =~= before_args + strings_view(opts.args@).take(
                    k as int + 1,
                ));
            }
            k = k + 1;
        }
        proof {
            assert(strings_view(opts.args@).take(k as int) =~= strings_view(opts.args@));
            assert(strings_view(r@) =~= spec_run_command(opts, cid_file@));
        }
        r
    }
}

/// The operations whose exit status the driver interprets.
#[derive(Clone, Copy, Debug, PartialEq, Eq, Structural)]
pub enum CommandKind {
    Build,
    Tag,
    Push,
    Login,
    Prune,
    MetadataPull,
    Inspect,
}

/// The message of a failed operation; `subject` is the reference, image or
/// captured error text the operation was about.
pub open spec fn spec_outcome_message(kind: CommandKind, subject: Seq<char>) -> Seq<char> {
    match kind {
        CommandKind::Build => "Failed to build "@ + subject,
        CommandKind::Tag => "Failed to tag image "@ + subject,
        CommandKind::Push => "Failed to push image "@ + subject,
        CommandKind::Login => "Failed to login for podman: "@ + subject,
        CommandKind::Prune => "Failed to prune podman"@,
        CommandKind::MetadataPull => "Failed to pull "@ + subject + " for inspection!"@,
        CommandKind::Inspect => "Failed to inspect image "@ + subject,
    }
}

/// Maps a subprocess exit status to the operation's outcome: zero is
/// success, anything else a hard failure naming the offending subject.
pub fn command_outcome(kind: CommandKind, success: bool, subject: &str) -> (r: Result<
    (),
    DriverError,
>)
    ensures
        match r {
            Ok(()) => success,
            Err(e) => {
                &&& !success
                &&& e matches DriverError::SubprocessFailure { message }
                &&& message@ == spec_outcome_message(kind, subject@)
            },
        },
{
    if success {
        Ok(())
    } else {
        let message = match kind {
            CommandKind::Build => {
                let mut m = "Failed to build ".to_owned();
                m.append(subject);
                m
            },
            CommandKind::Tag => {
                let mut m = "Failed to tag image ".to_owned();
                m.append(subject);
                m
            },
            CommandKind::Push => {
                let mut m = "Failed to push image ".to_owned();
                m.append(subject);
                m
            },
            CommandKind::Login => {
                let mut m = "Failed to login for podman: ".to_owned();
                m.append(subject);
                m
            },
            CommandKind::Prune => "Failed to prune podman".to_owned(),
            CommandKind::MetadataPull => {
                let mut m = "Failed to pull ".to_owned();
                m.append(subject);
                m.append(" for inspection!");
                m
            },
            CommandKind::Inspect => {
                let mut m = "Failed to inspect image ".to_owned();
                m.append(subject);
                m
            },
        };
        Err(DriverError::SubprocessFailure { message })
    }
}

/// Relies on nix's `Uid::effective` (geteuid) and `Uid::is_root`: whether
/// the process's effective user is root. Nothing is assumed of the answer.
#[verifier::external_body]
fn is_effective_root() -> bool {
    nix::unistd::Uid::effective().is_root()
}

/// Whether a run may go ahead: a privileged container needs an effective
/// root user, because its cleanup path runs in the container's own trust
/// domain.
pub fn check_run_permission(privileged: bool, effective_root: bool) -> (r: Result<
    (),
    DriverError,
>)
    ensures
        match r {
            Ok(()) => !privileged || effective_root,
            Err(e) => {
                &&& privileged && !effective_root
                &&& e matches DriverError::PermissionDenied { message }
                &&& message@ == "You must be root to run privileged podman!"@
            },
        },
{
    if privileged && !effective_root {
        Err(
            DriverError::PermissionDenied {
                message: "You must be root to run privileged podman!".to_owned(),
            },
        )
    } else {
        Ok(())
    }
}

impl PodmanDriver {
    /// Fails fast, before anything is spawned, where the process lacks the
    /// rights a privileged run needs. An unprivileged run always may go
    /// ahead; whatever the effective user turned out to be, a failure is
    /// exactly the permission error.
    pub fn preflight_run(opts: &RunOpts) -> (r: Result<(), DriverError>)
        ensures
            !opts.privileged ==> r is Ok,
            match r {
                Ok(()) => true,
                Err(e) => {
                    &&& opts.privileged
                    &&& e matches DriverError::PermissionDenied { message }
                    &&& message@ == "You must be root to run privileged podman!"@
                },
            },
    {
        let effective_root = is_effective_root();
        check_run_permission(opts.privileged, effective_root)
    }
}

/// The minimum podman version this driver drives.
pub open spec fn spec_podman_requirement() -> VersionRequirement {
    VersionRequirement { min: Version { major: 4, minor: 0, patch: 0 } }
}

impl PodmanDriver {
    /// The backend's declared version constraint.
    pub fn version_requirement() -> (r: VersionRequirement)
        ensures
            r == spec_podman_requirement(),
    {
        VersionRequirement { min: Version { major: 4, minor: 0, patch: 0 } }
    }

    /// Reads the version string the tool reported of itself; malformed
    /// output is a hard error, never a silent default.
    pub fn version_result(reported: &[u8]) -> (r: Result<Version, DriverError>)
        ensures
            match r {
                Ok(v) => spec_parse_version(reported@) == Some(v),
                Err(e) => {
                    &&& spec_parse_version(reported@) is None
                    &&& e matches DriverError::MalformedOutput { message }
                    &&& message@ == "Unable to parse the version podman reported"@
                },
            },
    {
        match parse_version(reported) {
            Some(v) => Ok(v),
            None => Err(
                DriverError::MalformedOutput {
                    message: "Unable to parse the version podman reported".to_owned(),
                },
            ),
        }
    }

    /// The version gate: a discovered version below the requirement is a
    /// fatal error naming the backend, the range and the version found.
    pub fn check_version(found: &Version) -> (r: Result<(), DriverError>)
        ensures
            match r {
                Ok(()) => spec_version_geq(*found, spec_podman_requirement().min),
                Err(e) => {
                    &&& !spec_version_geq(*found, spec_podman_requirement().min)
                    &&& e matches DriverError::VersionMismatch { backend, required, found: f }
                    &&& backend@ == "podman"@
                    &&& required == spec_podman_requirement()
                    &&& f == *found
                },
            },
    {
        let requirement = PodmanDriver::version_requirement();
        if requirement.satisfied_by(found) {
            Ok(())
        } else {
            Err(
                DriverError::VersionMismatch {
                    backend: "podman".to_owned(),
                    required: requirement,
                    found: *found,
                },
            )
        }
    }
}

} // verus!
