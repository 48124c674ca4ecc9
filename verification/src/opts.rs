//! Configuration records for every driver operation. Each field has one
//! stated effect; optional behaviour defaults to off.

use vstd::prelude::*;

verus! {

/// The target platform of a build or pull: the host's own, or an explicit
/// architecture/OS pair.
#[derive(Clone, Copy, Debug, PartialEq, Eq, Structural)]
pub enum Platform {
    Native,
    LinuxAmd64,
    LinuxArm64,
}

/// The `--platform` argument for an explicit platform; the native platform
/// never puts one on a command line.
pub open spec fn spec_platform_chars(p: Platform) -> Seq<char> {
    match p {
        Platform::Native => Seq::<char>::empty(),
        Platform::LinuxAmd64 => "linux/amd64"@,
        Platform::LinuxArm64 => "linux/arm64"@,
    }
}

impl Platform {
    pub fn as_arg(&self) -> (r: String)
        ensures
            r@ == spec_platform_chars(*self),
    {
        match self {
            Platform::Native => String::new(),
            Platform::LinuxAmd64 => "linux/amd64".to_owned(),
            Platform::LinuxArm64 => "linux/arm64".to_owned(),
        }
    }
}

/// The compression format handed to a push.
#[derive(Clone, Copy, Debug, PartialEq, Eq, Structural)]
pub enum CompressionType {
    Gzip,
    Zstd,
}

pub open spec fn spec_compression_chars(c: CompressionType) -> Seq<char> {
    match c {
        CompressionType::Gzip => "gzip"@,
        CompressionType::Zstd => "zstd"@,
    }
}

impl CompressionType {
    pub fn as_arg(&self) -> (r: String)
        ensures
            r@ == spec_compression_chars(*self),
    {
        match self {
            CompressionType::Gzip => "gzip".to_owned(),
            CompressionType::Zstd => "zstd".to_owned(),
        }
    }
}

/// Options of one image build.
#[derive(Debug, Clone)]
pub struct BuildOpts {
    /// The image reference the build is tagged with.
    pub image: String,
    /// The containerfile the build reads.
    pub containerfile: String,
    /// The target platform; explicit platforms add `--platform`.
    pub platform: Platform,
    /// Squash the layers instead of keeping them; inverts `--layers`.
    pub squash: bool,
    /// Use the host's network during the build.
    pub host_network: bool,
}

/// Options of one re-tagging.
#[derive(Debug, Clone)]
pub struct TagOpts {
    pub src_image: String,
    pub dest_image: String,
}

/// Options of one push.
#[derive(Debug, Clone)]
pub struct PushOpts {
    pub image: String,
    /// Defaults to gzip when absent.
    pub compression_type: Option<CompressionType>,
}

/// Options of one prune of the tool's storage.
#[derive(Debug, Clone, Copy)]
pub struct PruneOpts {
    pub all: bool,
    pub volumes: bool,
}

/// What metadata retrieval inspects: an image, an optional tag, a platform.
#[derive(Debug, Clone)]
pub struct GetMetadataOpts {
    pub image: String,
    pub tag: Option<String>,
    pub platform: Platform,
}

/// The resolved inputs of tag generation; all of them plain values, already
/// read from image metadata, the clock and the repository by the caller.
#[derive(Debug, Clone)]
pub struct GenerateTagsOpts {
    /// The OS version derived from the base image's metadata.
    pub os_version: String,
    /// The build timestamp.
    pub timestamp: String,
    /// The short commit SHA; absence is expected, not an error.
    pub short_sha: Option<String>,
    /// Alternate tag names, in the order the caller gave them.
    pub alt_tags: Option<Vec<String>>,
}

/// One host-path-to-container-path volume of a `run`.
#[derive(Debug, Clone)]
pub struct RunOptsVolume {
    pub path_or_vol_name: String,
    pub container_path: String,
}

/// One environment variable of a `run`.
#[derive(Debug, Clone)]
pub struct RunOptsEnv {
    pub key: String,
    pub value: String,
}

/// Options of one container run.
#[derive(Debug, Clone)]
pub struct RunOpts {
    pub image: String,
    pub args: Vec<String>,
    pub env_vars: Vec<RunOptsEnv>,
    pub volumes: Vec<RunOptsVolume>,
    pub uid: Option<u32>,
    pub gid: Option<u32>,
    /// Defaults to false; adds `--privileged` and the host network.
    pub privileged: bool,
    /// Defaults to false; always pull the image first.
    pub pull: bool,
    /// Defaults to false; remove the container after it exits.
    pub remove: bool,
}

impl RunOpts {
    /// A run of `image` with every optional behaviour off.
    pub fn new(image: String) -> (r: RunOpts)
        ensures
            r.image == image,
            r.args@ == Seq::<String>::empty(),
            r.env_vars@ == Seq::<RunOptsEnv>::empty(),
            r.volumes@ == Seq::<RunOptsVolume>::empty(),
            r.uid is None,
            r.gid is None,
            !r.privileged,
            !r.pull,
            !r.remove,
    {
        RunOpts {
            image,
            args: Vec::new(),
            env_vars: Vec::new(),
            volumes: Vec::new(),
            uid: None,
            gid: None,
            privileged: false,
            pull: false,
            remove: false,
        }
    }
}

/// Registry credentials, read once per login and piped to the subprocess's
/// standard input; the password never stands on a command line.
#[derive(Debug, Clone)]
pub struct Credentials {
    pub registry: String,
    pub username: String,
    pub password: String,
}

} // verus!
