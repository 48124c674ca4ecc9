//! Verified core of a container-image build driver.
//!
//! The crate models the machinery that drives an external, podman-compatible
//! container CLI: argument-vector construction for every operation, the
//! version-compatibility gate, deterministic tag generation, validation of
//! image-inspection output with digest verification, a single-flight metadata
//! cache, and the registry of spawned containers that a termination-signal
//! handler sweeps. Spawning the subprocesses themselves is left to an
//! unverified shell around this library.

pub mod cache;
pub mod errors;
pub mod inspect;
pub mod local_driver;
pub mod opts;
pub mod podman_driver;
pub mod signal;
pub mod text;
pub mod version;
