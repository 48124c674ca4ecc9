//! The typed failures the driver surfaces, each carrying enough context to
//! diagnose without re-running: the offending reference, command or output.

use vstd::prelude::*;
use vstd::string::StringExecFns;
use crate::text::strings_view;
use crate::version::{spec_requirement_chars, spec_version_chars, Version, VersionRequirement};

verus! {

/// Every failure kind the driver propagates. Best-effort sub-steps (a
/// commit-SHA lookup, cleanup of one container among several) never raise
/// one of these.
#[derive(Debug, Clone)]
pub enum DriverError {
    /// The selected backend lacks a capability the caller requires.
    UnsupportedCapability { message: String },
    /// The installed tool is below the backend's required range.
    VersionMismatch { backend: String, required: VersionRequirement, found: Version },
    /// A subprocess exited with a non-zero status.
    SubprocessFailure { message: String },
    /// Tool output that does not parse as the expected shape.
    MalformedOutput { message: String },
    /// No reported digest passed verification; carries all rejected ones.
    DigestUnverifiable { digests: Vec<String> },
    /// A privileged operation was attempted without the required rights.
    PermissionDenied { message: String },
}

/// Fragments joined by a comma and a space.
pub open spec fn spec_join_comma(parts: Seq<Seq<char>>) -> Seq<char>
    decreases parts.len(),
{
    if parts.len() == 0 {
        Seq::<char>::empty()
    } else if parts.len() == 1 {
        parts[0]
    } else {
        spec_join_comma(parts.drop_last()) + ", "@ + parts.last()
    }
}

pub fn join_comma(parts: &Vec<String>) -> (r: String)
    ensures
        r@ == spec_join_comma(strings_view(parts@)),
{
    let mut r = String::new();
    let mut i: usize = 0;
    while i < parts.len()
        invariant
            0 <= i <= parts@.len(),
            r@ == spec_join_comma(strings_view(parts@).take(i as int)),
        decreases parts@.len() - i,
    {
        proof {
            assert(strings_view(parts@).take(i as int + 1).drop_last() =~= strings_view(
                parts@,
            ).take(i as int));
            assert(strings_view(parts@).take(i as int + 1).last() == parts@[i as int]@);
        }
        if i > 0 {
            r.append(", ");
        }
        r.append(parts[i].as_str());
        i = i + 1;
    }
    proof {
        assert(strings_view(parts@).take(i as int) =~= strings_view(parts@));
    }
    r
}

/// The user-facing message of each failure kind.
pub open spec fn spec_message(e: DriverError) -> Seq<char> {
    match e {
        DriverError::UnsupportedCapability { message } => message@,
        DriverError::VersionMismatch { backend, required, found } => backend@
            + " requires a version matching "@ + spec_requirement_chars(required) + ", found "@
            + spec_version_chars(found),
        DriverError::SubprocessFailure { message } => message@,
        DriverError::MalformedOutput { message } => message@,
        DriverError::DigestUnverifiable { digests } => "No repo digest could be verified: "@
            + spec_join_comma(strings_view(digests@)),
        DriverError::PermissionDenied { message } => message@,
    }
}

impl DriverError {
    /// Renders the failure for the user; every kind names what went wrong.
    pub fn message(&self) -> (r: String)
        ensures
            r@ == spec_message(*self),
    {
        match self {
            DriverError::UnsupportedCapability { message } => message.clone(),
            DriverError::VersionMismatch { backend, required, found } => {
                let mut r = backend.clone();
                r.append(" requires a version matching ");
                let req = required.render();
                r.append(req.as_str());
                r.append(", found ");
                let ver = found.render();
                r.append(ver.as_str());
                r
            },
            DriverError::SubprocessFailure { message } => message.clone(),
            DriverError::MalformedOutput { message } => message.clone(),
            DriverError::DigestUnverifiable { digests } => {
                let mut r = "No repo digest could be verified: ".to_owned();
                let listing = join_comma(digests);
                r.append(listing.as_str());
                r
            },
            DriverError::PermissionDenied { message } => message.clone(),
        }
    }
}

} // verus!
