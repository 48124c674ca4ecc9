//! The local, no-CI backend. It supports the CI-driver contract only so far
//! as innocuous defaults go; operations that need a CI identity fail
//! explicitly rather than guess. Tag generation is deterministic over the
//! resolved inputs.

use vstd::prelude::*;
use vstd::string::StringExecFns;
use crate::errors::DriverError;
use crate::opts::GenerateTagsOpts;
use crate::text::{dash_join2, dash_join3, lemma_strings_view_push, strings_view};

verus! {

/// The backend used outside any CI environment.
pub struct LocalDriver;

/// Without alternates: `latest`, the timestamp, the OS version, their join,
/// and — only when a commit SHA is available — `<sha>-<os>`.
pub open spec fn spec_tags_without_alternates(
    os: Seq<char>,
    ts: Seq<char>,
    sha: Option<Seq<char>>,
) -> Seq<Seq<char>> {
    let base = seq!["latest"@, ts, os, ts + "-"@ + os];
    match sha {
        Some(s) => base.push(s + "-"@ + os),
        None => base,
    }
}

/// For one alternate `A`: `A`, `A-<os>`, `<ts>-A-<os>`, and — only with a
/// commit SHA — `<sha>-A-<os>`.
pub open spec fn spec_tags_for_alternate(
    alt: Seq<char>,
    os: Seq<char>,
    ts: Seq<char>,
    sha: Option<Seq<char>>,
) -> Seq<Seq<char>> {
    let base = seq![alt, alt + "-"@ + os, ts + "-"@ + alt + "-"@ + os];
    match sha {
        Some(s) => base.push(s + "-"@ + alt + "-"@ + os),
        None => base,
    }
}

/// The blocks of all alternates, concatenated in input order.
pub open spec fn spec_tags_with_alternates(
    alts: Seq<Seq<char>>,
    os: Seq<char>,
    ts: Seq<char>,
    sha: Option<Seq<char>>,
) -> Seq<Seq<char>>
    decreases alts.len(),
{
    if alts.len() == 0 {
        Seq::<Seq<char>>::empty()
    } else {
        spec_tags_with_alternates(alts.drop_last(), os, ts, sha) + spec_tags_for_alternate(
            alts.last(),
            os,
            ts,
            sha,
        )
    }
}

/// The whole deterministic tag set of one build.
pub open spec fn spec_generate_tags(opts: &GenerateTagsOpts) -> Seq<Seq<char>> {
    let sha = match opts.short_sha {
        Some(s) => Some(s@),
        None => None,
    };
    match opts.alt_tags {
        None => spec_tags_without_alternates(opts.os_version@, opts.timestamp@, sha),
        Some(alts) => spec_tags_with_alternates(
            strings_view(alts@),
            opts.os_version@,
            opts.timestamp@,
            sha,
        ),
    }
}

impl LocalDriver {
    /// A local build is never on a CI default branch.
    pub fn on_default_branch() -> (r: bool)
        ensures
            !r,
    {
        false
    }

    /// Keyless signing needs a CI identity; the local backend always
    /// refuses rather than hand back a default.
    pub fn keyless_cert_identity() -> (r: Result<String, DriverError>)
        ensures
            r matches Err(e) && e matches DriverError::UnsupportedCapability { message }
                && message@ == "Keyless not supported"@,
    {
        Err(DriverError::UnsupportedCapability { message: "Keyless not supported".to_owned() })
    }

    /// As with the certificate identity: no OIDC provider exists locally.
    pub fn oidc_provider() -> (r: Result<String, DriverError>)
        ensures
            r matches Err(e) && e matches DriverError::UnsupportedCapability { message }
                && message@ == "Keyless not supported"@,
    {
        Err(DriverError::UnsupportedCapability { message: "Keyless not supported".to_owned() })
    }

    /// No repository URL is known locally; the innocuous default is empty.
    pub fn get_repo_url() -> (r: Result<String, DriverError>)
        ensures
            r matches Ok(s) && s@ == Seq::<char>::empty(),
    {
        Ok(String::new())
    }

    /// Local pushes address the local registry.
    pub fn get_registry() -> (r: Result<String, DriverError>)
        ensures
            r matches Ok(s) && s@ == "localhost"@,
    {
        Ok("localhost".to_owned())
    }

    /// Produces the deterministic, ordered tag set; order is significant
    /// and nothing is deduplicated here.
    pub fn generate_tags(opts: &GenerateTagsOpts) -> (r: Vec<String>)
        ensures
            strings_view(r@) == spec_generate_tags(opts),
    {
        let mut r: Vec<String> = Vec::new();
        match &opts.alt_tags {
            None => {
                push_tag(&mut r, "latest".to_owned());
                push_tag(&mut r, opts.timestamp.clone());
                push_tag(&mut r, opts.os_version.clone());
                push_tag(&mut r, dash_join2(opts.timestamp.as_str(), opts.os_version.as_str()));
                if let Some(sha) = &opts.short_sha {
                    push_tag(&mut r, dash_join2(sha.as_str(), opts.os_version.as_str()));
                }
                proof {
                    assert(strings_view(r@) =~= spec_generate_tags(opts));
                }
            },
            Some(alts) => {
                let mut k: usize = 0;
                while k < alts.len()
                    invariant
                        0 <= k <= alts@.len(),
                        strings_view(r@) == spec_tags_with_alternates(
                            strings_view(alts@).take(k as int),
                            opts.os_version@,
                            opts.timestamp@,
                            match opts.short_sha {
                                Some(s) => Some(s@),
                                None => None,
                            },
                        ),
                    decreases alts@.len() - k,
                {
                    proof {
                        assert(strings_view(alts@).take(k as int + 1).drop_last() =~= strings_view(
                            alts@,
                        ).take(k as int));
                        assert(strings_view(alts@).take(k as int + 1).last() == alts@[k as int]@);
                    }
                    let alt = &alts[k];
                    push_tag(&mut r, alt.clone());
                    push_tag(&mut r, dash_join2(alt.as_str(), opts.os_version.as_str()));
                    push_tag(
                        &mut r,
                        dash_join3(opts.timestamp.as_str(), alt.as_str(), opts.os_version.as_str()),
                    );
                    if let Some(sha) = &opts.short_sha {
                        push_tag(
                            &mut r,
                            dash_join3(sha.as_str(), alt.as_str(), opts.os_version.as_str()),
                        );
                    }
                    proof {
                        assert(strings_view(r@) =~= spec_tags_with_alternates(
                            strings_view(alts@).take(k as int + 1),
                            opts.os_version@,
                            opts.timestamp@,
                            match opts.short_sha {
                                Some(s) => Some(s@),
                                None => None,
                            },
                        ));
                    }
                    k = k + 1;
                }
                proof {
                    assert(strings_view(alts@).take(k as int) =~= strings_view(alts@));
                }
            },
        }
        r
    }
}

fn push_tag(v: &mut Vec<String>, s: String)
    ensures
        strings_view(final(v)@) == strings_view(old(v)@).push(s@),
{
    proof {
        lemma_strings_view_push(v@, s);
    }
    v.push(s);
}

} // verus!
