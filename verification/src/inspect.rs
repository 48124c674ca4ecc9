//! Validation of image-inspection output. The tool reports one or more
//! records of labels and repo digests; the first record is used, an empty
//! record set or digest list is a hard error, and the digest kept is the
//! first one that independently verified.

use vstd::prelude::*;
use vstd::string::StringExecFns;
use crate::errors::DriverError;
use crate::text::{lemma_strings_view_push, strings_view};

verus! {

/// One image label, its value carried as the raw JSON text it came with.
#[derive(Debug, Clone)]
pub struct Label {
    pub key: String,
    pub value: String,
}

pub open spec fn labels_view(v: Seq<Label>) -> Seq<(Seq<char>, Seq<char>)> {
    Seq::new(v.len(), |i: int| (v[i].key@, v[i].value@))
}

/// One record of the tool's `image inspect` output: its labels and the
/// repo digests it reports.
#[derive(Debug, Clone)]
pub struct InspectionRecord {
    pub labels: Vec<Label>,
    pub repo_digests: Vec<String>,
}

/// Metadata of a successfully inspected image; the digest has been
/// content-verified before being trusted.
#[derive(Debug, Clone)]
pub struct ImageMetadata {
    pub labels: Vec<Label>,
    pub digest: String,
}

impl View for ImageMetadata {
    type V = (Seq<(Seq<char>, Seq<char>)>, Seq<char>);

    open spec fn view(&self) -> Self::V {
        (labels_view(self.labels@), self.digest@)
    }
}

impl ImageMetadata {
    /// A copy with the same labels and digest.
    pub fn duplicate(&self) -> (r: ImageMetadata)
        ensures
            r@ == self@,
    {
        ImageMetadata { labels: clone_labels(&self.labels), digest: self.digest.clone() }
    }
}

/// The digest component of an image reference: what oci_distribution's
/// `Reference` parser extracts, a function of the string alone. `None`
/// stands for an unparsable reference as much as for one with no digest.
pub uninterp spec fn spec_reference_digest(s: Seq<char>) -> Option<Seq<char>>;

/// Relies on oci_distribution's `Reference` parsing (`str::parse`) and its
/// `digest` accessor: yields the digest component of the reference, `None`
/// where the string is no valid reference or carries no digest part.
#[verifier::external_body]
fn reference_digest(s: &str) -> (r: Option<String>)
    ensures
        match r {
            Some(d) => spec_reference_digest(s@) == Some(d@),
            None => spec_reference_digest(s@) is None,
        },
{
    s.parse::<oci_distribution::Reference>().ok().and_then(|r| r.digest().map(
        |d| d.to_string(),
    ))
}

proof fn lemma_labels_view_push(v: Seq<Label>, l: Label)
    ensures
        labels_view(v.push(l)) == labels_view(v).push((l.key@, l.value@)),
{
    assert(labels_view(v.push(l)) =~= labels_view(v).push((l.key@, l.value@)));
}

fn clone_strings(v: &Vec<String>) -> (r: Vec<String>)
    ensures
        strings_view(r@) == strings_view(v@),
{
    let mut r: Vec<String> = Vec::new();
    let mut i: usize = 0;
    while i < v.len()
        invariant
            0 <= i <= v@.len(),
            strings_view(r@) == strings_view(v@).take(i as int),
        decreases v@.len() - i,
    {
        let c = v[i].clone();
        proof {
            lemma_strings_view_push(r@, c);
            assert(strings_view(v@).take(i as int + 1) =~= strings_view(v@).take(i as int).push(
                v@[i as int]@,
            ));
        }
        r.push(c);
        i = i + 1;
    }
    proof {
        assert(strings_view(v@).take(i as int) =~= strings_view(v@));
    }
    r
}

fn clone_labels(v: &Vec<Label>) -> (r: Vec<Label>)
    ensures
        labels_view(r@) == labels_view(v@),
{
    let mut r: Vec<Label> = Vec::new();
    let mut i: usize = 0;
    while i < v.len()
        invariant
            0 <= i <= v@.len(),
            labels_view(r@) == labels_view(v@).take(i as int),
        decreases v@.len() - i,
    {
        let l = Label { key: v[i].key.clone(), value: v[i].value.clone() };
        proof {
            lemma_labels_view_push(r@, l);
            assert(labels_view(v@).take(i as int + 1) =~= labels_view(v@).take(i as int).push(
                (v@[i as int].key@, v@[i as int].value@),
            ));
        }
        r.push(l);
        i = i + 1;
    }
    proof {
        assert(labels_view(v@).take(i as int) =~= labels_view(v@));
    }
    r
}

/// The digests that are to be verified: those of the first record. An
/// empty record set, or a first record with no digest, fails here — before
/// any verification is attempted.
pub fn digests_to_verify(records: &Vec<InspectionRecord>) -> (r: Result<&Vec<String>, DriverError>)
    ensures
        match r {
            Ok(ds) => {
                &&& records@.len() > 0
                &&& records@[0].repo_digests@.len() > 0
                &&& ds@ == records@[0].repo_digests@
            },
            Err(e) => {
                ||| {
                    &&& records@.len() == 0
                    &&& e matches DriverError::MalformedOutput { message }
                    &&& message@ == "Podman inspection must have at least one metadata entry"@
                }
                ||| {
                    &&& records@.len() > 0
                    &&& records@[0].repo_digests@.len() == 0
                    &&& e matches DriverError::MalformedOutput { message }
                    &&& message@ == "Podman metadata requires at least 1 digest"@
                }
            },
        },
{
    if records.len() == 0 {
        return Err(
            DriverError::MalformedOutput {
                message: "Podman inspection must have at least one metadata entry".to_owned(),
            },
        );
    }
    if records[0].repo_digests.len() == 0 {
        return Err(
            DriverError::MalformedOutput {
                message: "Podman metadata requires at least 1 digest".to_owned(),
            },
        );
    }
    Ok(&records[0].repo_digests)
}

/// Completes an inspection once every reported digest has been put to the
/// verification call: the metadata keeps the first digest that verified,
/// and a run where none did fails naming all of them.
pub fn finish_inspection(records: &Vec<InspectionRecord>, flags: &Vec<bool>) -> (r: Result<
    ImageMetadata,
    DriverError,
>)
    requires
        records@.len() > 0,
        flags@.len() == records@[0].repo_digests@.len(),
    ensures
        match r {
            Ok(m) => {
                &&& exists|i: int|
                    {
                        &&& 0 <= i < flags@.len()
                        &&& #[trigger] flags@[i]
                        &&& (forall|j: int| 0 <= j < i ==> !flags@[j])
                        &&& spec_reference_digest(records@[0].repo_digests@[i]@) == Some(m.digest@)
                    }
                &&& labels_view(m.labels@) == labels_view(records@[0].labels@)
            },
            Err(e) => {
                ||| {
                    &&& (forall|i: int| 0 <= i < flags@.len() ==> !flags@[i])
                    &&& e matches DriverError::DigestUnverifiable { digests }
                    &&& strings_view(digests@) == strings_view(records@[0].repo_digests@)
                }
                ||| exists|i: int|
                    {
                        &&& 0 <= i < flags@.len()
                        &&& #[trigger] flags@[i]
                        &&& (forall|j: int| 0 <= j < i ==> !flags@[j])
                        &&& spec_reference_digest(records@[0].repo_digests@[i]@) is None
                        &&& e matches DriverError::MalformedOutput { message }
                        &&& message@ == "Unable to read digest from "@
                            + records@[0].repo_digests@[i]@
                    }
            },
        },
{
    let digests = &records[0].repo_digests;
    let mut i: usize = 0;
    while i < flags.len()
        invariant
            0 <= i <= flags@.len(),
            flags@.len() == digests@.len(),
            digests@ == records@[0].repo_digests@,
            records@.len() > 0,
            forall|j: int| 0 <= j < i ==> !flags@[j],
        decreases flags@.len() - i,
    {
        if flags[i] {
            match reference_digest(digests[i].as_str()) {
                Some(d) => {
                    let m = ImageMetadata { labels: clone_labels(&records[0].labels), digest: d };
                    proof {
                        let w = i as int;
                        assert({
                            &&& 0 <= w < flags@.len()
                            &&& flags@[w]
                            &&& (forall|j: int| 0 <= j < w ==> !flags@[j])
                            &&& spec_reference_digest(records@[0].repo_digests@[w]@) == Some(
                                m.digest@,
                            )
                        });
                    }
                    return Ok(m);
                },
                None => {
                    let mut message = "Unable to read digest from ".to_owned();
                    message.append(digests[i].as_str());
                    let e = DriverError::MalformedOutput { message };
                    proof {
                        let w = i as int;
                        assert({
                            &&& 0 <= w < flags@.len()
                            &&& flags@[w]
                            &&& (forall|j: int| 0 <= j < w ==> !flags@[j])
                            &&& spec_reference_digest(records@[0].repo_digests@[w]@) is None
                        });
                    }
                    return Err(e);
                },
            }
        }
        i = i + 1;
    }
    Err(DriverError::DigestUnverifiable { digests: clone_strings(digests) })
}

} // verus!
