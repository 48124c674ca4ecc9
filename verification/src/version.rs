//! Semantic versions as plain values: parsing the `major.minor.patch` shape
//! that the container tool reports, ordering, and rendering. The version
//! gate itself lives with the driver that declares its requirement.

use vstd::prelude::*;
use vstd::string::StringExecFns;
use crate::text::{spec_decimal, u64_to_string};

verus! {

/// The byte values of '0', '9' and '.'.
pub const ZERO_BYTE: u8 = 48;

pub const NINE_BYTE: u8 = 57;

pub const DOT_BYTE: u8 = 46;

/// A semantic version with numeric components only, as the tool's
/// `version -f json` output reports it.
#[derive(Clone, Copy, Debug, PartialEq, Eq, Structural)]
pub struct Version {
    pub major: u64,
    pub minor: u64,
    pub patch: u64,
}

/// A minimum-version constraint, bound to one backend and checked once
/// against the version the backend reports of itself.
#[derive(Clone, Copy, Debug, PartialEq, Eq, Structural)]
pub struct VersionRequirement {
    pub min: Version,
}

pub open spec fn spec_is_digit(b: u8) -> bool {
    ZERO_BYTE <= b <= NINE_BYTE
}

/// The value of a string of decimal digits, most significant first.
pub open spec fn spec_digits_val(s: Seq<u8>) -> int
    decreases s.len(),
{
    if s.len() == 0 {
        0
    } else {
        spec_digits_val(s.drop_last()) * 10 + s.last() - (ZERO_BYTE as int)
    }
}

pub open spec fn spec_all_digits(s: Seq<u8>) -> bool {
    forall|i: int| 0 <= i < s.len() ==> spec_is_digit(s[i])
}

/// A numeric identifier as semantic versioning has it: nonempty, digits
/// only, no leading zero, and small enough for a machine word.
pub open spec fn spec_numeric_group(s: Seq<u8>) -> bool {
    &&& s.len() > 0
    &&& spec_all_digits(s)
    &&& (s.len() == 1 || s[0] != ZERO_BYTE)
    &&& spec_digits_val(s) <= u64::MAX
}

/// Splits a byte string on every dot; n dots give n + 1 groups.
pub open spec fn spec_split_dots(s: Seq<u8>) -> Seq<Seq<u8>>
    decreases s.len(),
{
    if s.len() == 0 {
        seq![Seq::<u8>::empty()]
    } else {
        let p = spec_split_dots(s.drop_last());
        if s.last() == DOT_BYTE {
            p.push(Seq::<u8>::empty())
        } else {
            p.update(p.len() - 1, p.last().push(s.last()))
        }
    }
}

/// What a well-formed version string denotes: exactly three numeric
/// groups separated by dots.
pub open spec fn spec_parse_version(s: Seq<u8>) -> Option<Version> {
    let parts = spec_split_dots(s);
    if parts.len() == 3 && spec_numeric_group(parts[0]) && spec_numeric_group(parts[1])
        && spec_numeric_group(parts[2]) {
        Some(
            Version {
                major: spec_digits_val(parts[0]) as u64,
                minor: spec_digits_val(parts[1]) as u64,
                patch: spec_digits_val(parts[2]) as u64,
            },
        )
    } else {
        None
    }
}

pub open spec fn byte_groups_view(v: Seq<Vec<u8>>) -> Seq<Seq<u8>> {
    Seq::new(v.len(), |i: int| v[i]@)
}

proof fn lemma_digits_val_nonneg(s: Seq<u8>)
    requires
        spec_all_digits(s),
    ensures
        spec_digits_val(s) >= 0,
    decreases s.len(),
{
    if s.len() > 0 {
        assert(spec_all_digits(s.drop_last()));
        lemma_digits_val_nonneg(s.drop_last());
    }
}

proof fn lemma_digits_val_take_le(s: Seq<u8>, j: int)
    requires
        spec_all_digits(s),
        0 <= j <= s.len(),
    ensures
        spec_digits_val(s.take(j)) <= spec_digits_val(s),
    decreases s.len() - j,
{
    if j < s.len() {
        lemma_digits_val_take_le(s, j + 1);
        assert(s.take(j + 1).drop_last() =~= s.take(j));
        assert(spec_all_digits(s.take(j)));
        lemma_digits_val_nonneg(s.take(j));
    } else {
        assert(s.take(j) =~= s);
    }
}

/// Parses one numeric group; fails exactly on the strings that are not
/// well-formed numeric identifiers.
fn parse_group(g: &Vec<u8>) -> (r: Option<u64>)
    ensures
        match r {
            Some(v) => spec_numeric_group(g@) && v == spec_digits_val(g@),
            None => !spec_numeric_group(g@),
        },
{
    if g.len() == 0 {
        return None;
    }
    if g.len() > 1 && g[0] == ZERO_BYTE {
        return None;
    }
    let mut val: u64 = 0;
    let mut j: usize = 0;
    while j < g.len()
        invariant
            0 <= j <= g@.len(),
            g@.len() > 0,
            g@.len() == 1 || g@[0] != ZERO_BYTE,
            spec_all_digits(g@.take(j as int)),
            val == spec_digits_val(g@.take(j as int)),
        decreases g@.len() - j,
    {
        let b = g[j];
        if !(ZERO_BYTE <= b && b <= NINE_BYTE) {
            assert(!spec_is_digit(g@[j as int]));
            return None;
        }
        let d: u64 = (b - ZERO_BYTE) as u64;
        proof {
            assert(g@.take(j as int + 1).drop_last() =~= g@.take(j as int));
            assert(spec_all_digits(g@.take(j as int + 1)));
        }
        let val10 = match val.checked_mul(10) {
            Some(v) => v,
            None => {
                proof {
                    lemma_digits_val_nonneg(g@.take(j as int + 1));
                    assert(spec_digits_val(g@.take(j as int + 1)) > u64::MAX);
                    if spec_all_digits(g@) {
                        lemma_digits_val_take_le(g@, j as int + 1);
                    }
                }
                return None;
            },
        };
        let next = match val10.checked_add(d) {
            Some(v) => v,
            None => {
                proof {
                    assert(spec_digits_val(g@.take(j as int + 1)) > u64::MAX);
                    if spec_all_digits(g@) {
                        lemma_digits_val_take_le(g@, j as int + 1);
                    }
                }
                return None;
            },
        };
        val = next;
        j = j + 1;
    }
    proof {
        assert(g@.take(j as int) =~= g@);
    }
    Some(val)
}

/// Parses a byte string as a three-component semantic version, and fails
/// exactly where the string is not one.
pub fn parse_version(s: &[u8]) -> (r: Option<Version>)
    ensures
        r == spec_parse_version(s@),
{
    let mut done: Vec<Vec<u8>> = Vec::new();
    let mut cur: Vec<u8> = Vec::new();
    let mut i: usize = 0;
    while i < s.len()
        invariant
            0 <= i <= s@.len(),
            spec_split_dots(s@.take(i as int)) == byte_groups_view(done@).push(cur@),
        decreases s@.len() - i,
    {
        proof {
            assert(s@.take(i as int + 1).drop_last() =~= s@.take(i as int));
        }
        if s[i] == DOT_BYTE {
            let ghost prev_done = done@;
            done.push(cur);
            cur = Vec::new();
            proof {
                assert(byte_groups_view(done@) =~= byte_groups_view(prev_done).push(done@.last()@));
                assert(spec_split_dots(s@.take(i as int + 1)) =~= byte_groups_view(done@).push(
                    cur@,
                ));
            }
        } else {
            let b = s[i];
            cur.push(b);
            proof {
                let p = byte_groups_view(done@).push(cur@.drop_last());
                assert(p.last() =~= cur@.drop_last());
                assert(cur@.drop_last().push(b) =~= cur@);
                assert(p.update(p.len() - 1, p.last().push(b)) =~= byte_groups_view(done@).push(
                    cur@,
                ));
            }
        }
        i = i + 1;
    }
    proof {
        assert(s@.take(i as int) =~= s@);
    }
    if done.len() != 2 {
        proof {
            assert(spec_split_dots(s@).len() == done@.len() + 1);
        }
        return None;
    }
    let g0 = parse_group(&done[0]);
    let g1 = parse_group(&done[1]);
    let g2 = parse_group(&cur);
    proof {
        assert(spec_split_dots(s@)[0] == done@[0]@);
        assert(spec_split_dots(s@)[1] == done@[1]@);
        assert(spec_split_dots(s@)[2] == cur@);
    }
    match (g0, g1, g2) {
        (Some(major), Some(minor), Some(patch)) => Some(Version { major, minor, patch }),
        _ => None,
    }
}

/// Lexicographic order on (major, minor, patch).
pub open spec fn spec_version_geq(a: Version, b: Version) -> bool {
    ||| a.major > b.major
    ||| (a.major == b.major && a.minor > b.minor)
    ||| (a.major == b.major && a.minor == b.minor && a.patch >= b.patch)
}

impl Version {
    /// Whether this version is at least `other`, comparing major, then
    /// minor, then patch.
    pub fn at_least(&self, other: &Version) -> (r: bool)
        ensures
            r == spec_version_geq(*self, *other),
    {
        if self.major != other.major {
            self.major > other.major
        } else if self.minor != other.minor {
            self.minor > other.minor
        } else {
            self.patch >= other.patch
        }
    }

    /// The `major.minor.patch` rendering.
    pub fn render(&self) -> (r: String)
        ensures
            r@ == spec_version_chars(*self),
    {
        let mut r = u64_to_string(self.major);
        r.append(".");
        let minor = u64_to_string(self.minor);
        r.append(minor.as_str());
        r.append(".");
        let patch = u64_to_string(self.patch);
        r.append(patch.as_str());
        r
    }
}

pub open spec fn spec_version_chars(v: Version) -> Seq<char> {
    spec_decimal(v.major as nat) + "."@ + spec_decimal(v.minor as nat) + "."@ + spec_decimal(
        v.patch as nat,
    )
}

pub open spec fn spec_requirement_chars(r: VersionRequirement) -> Seq<char> {
    ">="@ + spec_version_chars(r.min)
}

impl VersionRequirement {
    /// Whether a discovered version satisfies this minimum requirement.
    pub fn satisfied_by(&self, v: &Version) -> (r: bool)
        ensures
            r == spec_version_geq(*v, self.min),
    {
        v.at_least(&self.min)
    }

    /// The `>=major.minor.patch` rendering of the constraint.
    pub fn render(&self) -> (r: String)
        ensures
            r@ == spec_requirement_chars(*self),
    {
        let mut r = ">=".to_owned();
        let min = self.min.render();
        r.append(min.as_str());
        r
    }
}

} // verus!
