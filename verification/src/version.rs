//! Bela versions: major, minor and bugfix, ordered the way version
//! numbers are.

use vstd::prelude::*;

use core::cmp::Ordering;
use vstd::std_specs::cmp::PartialOrdSpecImpl;

use crate::text::{push_signed_decimal, signed_decimal};

verus! {

/// A Bela version: major, minor and bugfix.
///
/// Ordered the way version numbers are, major first, then minor, then
/// bugfix, so a program can ask whether the library it found is new
/// enough for what it is about to use. The three numbers are C `int`s in
/// the API that fills them, and they are kept as they arrived.
#[derive(Debug, Clone, Copy, PartialEq, Eq, Ord, Hash, Structural)]
pub struct Version {
    /// The major version.
    pub major: i32,
    /// The minor version.
    pub minor: i32,
    /// The bugfix version.
    pub bugfix: i32,
}

impl PartialOrd for Version {
    fn partial_cmp(&self, other: &Self) -> (order: Option<Ordering>) {
        if self.major != other.major {
            if self.major < other.major { Some(Ordering::Less) } else { Some(Ordering::Greater) }
        } else if self.minor != other.minor {
            if self.minor < other.minor { Some(Ordering::Less) } else { Some(Ordering::Greater) }
        } else if self.bugfix != other.bugfix {
            if self.bugfix < other.bugfix { Some(Ordering::Less) } else { Some(Ordering::Greater) }
        } else {
            Some(Ordering::Equal)
        }
    }
}

impl PartialOrdSpecImpl for Version {
    open spec fn obeys_partial_cmp_spec() -> bool {
        true
    }

    open spec fn partial_cmp_spec(&self, other: &Self) -> Option<Ordering> {
        version_order(*self, *other)
    }
}

/// How two versions compare: by major, then minor, then bugfix.
pub open spec fn version_order(a: Version, b: Version) -> Option<Ordering> {
    if a.major != b.major {
        if a.major < b.major { Some(Ordering::Less) } else { Some(Ordering::Greater) }
    } else if a.minor != b.minor {
        if a.minor < b.minor { Some(Ordering::Less) } else { Some(Ordering::Greater) }
    } else if a.bugfix != b.bugfix {
        if a.bugfix < b.bugfix { Some(Ordering::Less) } else { Some(Ordering::Greater) }
    } else {
        Some(Ordering::Equal)
    }
}

/// A version written out: `major.minor.bugfix`.
pub open spec fn spec_version_text(v: Version) -> Seq<char> {
    signed_decimal(v.major as int) + "."@ + signed_decimal(v.minor as int) + "."@ + signed_decimal(
        v.bugfix as int,
    )
}

impl Version {
    /// A version from its three numbers.
    pub fn new(major: i32, minor: i32, bugfix: i32) -> (v: Self)
        ensures
            v.major == major,
            v.minor == minor,
            v.bugfix == bugfix,
    {
        Self { major, minor, bugfix }
    }

    /// What the headers the bindings were generated from said:
    /// `BELA_MAJOR_VERSION` and its siblings.
    pub fn headers() -> (v: Self)
        ensures
            v == (Version { major: 1, minor: 18, bugfix: 0 }),
    {
        Self { major: 1, minor: 18, bugfix: 0 }
    }

    /// The version written out, as `1.18.0`.
    pub fn to_string(&self) -> (text: String)
        ensures
            text@ == spec_version_text(*self),
    {
        let mut s = String::new();
        push_signed_decimal(&mut s, self.major as i64);
        s.append(".");
        push_signed_decimal(&mut s, self.minor as i64);
        s.append(".");
        push_signed_decimal(&mut s, self.bugfix as i64);
        s
    }
}

/// Versions are totally ordered, major first, then minor, then bugfix:
/// two versions compare equal exactly when they are the same version,
/// `a` is below `b` exactly when `b` is above `a`, and the order is
/// transitive.
pub proof fn lemma_versions_are_totally_ordered(a: Version, b: Version, c: Version)
    ensures
        (version_order(a, b) == Some(Ordering::Equal)) <==> a == b,
        (version_order(a, b) == Some(Ordering::Less)) <==> (version_order(b, a) == Some(
            Ordering::Greater,
        )),
        version_order(a, b) is Some,
        version_order(a, b) == Some(Ordering::Less) && version_order(b, c) == Some(
            Ordering::Less,
        ) ==> version_order(a, c) == Some(Ordering::Less),
        a.major < b.major ==> version_order(a, b) == Some(Ordering::Less),
{
}

} // verus!
