use vstd::prelude::*;

verus! {

/// The four mutually exclusive ways a package declares its owning team.
#[derive(Debug, PartialEq, Eq, Structural, Clone, Copy)]
pub enum PackOwnership {
    /// A `.codeowner` marker file at the package root.
    Directory,
    /// A header comment in every generated source file.
    FileAnnotation,
    /// An owned-glob entry in the team's own config.
    TeamConfig,
    /// An explicit `owner:` field in a package-level config file.
    PackConfig,
}

/// The scheme a single random byte selects: its residue modulo four picks
/// among the four variants.
pub open spec fn spec_scheme_from_byte(b: u8) -> PackOwnership {
    if b % 4 == 0 {
        PackOwnership::Directory
    } else if b % 4 == 1 {
        PackOwnership::FileAnnotation
    } else if b % 4 == 2 {
        PackOwnership::TeamConfig
    } else {
        PackOwnership::PackConfig
    }
}

/// Relies on `rand::random::<u8>`: a random byte; nothing is assumed of the
/// value that comes back.
#[verifier::external_body]
fn random_u8() -> u8 {
    rand::random::<u8>()
}

/// The deterministic half of the scheme draw: maps a byte to its scheme.
pub fn scheme_from_byte(b: u8) -> (r: PackOwnership)
    ensures
        r == spec_scheme_from_byte(b),
{
    match b % 4 {
        0 => PackOwnership::Directory,
        1 => PackOwnership::FileAnnotation,
        2 => PackOwnership::TeamConfig,
        _ => PackOwnership::PackConfig,
    }
}

impl PackOwnership {
    /// An independent draw of one of the four schemes.
    pub fn random() -> (r: PackOwnership)
        ensures
            exists|b: u8| r == spec_scheme_from_byte(b),
    {
        let b = random_u8();
        let r = scheme_from_byte(b);
        proof {
            assert(r == spec_scheme_from_byte(b));
        }
        r
    }
}

} // verus!
