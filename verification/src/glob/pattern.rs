//! The ways in which a pattern is to be matched.
use vstd::prelude::*;

verus! {

/// The bit that stands for [`Mode::no_sub_dir`].
pub const NO_SUB_DIR: u32 = 1;

/// The bit that stands for [`Mode::ends_with`].
pub const ENDS_WITH: u32 = 2;

/// The bit that stands for [`Mode::must_be_dir`].
pub const MUST_BE_DIR: u32 = 4;

/// The bit that stands for [`Mode::negative`].
pub const NEGATIVE: u32 = 8;

/// How a pattern is to be matched. The four facets are independent of each
/// other.
#[derive(Debug, Clone, Copy, PartialEq, Eq, Default)]
pub struct Mode {
    /// The pattern does not contain a sub-directory and - it doesn't contain
    /// slashes after removing the trailing one.
    pub no_sub_dir: bool,
    /// A pattern that is '*literal', meaning that it ends with what's given
    /// here
    pub ends_with: bool,
    /// The pattern must match a directory, and not a file.
    pub must_be_dir: bool,
    /// The pattern excludes what it matches from what earlier patterns
    /// matched.
    pub negative: bool,
}

/// The number that stands for a facet: its bit if the facet is set.
pub open spec fn facet(set: bool, bit: u32) -> int {
    if set {
        bit as int
    } else {
        0
    }
}

impl Mode {
    /// The number whose bits are the facets that are set.
    pub open spec fn as_bits(self) -> int {
        facet(self.no_sub_dir, NO_SUB_DIR) + facet(self.ends_with, ENDS_WITH) + facet(
            self.must_be_dir,
            MUST_BE_DIR,
        ) + facet(self.negative, NEGATIVE)
    }

    /// The mode in which no facet is set.
    pub fn empty() -> (mode: Mode)
        ensures
            mode.as_bits() == 0,
            !mode.no_sub_dir && !mode.ends_with && !mode.must_be_dir && !mode.negative,
    {
        Mode { no_sub_dir: false, ends_with: false, must_be_dir: false, negative: false }
    }

    /// The facets as the bits of one number.
    pub fn bits(&self) -> (bits: u32)
        ensures
            bits == self.as_bits(),
    {
        let mut bits: u32 = 0;
        if self.no_sub_dir {
            bits = bits + NO_SUB_DIR;
        }
        if self.ends_with {
            bits = bits + ENDS_WITH;
        }
        if self.must_be_dir {
            bits = bits + MUST_BE_DIR;
        }
        if self.negative {
            bits = bits + NEGATIVE;
        }
        bits
    }

    /// The mode whose facets are the bits of `bits`, unless a bit is set that
    /// stands for no facet.
    pub fn from_bits(bits: u32) -> (mode: Option<Mode>)
        ensures
            mode is Some <==> bits < 16,
            mode matches Some(found) ==> found.as_bits() == bits,
    {
        if bits >= 16 {
            return None;
        }
        Some(
            Mode {
                no_sub_dir: bits % 2 == 1,
                ends_with: (bits / 2) % 2 == 1,
                must_be_dir: (bits / 4) % 2 == 1,
                negative: (bits / 8) % 2 == 1,
            },
        )
    }
}

/// The bits of a mode say which mode it is: two modes with the same bits are
/// the same, and the bits of every mode stand for facets only.
pub proof fn law_bits_identify_mode(left: Mode, right: Mode)
    ensures
        0 <= left.as_bits() < 16,
        left.as_bits() == right.as_bits() ==> left == right,
{
}

} // verus!
