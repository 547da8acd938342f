//! One symbol of a build held against the same symbol of the map it was
//! expected to match.

use vstd::prelude::*;
use crate::section::Section;
use crate::symbol::Symbol;

verus! {

/// A symbol with its address in the build and in the expected map. An
/// address of `u64::MAX` with no section says that the side does not have
/// the symbol.
#[derive(Debug, Clone, Copy)]
pub struct SymbolComparisonInfo<'a> {
    pub symbol: &'a Symbol,
    pub build_address: u64,
    pub build_file: Option<&'a Section>,
    pub expected_address: u64,
    pub expected_file: Option<&'a Section>,
}

/// The value of a [`SymbolComparisonInfo`], with what its references point
/// to.
pub struct ComparedSymbol {
    pub symbol: Symbol,
    pub build_address: u64,
    pub build_file: Option<Section>,
    pub expected_address: u64,
    pub expected_file: Option<Section>,
}

/// `v` brought into the range of a signed 64-bit number.
pub open spec fn clamp_i64(v: int) -> i64 {
    if v < i64::MIN {
        i64::MIN
    } else if v > i64::MAX {
        i64::MAX
    } else {
        v as i64
    }
}

impl ComparedSymbol {
    /// Both sides have the symbol in a section of the same object file.
    pub open spec fn same_file(self) -> bool {
        self.build_file is Some && self.expected_file is Some
            && self.build_file->0.filepath@ == self.expected_file->0.filepath@
    }

    /// How far the build's address lies past the expected one. Where both
    /// sides have the symbol in the same object file, the offsets into the
    /// two sections are compared instead, so that a shift of the whole
    /// section does not show up in each of its symbols.
    pub open spec fn delta(self) -> int {
        if self.same_file() {
            (self.build_address - self.build_file->0.vram) - (self.expected_address
                - self.expected_file->0.vram)
        } else {
            self.build_address - self.expected_address
        }
    }

    /// The difference between the two sides: none where a side does not have
    /// the symbol, else `delta`, kept inside the range of a signed 64-bit
    /// number.
    pub open spec fn diff(self) -> Option<i64> {
        if self.build_address == u64::MAX || self.expected_address == u64::MAX {
            None
        } else {
            Some(clamp_i64(self.delta()))
        }
    }
}

impl<'a> View for SymbolComparisonInfo<'a> {
    type V = ComparedSymbol;

    open spec fn view(&self) -> ComparedSymbol {
        ComparedSymbol {
            symbol: *self.symbol,
            build_address: self.build_address,
            build_file: match self.build_file {
                Some(section) => Some(*section),
                None => None,
            },
            expected_address: self.expected_address,
            expected_file: match self.expected_file {
                Some(section) => Some(*section),
                None => None,
            },
        }
    }
}

impl<'a> SymbolComparisonInfo<'a> {
    /// A symbol with its place on both sides.
    pub fn new(
        symbol: &'a Symbol,
        build_address: u64,
        build_file: Option<&'a Section>,
        expected_address: u64,
        expected_file: Option<&'a Section>,
    ) -> (r: Self)
        ensures
            r.symbol == symbol,
            r.build_address == build_address,
            r.build_file == build_file,
            r.expected_address == expected_address,
            r.expected_file == expected_file,
    {
        Self { symbol, build_address, build_file, expected_address, expected_file }
    }

    /// The difference between the build's address and the expected one.
    pub fn diff(&self) -> (r: Option<i64>)
        ensures
            r == self@.diff(),
    {
        if self.build_address == u64::MAX {
            return None;
        }
        if self.expected_address == u64::MAX {
            return None;
        }
        let mut build_address: i128 = self.build_address as i128;
        let mut expected_address: i128 = self.expected_address as i128;
        if let Some(build_file) = self.build_file {
            if let Some(expected_file) = self.expected_file {
                if build_file.filepath == expected_file.filepath {
                    build_address = build_address - build_file.vram as i128;
                    expected_address = expected_address - expected_file.vram as i128;
                }
            }
        }
        let delta: i128 = build_address - expected_address;
        if delta < -0x8000_0000_0000_0000 {
            Some(-0x8000_0000_0000_0000)
        } else if delta > 0x7FFF_FFFF_FFFF_FFFF {
            Some(0x7FFF_FFFF_FFFF_FFFF)
        } else {
            Some(delta as i64)
        }
    }
}

} // verus!
