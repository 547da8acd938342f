//! The older lookup that takes one number for a virtual address or an image
//! offset, whichever fits.
//!
//! The lookup walks the symbols in order and stops at the first that starts
//! at the number, as an address or as an image offset. Failing that, it
//! stops at the first symbol that lies past the number and gives the symbol
//! before it, or ends with the last symbol where that one still covers the
//! number. A number from `0x1000000` on may be an address; any number may be
//! an image offset, which is tried first.

use vstd::prelude::*;
use crate::found_symbol_info::FoundSymbolInfo;
use crate::mapfile::{MapFile, Place};
use crate::search::{first_index, lemma_first_index_is, lemma_first_index_none};
use crate::section::Section;
use crate::segment::Segment;
use crate::symbol::Symbol;

verus! {

/// The least number that is read as a virtual address.
pub open spec fn least_address() -> u64 {
    0x1000000
}

/// The symbol at `k` with the offset `offset`, where the offset is not
/// negative and fits a signed 64-bit number.
pub open spec fn at_offset(k: int, offset: int) -> Option<(int, i64)> {
    if 0 <= offset <= i64::MAX {
        Some((k, offset as i64))
    } else {
        None
    }
}

/// What the lookup gives where no symbol stopped it: the last symbol, where
/// it covers the number.
pub open spec fn locate_either_in_last(symbols: Seq<Symbol>, address: u64) -> Option<(int, i64)> {
    if symbols.len() == 0 {
        None
    } else {
        let last = symbols.last();
        if last.vrom is Some && last.vrom->0 + last.size > address {
            at_offset(symbols.len() - 1, address - last.vrom->0)
        } else if address >= least_address() && last.vram + last.size > address {
            at_offset(symbols.len() - 1, address - last.vram)
        } else {
            None
        }
    }
}

/// What the lookup gives, having walked the symbols before `i` without
/// stopping.
pub open spec fn locate_either_from(symbols: Seq<Symbol>, address: u64, i: int) -> Option<
    (int, i64),
>
    decreases symbols.len() - i,
{
    if i < 0 || i >= symbols.len() {
        locate_either_in_last(symbols, address)
    } else {
        let symbol = symbols[i];
        if symbol.vram == address || symbol.vrom == Some(address) {
            Some((i, 0i64))
        } else if i > 0 && symbol.vrom is Some && symbol.vrom->0 > address && symbols[i
            - 1].vrom is Some {
            at_offset(i - 1, address - symbols[i - 1].vrom->0)
        } else if i > 0 && address >= least_address() && symbol.vram > address {
            at_offset(i - 1, address - symbols[i - 1].vram)
        } else {
            locate_either_from(symbols, address, i + 1)
        }
    }
}

/// The symbol that holds a number, read as an address or as an image
/// offset, with the offset into it.
pub open spec fn locate_either(symbols: Seq<Symbol>, address: u64) -> Option<(int, i64)> {
    locate_either_from(symbols, address, 0)
}

/// The lookup finds a symbol in the section.
pub open spec fn section_has_either(address: u64) -> spec_fn(Section) -> bool {
    |s: Section| locate_either(s.symbols@, address) is Some
}

/// The lookup finds a symbol in the segment.
pub open spec fn segment_has_either(address: u64) -> spec_fn(Segment) -> bool {
    |s: Segment| s.locate_either(address) is Some
}

fn offset_from(symbol: &Symbol, start: u64, address: u64) -> (r: Option<(&Symbol, i64)>)
    ensures
        match r {
            Some((found, offset)) => found == symbol && 0 <= address - start <= i64::MAX && offset
                == address - start,
            None => !(0 <= address - start <= i64::MAX),
        },
{
    if address >= start && address - start <= 0x7FFF_FFFF_FFFF_FFFF {
        Some((symbol, (address - start) as i64))
    } else {
        None
    }
}

impl Section {
    /// Looks a number up that may be a virtual address or an image offset.
    pub fn find_symbol_by_vram_or_vrom(&self, address: u64) -> (r: Option<(&Symbol, i64)>)
        ensures
            match (r, locate_either(self.symbols@, address)) {
                (Some((sym, offset)), Some((k, at))) => 0 <= k < self.symbols@.len() && *sym
                    == self.symbols@[k] && offset == at,
                (None, None) => true,
                _ => false,
            },
    {
        let is_vram = address >= 0x1000000;
        let mut i: usize = 0;
        while i < self.symbols.len()
            invariant
                i <= self.symbols.len(),
                is_vram == (address >= least_address()),
                locate_either(self.symbols@, address) == locate_either_from(
                    self.symbols@,
                    address,
                    i as int,
                ),
            decreases self.symbols.len() - i,
        {
            let sym = &self.symbols[i];
            if sym.vram == address {
                return Some((sym, 0));
            }
            if let Some(sym_vrom) = sym.vrom {
                if sym_vrom == address {
                    return Some((sym, 0));
                }
            }
            if i > 0 {
                let prev_sym = &self.symbols[i - 1];
                if let Some(sym_vrom) = sym.vrom {
                    if sym_vrom > address {
                        if let Some(prev_vrom) = prev_sym.vrom {
                            return offset_from(prev_sym, prev_vrom, address);
                        }
                    }
                }
                if is_vram && sym.vram > address {
                    return offset_from(prev_sym, prev_sym.vram, address);
                }
            }
            i += 1;
        }
        if self.symbols.len() > 0 {
            let prev_sym = &self.symbols[self.symbols.len() - 1];
            if let Some(prev_vrom) = prev_sym.vrom {
                if address < prev_vrom || address - prev_vrom < prev_sym.size {
                    return offset_from(prev_sym, prev_vrom, address);
                }
            }
            if is_vram && (address < prev_sym.vram || address - prev_sym.vram < prev_sym.size) {
                return offset_from(prev_sym, prev_sym.vram, address);
            }
        }
        None
    }
}

impl Segment {
    /// Where the lookup ends: the first section in which it finds a symbol,
    /// the symbol's position and the offset into it.
    pub open spec fn locate_either(&self, address: u64) -> Option<(int, int, i64)> {
        match first_index(self.sections_list@, section_has_either(address)) {
            Some(j) => {
                let hit = locate_either(self.sections_list@[j].symbols@, address)->0;
                Some((j, hit.0, hit.1))
            },
            None => None,
        }
    }

    /// Looks a number up that may be a virtual address or an image offset.
    pub fn find_symbol_by_vram_or_vrom(&self, address: u64) -> (r: Option<FoundSymbolInfo>)
        ensures
            match (r, self.locate_either(address)) {
                (Some(info), Some((j, k, offset))) => *info.section == self.sections_list@[j]
                    && *info.symbol == self.sections_list@[j].symbols@[k] && info.offset
                    == offset,
                (None, None) => true,
                _ => false,
            },
    {
        let mut i: usize = 0;
        while i < self.sections_list.len()
            invariant
                i <= self.sections_list.len(),
                forall|j: int|
                    0 <= j < i ==> !section_has_either(address)(#[trigger] self.sections_list@[j]),
            decreases self.sections_list.len() - i,
        {
            let section = &self.sections_list[i];
            if let Some((sym, offset)) = section.find_symbol_by_vram_or_vrom(address) {
                proof {
                    lemma_first_index_is(
                        self.sections_list@,
                        section_has_either(address),
                        i as int,
                    );
                }
                return Some(FoundSymbolInfo::new(section, sym, offset));
            }
            i += 1;
        }
        proof {
            lemma_first_index_none(self.sections_list@, section_has_either(address));
        }
        None
    }
}

impl MapFile {
    /// Where the lookup ends: in the first segment in which it finds a
    /// symbol.
    pub open spec fn locate_either(&self, address: u64) -> Option<Place> {
        match first_index(self.segments_list@, segment_has_either(address)) {
            Some(i) => {
                let hit = self.segments_list@[i].locate_either(address)->0;
                Some(Place { segment: i, section: hit.0, symbol: hit.1, offset: hit.2 })
            },
            None => None,
        }
    }

    /// Looks a number up that may be a virtual address or an image offset.
    pub fn find_symbol_by_vram_or_vrom(&self, address: u64) -> (r: Option<FoundSymbolInfo>)
        ensures
            match (r, self.locate_either(address)) {
                (Some(info), Some(place)) => self.found_at(info, place),
                (None, None) => true,
                _ => false,
            },
    {
        let mut i: usize = 0;
        while i < self.segments_list.len()
            invariant
                i <= self.segments_list.len(),
                forall|j: int|
                    0 <= j < i ==> !segment_has_either(address)(#[trigger] self.segments_list@[j]),
            decreases self.segments_list.len() - i,
        {
            if let Some(info) = self.segments_list[i].find_symbol_by_vram_or_vrom(address) {
                proof {
                    lemma_first_index_is(
                        self.segments_list@,
                        segment_has_either(address),
                        i as int,
                    );
                }
                return Some(info);
            }
            i += 1;
        }
        proof {
            lemma_first_index_none(self.segments_list@, segment_has_either(address));
        }
        None
    }
}

} // verus!
