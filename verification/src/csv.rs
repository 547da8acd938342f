//! Tables of comma-separated values: one row per section, or one per
//! symbol.

use vstd::prelude::*;
use vstd::string::StringExecFns;
use crate::format::{decimal_text, hex_text, to_decimal, to_hex};
use crate::mapfile::MapFile;
use crate::section::Section;
use crate::segment::Segment;
use crate::symbol::Symbol;

verus! {

/// The largest size among the first `k` symbols; zero where there is none.
pub open spec fn largest_size(symbols: Seq<Symbol>, k: int) -> u64
    decreases k,
{
    if k <= 0 {
        0
    } else {
        let before = largest_size(symbols, k - 1);
        if symbols[k - 1].size > before {
            symbols[k - 1].size
        } else {
            before
        }
    }
}

/// The rows of the first `k` symbols of a section: on each, the section's
/// path, a comma, the symbol's row, and a line feed.
pub open spec fn symbol_rows(section: Section, k: int) -> Seq<char>
    decreases k,
{
    if k <= 0 {
        Seq::empty()
    } else {
        symbol_rows(section, k - 1) + section.filepath@ + ","@ + section.symbols@[k - 1].csv_text()
            + "\n"@
    }
}

/// The rows of the symbols of the first `j` sections of a segment.
pub open spec fn section_rows(segment: Segment, j: int) -> Seq<char>
    decreases j,
{
    if j <= 0 {
        Seq::empty()
    } else {
        section_rows(segment, j - 1) + symbol_rows(
            segment.sections_list@[j - 1],
            segment.sections_list@[j - 1].symbols@.len() as int,
        )
    }
}

/// The rows of the symbols of the first `i` segments.
pub open spec fn segment_rows(segments: Seq<Segment>, i: int) -> Seq<char>
    decreases i,
{
    if i <= 0 {
        Seq::empty()
    } else {
        segment_rows(segments, i - 1) + section_rows(
            segments[i - 1],
            segments[i - 1].sections_list@.len() as int,
        )
    }
}

impl Section {
    /// The section's row of a table without its last column, the average
    /// size: the address in eight hexadecimal digits where `print_vram` is
    /// set, the path, the type, the number of symbols, the largest size of
    /// a symbol and the section's size, each followed by a comma.
    pub open spec fn csv_columns(&self, print_vram: bool) -> Seq<char> {
        (if print_vram {
            hex_text(self.vram, 8) + ","@
        } else {
            Seq::empty()
        }) + self.filepath@ + ","@ + self.section_type@ + ","@ + decimal_text(
            self.symbols@.len() as u64,
        ) + ","@ + decimal_text(largest_size(self.symbols@, self.symbols@.len() as int)) + ","@
            + decimal_text(self.size) + ","@
    }

    /// The largest size of a symbol of the section; zero where it has none.
    pub fn max_symbol_size(&self) -> (r: u64)
        ensures
            r == largest_size(self.symbols@, self.symbols@.len() as int),
    {
        let mut max_size: u64 = 0;
        let mut k: usize = 0;
        while k < self.symbols.len()
            invariant
                k <= self.symbols.len(),
                max_size == largest_size(self.symbols@, k as int),
            decreases self.symbols.len() - k,
        {
            if self.symbols[k].size > max_size {
                max_size = self.symbols[k].size;
            }
            k += 1;
        }
        max_size
    }

    /// The section's row of a table, up to the average size of a symbol,
    /// which is left for the caller to add.
    pub fn to_csv_columns(&self, print_vram: bool) -> (r: String)
        ensures
            r@ == self.csv_columns(print_vram),
    {
        let mut ret = String::new();
        if print_vram {
            ret.append(to_hex(self.vram, 8).as_str());
            ret.append(",");
        }
        assert(ret@ =~= if print_vram {
            hex_text(self.vram, 8) + ","@
        } else {
            Seq::empty()
        });
        ret.append(self.filepath.as_str());
        ret.append(",");
        ret.append(self.section_type.as_str());
        ret.append(",");
        ret.append(to_decimal(self.symbols.len() as u64).as_str());
        ret.append(",");
        ret.append(to_decimal(self.max_symbol_size()).as_str());
        ret.append(",");
        ret.append(to_decimal(self.size).as_str());
        ret.append(",");
        ret
    }
}

impl Segment {
    /// One row for each symbol of the segment: the path of its section and
    /// the symbol's own row.
    pub fn to_csv_symbols(&self) -> (r: String)
        ensures
            r@ == section_rows(*self, self.sections_list@.len() as int),
    {
        let mut ret = String::new();
        let mut j: usize = 0;
        assert(ret@ =~= section_rows(*self, 0));
        while j < self.sections_list.len()
            invariant
                j <= self.sections_list.len(),
                ret@ == section_rows(*self, j as int),
            decreases self.sections_list.len() - j,
        {
            let section = &self.sections_list[j];
            let ghost done = ret@;
            let mut k: usize = 0;
            assert(ret@ =~= done + symbol_rows(*section, 0));
            while k < section.symbols.len()
                invariant
                    k <= section.symbols.len(),
                    ret@ == done + symbol_rows(*section, k as int),
                decreases section.symbols.len() - k,
            {
                let ghost rows = ret@;
                ret.append(section.filepath.as_str());
                ret.append(",");
                ret.append(section.symbols[k].to_csv().as_str());
                ret.append("\n");
                assert(ret@ =~= done + (symbol_rows(*section, k as int) + section.filepath@ + ","@
                    + section.symbols@[k as int].csv_text() + "\n"@));
                k += 1;
            }
            j += 1;
        }
        ret
    }
}

impl MapFile {
    /// A table with one row for each symbol of the map, under a row of
    /// headings.
    pub fn to_csv_symbols(&self) -> (r: String)
        ensures
            r@ == "Section,"@ + "Symbol name,VRAM,Size in bytes"@ + "\n"@ + segment_rows(
                self.segments_list@,
                self.segments_list@.len() as int,
            ),
    {
        let mut ret = "Section,".to_owned();
        ret.append(Symbol::to_csv_header().as_str());
        ret.append("\n");
        let ghost head = ret@;
        let mut i: usize = 0;
        assert(ret@ =~= head + segment_rows(self.segments_list@, 0));
        while i < self.segments_list.len()
            invariant
                i <= self.segments_list.len(),
                ret@ == head + segment_rows(self.segments_list@, i as int),
            decreases self.segments_list.len() - i,
        {
            let ghost done = ret@;
            ret.append(self.segments_list[i].to_csv_symbols().as_str());
            assert(ret@ =~= head + (segment_rows(self.segments_list@, i as int) + section_rows(
                self.segments_list@[i as int],
                self.segments_list@[i as int].sections_list@.len() as int,
            )));
            i += 1;
        }
        ret
    }
}

} // verus!
