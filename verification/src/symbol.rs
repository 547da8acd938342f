//! A named address inside a section.

use vstd::prelude::*;
use vstd::string::StringExecFns;
use crate::format::{decimal_text, hex_text, to_decimal, to_hex};

verus! {

/// One symbol of a map file.
#[derive(Debug)]
pub struct Symbol {
    pub name: String,
    pub vram: u64,
    /// Zero until the sizes of a section have been worked out.
    pub size: u64,
    pub vrom: Option<u64>,
    pub align: Option<u64>,
    /// A `.NON_MATCHING` placeholder of this symbol stands in the same
    /// section.
    pub nonmatching_sym_exists: bool,
}

/// The mathematical value of a [`Symbol`].
pub struct SymbolView {
    pub name: Seq<char>,
    pub vram: u64,
    pub size: u64,
    pub vrom: Option<u64>,
    pub align: Option<u64>,
    pub nonmatching_sym_exists: bool,
}

impl View for Symbol {
    type V = SymbolView;

    open spec fn view(&self) -> SymbolView {
        SymbolView {
            name: self.name@,
            vram: self.vram,
            size: self.size,
            vrom: self.vrom,
            align: self.align,
            nonmatching_sym_exists: self.nonmatching_sym_exists,
        }
    }
}

/// The values of a list of symbols, in order.
pub open spec fn symbols_view(symbols: Seq<Symbol>) -> Seq<SymbolView> {
    Seq::new(symbols.len(), |i: int| symbols[i]@)
}

impl PartialEq for Symbol {
    /// Two symbols are the same where they agree in name and address.
    fn eq(&self, other: &Self) -> (r: bool) {
        self.name == other.name && self.vram == other.vram
    }
}

impl Eq for Symbol {

}

impl vstd::std_specs::cmp::PartialEqSpecImpl for Symbol {
    open spec fn obeys_eq_spec() -> bool {
        true
    }

    open spec fn eq_spec(&self, other: &Self) -> bool {
        self.name@ == other.name@ && self.vram == other.vram
    }
}

impl Clone for Symbol {
    fn clone(&self) -> (r: Self)
        ensures
            r@ == self@,
    {
        Symbol {
            name: self.name.clone(),
            vram: self.vram,
            size: self.size,
            vrom: self.vrom,
            align: self.align,
            nonmatching_sym_exists: self.nonmatching_sym_exists,
        }
    }
}

impl Symbol {
    /// A symbol that has no placeholder.
    pub fn new(name: String, vram: u64, size: u64, vrom: Option<u64>, align: Option<u64>) -> (r:
        Self)
        ensures
            r@ == (SymbolView {
                name: name@,
                vram,
                size,
                vrom,
                align,
                nonmatching_sym_exists: false,
            }),
    {
        Symbol { name, vram, size, vrom, align, nonmatching_sym_exists: false }
    }

    /// The address as text: `0x` and at least eight hexadecimal digits.
    pub open spec fn vram_text(&self) -> Seq<char> {
        "0x"@ + hex_text(self.vram, 8)
    }

    /// The size as text, in decimal.
    pub open spec fn size_text(&self) -> Seq<char> {
        decimal_text(self.size)
    }

    /// The image offset as text: `0x` and at least six hexadecimal digits,
    /// or `None`.
    pub open spec fn vrom_text(&self) -> Seq<char> {
        match self.vrom {
            Some(vrom) => "0x"@ + hex_text(vrom, 6),
            None => "None"@,
        }
    }

    /// The alignment as text: `0x` and the hexadecimal digits, or `None`.
    pub open spec fn align_text(&self) -> Seq<char> {
        match self.align {
            Some(align) => "0x"@ + hex_text(align, 0),
            None => "None"@,
        }
    }

    /// The symbol's row of a table of comma-separated values: the name, the
    /// address in eight hexadecimal digits, and the size in decimal.
    pub open spec fn csv_text(&self) -> Seq<char> {
        self.name@ + ","@ + hex_text(self.vram, 8) + ","@ + decimal_text(self.size)
    }

    /// The address as text.
    pub fn get_vram_str(&self) -> (r: String)
        ensures
            r@ == self.vram_text(),
    {
        let mut ret = "0x".to_owned();
        ret.append(to_hex(self.vram, 8).as_str());
        ret
    }

    /// The size as text.
    pub fn get_size_str(&self) -> (r: String)
        ensures
            r@ == self.size_text(),
    {
        to_decimal(self.size)
    }

    /// The image offset as text.
    pub fn get_vrom_str(&self) -> (r: String)
        ensures
            r@ == self.vrom_text(),
    {
        match self.vrom {
            Some(vrom) => {
                let mut ret = "0x".to_owned();
                ret.append(to_hex(vrom, 6).as_str());
                ret
            },
            None => "None".to_owned(),
        }
    }

    /// The alignment as text.
    pub fn get_align_str(&self) -> (r: String)
        ensures
            r@ == self.align_text(),
    {
        match self.align {
            Some(align) => {
                let mut ret = "0x".to_owned();
                ret.append(to_hex(align, 0).as_str());
                ret
            },
            None => "None".to_owned(),
        }
    }

    /// The headings of the columns of [`Symbol::to_csv`].
    pub fn to_csv_header() -> (r: String)
        ensures
            r@ == "Symbol name,VRAM,Size in bytes"@,
    {
        "Symbol name,VRAM,Size in bytes".to_owned()
    }

    /// The symbol's row of a table of comma-separated values.
    pub fn to_csv(&self) -> (r: String)
        ensures
            r@ == self.csv_text(),
    {
        let mut ret = self.name.clone();
        ret.append(",");
        ret.append(to_hex(self.vram, 8).as_str());
        ret.append(",");
        ret.append(to_decimal(self.size).as_str());
        ret
    }

    /// A symbol of which only the name and the address are known.
    pub fn new_default(name: String, vram: u64) -> (r: Self)
        ensures
            r@ == (SymbolView {
                name: name@,
                vram,
                size: 0,
                vrom: None,
                align: None,
                nonmatching_sym_exists: false,
            }),
    {
        Symbol { name, vram, size: 0, vrom: None, align: None, nonmatching_sym_exists: false }
    }
}

/// Copies a list of symbols.
pub fn clone_symbols(symbols: &Vec<Symbol>) -> (r: Vec<Symbol>)
    ensures
        symbols_view(r@) == symbols_view(symbols@),
{
    let mut out: Vec<Symbol> = Vec::new();
    let mut i: usize = 0;
    while i < symbols.len()
        invariant
            i <= symbols.len(),
            out.len() == i,
            forall|j: int| 0 <= j < i ==> out@[j]@ == symbols@[j]@,
        decreases symbols.len() - i,
    {
        out.push(symbols[i].clone());
        i += 1;
    }
    assert(symbols_view(out@) =~= symbols_view(symbols@));
    out
}

} // verus!
