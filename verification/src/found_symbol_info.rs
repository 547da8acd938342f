//! What a lookup found: a symbol, the section that holds it, and how far
//! into the symbol the address lies.

use vstd::prelude::*;
use vstd::string::StringExecFns;
use crate::format::{hex_text, to_hex};
use crate::section::Section;
use crate::symbol::Symbol;

verus! {

/// A symbol found by a lookup.
#[derive(Debug, Clone, Copy)]
pub struct FoundSymbolInfo<'a> {
    pub section: &'a Section,
    pub symbol: &'a Symbol,
    pub offset: i64,
}

impl<'a> FoundSymbolInfo<'a> {
    /// A symbol found at `offset` bytes past its start.
    pub fn new(section: &'a Section, symbol: &'a Symbol, offset: i64) -> (r: Self)
        ensures
            r.section == section,
            r.symbol == symbol,
            r.offset == offset,
    {
        Self { section, symbol, offset }
    }

    /// A symbol found at its start.
    pub fn new_default(section: &'a Section, symbol: &'a Symbol) -> (r: Self)
        ensures
            r.section == section,
            r.symbol == symbol,
            r.offset == 0,
    {
        Self { section, symbol, offset: 0 }
    }

    /// The symbol in words: its name in quotes, then in brackets its
    /// address, image offset and size and the path of its section.
    pub open spec fn text(&self) -> Seq<char> {
        "'"@ + self.symbol.name@ + "' (VRAM: "@ + self.symbol.vram_text() + ", VROM: "@
            + self.symbol.vrom_text() + ", SIZE: "@ + self.symbol.size_text() + ", "@
            + self.section.filepath@ + ")"@
    }

    /// The address that was looked up: the symbol's address moved by the
    /// offset, within 64 bits.
    pub open spec fn address(&self) -> u64 {
        self.symbol.vram.wrapping_add(self.offset as u64)
    }

    /// What stands before the symbol in [`FoundSymbolInfo::text_with_offset`]:
    /// `Symbol` where the offset is zero; else the name `sym_name`, or the
    /// address in hexadecimal where there is none, followed by the offset in
    /// hexadecimal.
    pub open spec fn lead(&self, sym_name: Option<Seq<char>>) -> Seq<char> {
        if self.offset != 0 {
            (match sym_name {
                Some(name) => name,
                None => "0x"@ + hex_text(self.address(), 0),
            }) + " is at 0x"@ + hex_text(self.offset as u64, 0) + " bytes inside"@
        } else {
            "Symbol"@
        }
    }

    /// The symbol in words, preceded by where in it the address lies.
    pub open spec fn text_with_offset(&self, sym_name: Option<Seq<char>>) -> Seq<char> {
        self.lead(sym_name) + " "@ + self.text()
    }

    /// The symbol in words.
    pub fn get_as_str(&self) -> (r: String)
        ensures
            r@ == self.text(),
    {
        let mut ret = "'".to_owned();
        ret.append(self.symbol.name.as_str());
        ret.append("' (VRAM: ");
        ret.append(self.symbol.get_vram_str().as_str());
        ret.append(", VROM: ");
        ret.append(self.symbol.get_vrom_str().as_str());
        ret.append(", SIZE: ");
        ret.append(self.symbol.get_size_str().as_str());
        ret.append(", ");
        ret.append(self.section.filepath.as_str());
        ret.append(")");
        ret
    }

    /// The symbol in words, preceded by where in it the address lies. `sym_name`
    /// names the address, where it has a name.
    pub fn get_as_str_plus_offset(&self, sym_name: Option<String>) -> (r: String)
        ensures
            r@ == self.text_with_offset(
                match sym_name {
                    Some(name) => Some(name@),
                    None => None,
                },
            ),
    {
        let mut message;
        if self.offset != 0 {
            message = match sym_name {
                Some(name) => name,
                None => {
                    let mut address = "0x".to_owned();
                    address.append(
                        to_hex(self.symbol.vram.wrapping_add(self.offset as u64), 0).as_str(),
                    );
                    address
                },
            };
            message.append(" is at 0x");
            message.append(to_hex(self.offset as u64, 0).as_str());
            message.append(" bytes inside");
        } else {
            message = "Symbol".to_owned();
        }
        message.append(" ");
        message.append(self.get_as_str().as_str());
        message
    }
}

} // verus!
