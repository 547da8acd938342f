//! One `(object file, section type)` slice of a segment, with its symbols.

use vstd::prelude::*;
use crate::search::{
    first_index, last_index, lemma_first_index_is, lemma_first_index_none, lemma_last_index_is,
    lemma_last_index_none,
};
use crate::symbol::{clone_symbols, symbols_view, Symbol, SymbolView};
use crate::utils::{is_noload_section, noload_name};

verus! {

/// A section of one object file as the linker placed it.
#[derive(Debug)]
pub struct Section {
    pub filepath: String,
    pub vram: u64,
    pub size: u64,
    pub section_type: String,
    pub vrom: Option<u64>,
    pub align: Option<u64>,
    /// The section stands for padding that the linker put in, not for a
    /// part of an object file.
    pub is_fill: bool,
    pub symbols: Vec<Symbol>,
}

/// The mathematical value of a [`Section`].
pub struct SectionView {
    pub filepath: Seq<char>,
    pub vram: u64,
    pub size: u64,
    pub section_type: Seq<char>,
    pub vrom: Option<u64>,
    pub align: Option<u64>,
    pub is_fill: bool,
    pub symbols: Seq<SymbolView>,
}

impl View for Section {
    type V = SectionView;

    open spec fn view(&self) -> SectionView {
        SectionView {
            filepath: self.filepath@,
            vram: self.vram,
            size: self.size,
            section_type: self.section_type@,
            vrom: self.vrom,
            align: self.align,
            is_fill: self.is_fill,
            symbols: symbols_view(self.symbols@),
        }
    }
}

/// The values of a list of sections, in order.
pub open spec fn sections_view(sections: Seq<Section>) -> Seq<SectionView> {
    Seq::new(sections.len(), |i: int| sections[i]@)
}

impl SectionView {
    /// The section takes up address space but no bytes of the image.
    pub open spec fn is_noload(self) -> bool {
        noload_name(self.section_type)
    }

    /// The section is the empty stand-in that a scan starts from.
    pub open spec fn is_placeholder(self) -> bool {
        &&& self.filepath.len() == 0
        &&& self.vram == 0
        &&& self.size == 0
        &&& self.section_type.len() == 0
        &&& self.vrom is None
        &&& self.align is None
        &&& self.symbols.len() == 0
    }

    /// The value of the empty stand-in section.
    pub open spec fn placeholder() -> SectionView {
        SectionView {
            filepath: Seq::empty(),
            vram: 0,
            size: 0,
            section_type: Seq::empty(),
            vrom: None,
            align: None,
            is_fill: false,
            symbols: Seq::empty(),
        }
    }
}

/// The symbol carries the name `name`.
pub open spec fn symbol_named(name: Seq<char>) -> spec_fn(Symbol) -> bool {
    |sym: Symbol| sym.name@ == name
}

/// The symbol starts at `address`.
pub open spec fn symbol_at_vram(address: u64) -> spec_fn(Symbol) -> bool {
    |sym: Symbol| sym.vram == address
}

/// `address` lies inside the symbol, past its start, at an offset that a
/// signed 64-bit number holds.
pub open spec fn symbol_covers_vram(address: u64) -> spec_fn(Symbol) -> bool {
    |sym: Symbol|
        sym.vram < address && address - sym.vram < sym.size && address - sym.vram <= i64::MAX
}

/// The symbol has an image offset, and it is `address`.
pub open spec fn symbol_at_vrom(address: u64) -> spec_fn(Symbol) -> bool {
    |sym: Symbol| sym.vrom == Some(address)
}

/// The symbol has an image offset, and `address` lies inside the symbol's
/// bytes, past their start, at an offset that a signed 64-bit number holds.
pub open spec fn symbol_covers_vrom(address: u64) -> spec_fn(Symbol) -> bool {
    |sym: Symbol|
        sym.vrom is Some && sym.vrom->0 < address && address - sym.vrom->0 < sym.size && address
            - sym.vrom->0 <= i64::MAX
}

/// The symbol that holds a virtual address, with the offset into it: the
/// first symbol that starts there, else the last one that covers it.
pub open spec fn locate_vram(symbols: Seq<Symbol>, address: u64) -> Option<(int, i64)> {
    match first_index(symbols, symbol_at_vram(address)) {
        Some(k) => Some((k, 0i64)),
        None => match last_index(symbols, symbol_covers_vram(address)) {
            Some(k) => Some((k, (address - symbols[k].vram) as i64)),
            None => None,
        },
    }
}

/// The symbol that holds an image offset, with the offset into it: the first
/// symbol that starts there, else the last one that covers it. Symbols
/// without an image offset are passed over.
pub open spec fn locate_vrom(symbols: Seq<Symbol>, address: u64) -> Option<(int, i64)> {
    match first_index(symbols, symbol_at_vrom(address)) {
        Some(k) => Some((k, 0i64)),
        None => match last_index(symbols, symbol_covers_vrom(address)) {
            Some(k) => Some((k, (address - symbols[k].vrom->0) as i64)),
            None => None,
        },
    }
}

impl PartialEq for Section {
    /// Two sections are the same where they agree in object file and type.
    fn eq(&self, other: &Self) -> (r: bool) {
        self.filepath == other.filepath && self.section_type == other.section_type
    }
}

impl Eq for Section {

}

impl vstd::std_specs::cmp::PartialEqSpecImpl for Section {
    open spec fn obeys_eq_spec() -> bool {
        true
    }

    open spec fn eq_spec(&self, other: &Self) -> bool {
        self.filepath@ == other.filepath@ && self.section_type@ == other.section_type@
    }
}

impl Clone for Section {
    fn clone(&self) -> (r: Self)
        ensures
            r@ == self@,
    {
        Section {
            filepath: self.filepath.clone(),
            vram: self.vram,
            size: self.size,
            section_type: self.section_type.clone(),
            vrom: self.vrom,
            align: self.align,
            is_fill: self.is_fill,
            symbols: clone_symbols(&self.symbols),
        }
    }
}

impl Section {
    /// A section without symbols that is no padding.
    pub fn new(
        filepath: String,
        vram: u64,
        size: u64,
        section_type: &str,
        vrom: Option<u64>,
        align: Option<u64>,
    ) -> (r: Self)
        ensures
            r@ == (SectionView {
                filepath: filepath@,
                vram,
                size,
                section_type: section_type@,
                vrom,
                align,
                is_fill: false,
                symbols: Seq::empty(),
            }),
    {
        Self::new_impl(filepath, vram, size, section_type, vrom, align, false)
    }

    /// A section without symbols.
    pub fn new_impl(
        filepath: String,
        vram: u64,
        size: u64,
        section_type: &str,
        vrom: Option<u64>,
        align: Option<u64>,
        is_fill: bool,
    ) -> (r: Self)
        ensures
            r@ == (SectionView {
                filepath: filepath@,
                vram,
                size,
                section_type: section_type@,
                vrom,
                align,
                is_fill,
                symbols: Seq::empty(),
            }),
            r.symbols@.len() == 0,
    {
        let r = Section {
            filepath,
            vram,
            size,
            section_type: section_type.to_owned(),
            vrom,
            align,
            is_fill,
            symbols: Vec::new(),
        };
        assert(r@.symbols =~= Seq::empty());
        r
    }

    /// A section of which only the place and the type are known.
    pub fn new_default(filepath: String, vram: u64, size: u64, section_type: &str) -> (r: Self)
        ensures
            r@ == (SectionView {
                filepath: filepath@,
                vram,
                size,
                section_type: section_type@,
                vrom: None,
                align: None,
                is_fill: false,
                symbols: Seq::empty(),
            }),
            r.symbols@.len() == 0,
    {
        Self::new_impl(filepath, vram, size, section_type, None, None, false)
    }

    /// The empty stand-in that a scan starts from.
    pub fn new_placeholder() -> (r: Self)
        ensures
            r@ == SectionView::placeholder(),
            r@.is_placeholder(),
            r.symbols@.len() == 0,
    {
        let r = Self::new_impl(String::new(), 0, 0, "", None, None, false);
        proof {
            reveal_strlit("");
            assert(r@.section_type =~= Seq::empty());
        }
        r
    }

    /// A stand-in for padding that the linker put in.
    pub fn new_fill(filepath: String, vram: u64, size: u64, section_type: &str) -> (r: Self)
        ensures
            r@ == (SectionView {
                filepath: filepath@,
                vram,
                size,
                section_type: section_type@,
                vrom: None,
                align: None,
                is_fill: true,
                symbols: Seq::empty(),
            }),
            r.symbols@.len() == 0,
    {
        Self::new_impl(filepath, vram, size, section_type, None, None, true)
    }

    /// The same section without its symbols.
    pub fn clone_no_symbollist(&self) -> (r: Self)
        ensures
            r@ == (SectionView { symbols: Seq::empty(), ..self@ }),
            r.symbols@.len() == 0,
    {
        Self::new_impl(
            self.filepath.clone(),
            self.vram,
            self.size,
            self.section_type.as_str(),
            self.vrom,
            self.align,
            self.is_fill,
        )
    }

    /// Whether the section takes up address space but no bytes of the image.
    pub fn is_noload_section(&self) -> (r: bool)
        ensures
            r == self@.is_noload(),
    {
        is_noload_section(self.section_type.as_str())
    }

    /// Whether the section is the empty stand-in that a scan starts from.
    pub fn is_placeholder(&self) -> (r: bool)
        ensures
            r == self@.is_placeholder(),
    {
        self.filepath.as_str().is_empty() && self.vram == 0 && self.size == 0
            && self.section_type.as_str().is_empty() && self.vrom.is_none()
            && self.align.is_none() && self.symbols.len() == 0
    }

    /// The position of the first symbol named `name`.
    pub open spec fn index_of_name(&self, name: Seq<char>) -> Option<int> {
        first_index(self.symbols@, symbol_named(name))
    }

    /// The first symbol named `sym_name`, with its position.
    pub fn find_symbol_and_index_by_name(&self, sym_name: &str) -> (r: Option<(&Symbol, usize)>)
        ensures
            match r {
                Some((sym, index)) => self.index_of_name(sym_name@) == Some(index as int) && *sym
                    == self.symbols@[index as int],
                None => self.index_of_name(sym_name@) is None,
            },
    {
        let wanted = sym_name.to_owned();
        let mut i: usize = 0;
        while i < self.symbols.len()
            invariant
                i <= self.symbols.len(),
                wanted@ == sym_name@,
                forall|j: int| 0 <= j < i ==> !symbol_named(sym_name@)(#[trigger] self.symbols@[j]),
            decreases self.symbols.len() - i,
        {
            if self.symbols[i].name == wanted {
                proof {
                    lemma_first_index_is(self.symbols@, symbol_named(sym_name@), i as int);
                }
                return Some((&self.symbols[i], i));
            }
            i += 1;
        }
        proof {
            lemma_first_index_none(self.symbols@, symbol_named(sym_name@));
        }
        None
    }

    /// The first symbol named `sym_name`.
    pub fn find_symbol_by_name(&self, sym_name: &str) -> (r: Option<&Symbol>)
        ensures
            match r {
                Some(sym) => self.index_of_name(sym_name@) is Some && *sym
                    == self.symbols@[self.index_of_name(sym_name@)->0],
                None => self.index_of_name(sym_name@) is None,
            },
    {
        match self.find_symbol_and_index_by_name(sym_name) {
            Some((sym, _)) => Some(sym),
            None => None,
        }
    }

    /// The first symbol named `sym_name`, to be changed in place.
    pub fn find_symbol_by_name_mut(&mut self, sym_name: &str) -> (r: Option<&mut Symbol>)
        ensures
            match r {
                Some(sym) => {
                    let k = old(self).index_of_name(sym_name@)->0;
                    &&& old(self).index_of_name(sym_name@) is Some
                    &&& *sym == old(self).symbols@[k]
                    &&& final(self).symbols@ == old(self).symbols@.update(k, *final(sym))
                    &&& final(self).filepath == old(self).filepath
                    &&& final(self).vram == old(self).vram
                    &&& final(self).size == old(self).size
                    &&& final(self).section_type == old(self).section_type
                    &&& final(self).vrom == old(self).vrom
                    &&& final(self).align == old(self).align
                    &&& final(self).is_fill == old(self).is_fill
                },
                None => old(self).index_of_name(sym_name@) is None && *final(self) == *old(self),
            },
    {
        let found = match self.find_symbol_and_index_by_name(sym_name) {
            Some((_, index)) => Some(index),
            None => None,
        };
        match found {
            Some(index) => {
                proof {
                    crate::search::lemma_first_index(self.symbols@, symbol_named(sym_name@));
                }
                Some(&mut self.symbols[index])
            },
            None => None,
        }
    }

    /// The symbol that holds the virtual address `address`, with the offset
    /// into it: the first symbol that starts there, else the last one that
    /// covers it.
    pub fn find_symbol_by_vram(&self, address: u64) -> (r: Option<(&Symbol, i64)>)
        ensures
            match (r, locate_vram(self.symbols@, address)) {
                (Some((sym, offset)), Some((k, at))) => *sym == self.symbols@[k] && offset == at,
                (None, None) => true,
                _ => false,
            },
    {
        let mut covering: Option<usize> = None;
        let mut i: usize = 0;
        while i < self.symbols.len()
            invariant
                i <= self.symbols.len(),
                forall|j: int|
                    0 <= j < i ==> !symbol_at_vram(address)(#[trigger] self.symbols@[j]),
                match covering {
                    Some(k) => k < i && symbol_covers_vram(address)(self.symbols@[k as int])
                        && forall|j: int|
                        k < j < i ==> !symbol_covers_vram(address)(#[trigger] self.symbols@[j]),
                    None => forall|j: int|
                        0 <= j < i ==> !symbol_covers_vram(address)(#[trigger] self.symbols@[j]),
                },
            decreases self.symbols.len() - i,
        {
            let sym = &self.symbols[i];
            if sym.vram == address {
                proof {
                    lemma_first_index_is(self.symbols@, symbol_at_vram(address), i as int);
                }
                return Some((sym, 0));
            }
            if sym.vram < address && address - sym.vram < sym.size && address - sym.vram
                <= 0x7FFF_FFFF_FFFF_FFFF {
                covering = Some(i);
            }
            i += 1;
        }
        proof {
            lemma_first_index_none(self.symbols@, symbol_at_vram(address));
        }
        match covering {
            Some(k) => {
                proof {
                    lemma_last_index_is(self.symbols@, symbol_covers_vram(address), k as int);
                }
                let sym = &self.symbols[k];
                Some((sym, (address - sym.vram) as i64))
            },
            None => {
                proof {
                    lemma_last_index_none(self.symbols@, symbol_covers_vram(address));
                }
                None
            },
        }
    }

    /// The symbol that holds the image offset `address`, with the offset into
    /// it: the first symbol that starts there, else the last one that covers
    /// it. Symbols without an image offset are passed over.
    pub fn find_symbol_by_vrom(&self, address: u64) -> (r: Option<(&Symbol, i64)>)
        ensures
            match (r, locate_vrom(self.symbols@, address)) {
                (Some((sym, offset)), Some((k, at))) => *sym == self.symbols@[k] && offset == at,
                (None, None) => true,
                _ => false,
            },
    {
        let mut covering: Option<usize> = None;
        let mut i: usize = 0;
        while i < self.symbols.len()
            invariant
                i <= self.symbols.len(),
                forall|j: int|
                    0 <= j < i ==> !symbol_at_vrom(address)(#[trigger] self.symbols@[j]),
                match covering {
                    Some(k) => k < i && symbol_covers_vrom(address)(self.symbols@[k as int])
                        && forall|j: int|
                        k < j < i ==> !symbol_covers_vrom(address)(#[trigger] self.symbols@[j]),
                    None => forall|j: int|
                        0 <= j < i ==> !symbol_covers_vrom(address)(#[trigger] self.symbols@[j]),
                },
            decreases self.symbols.len() - i,
        {
            let sym = &self.symbols[i];
            if let Some(vrom) = sym.vrom {
                if vrom == address {
                    proof {
                        lemma_first_index_is(self.symbols@, symbol_at_vrom(address), i as int);
                    }
                    return Some((sym, 0));
                }
                if vrom < address && address - vrom < sym.size && address - vrom
                    <= 0x7FFF_FFFF_FFFF_FFFF {
                    covering = Some(i);
                }
            }
            i += 1;
        }
        proof {
            lemma_first_index_none(self.symbols@, symbol_at_vrom(address));
        }
        match covering {
            Some(k) => {
                proof {
                    lemma_last_index_is(self.symbols@, symbol_covers_vrom(address), k as int);
                }
                let sym = &self.symbols[k];
                match sym.vrom {
                    Some(vrom) => Some((sym, (address - vrom) as i64)),
                    None => None,
                }
            },
            None => {
                proof {
                    lemma_last_index_none(self.symbols@, symbol_covers_vrom(address));
                }
                None
            },
        }
    }

    /// Pairing placeholders with their symbols is part of reading a map, so
    /// this leaves the section as it is.
    pub fn fixup_non_matching_symbols(&mut self)
        ensures
            *final(self) == *old(self),
    {
    }

    /// The headings of the columns of a section's row in a table, with the
    /// address column where `print_vram` is set.
    pub fn to_csv_header(print_vram: bool) -> (r: String)
        ensures
            r@ == if print_vram {
                "VRAM,"@ + "File,Section type,Num symbols,Max size,Total size,Average size"@
            } else {
                "File,Section type,Num symbols,Max size,Total size,Average size"@
            },
    {
        let mut ret = String::new();
        if print_vram {
            ret.append("VRAM,");
        }
        ret.append("File,Section type,Num symbols,Max size,Total size,Average size");
        assert(Seq::<char>::empty() + "VRAM,"@ =~= "VRAM,"@);
        assert(Seq::<char>::empty()
            + "File,Section type,Num symbols,Max size,Total size,Average size"@
            =~= "File,Section type,Num symbols,Max size,Total size,Average size"@);
        ret
    }
}

/// Copies a list of sections.
pub fn clone_sections(sections: &Vec<Section>) -> (r: Vec<Section>)
    ensures
        sections_view(r@) == sections_view(sections@),
{
    let mut out: Vec<Section> = Vec::new();
    let mut i: usize = 0;
    while i < sections.len()
        invariant
            i <= sections.len(),
            out.len() == i,
            forall|j: int| 0 <= j < i ==> out@[j]@ == sections@[j]@,
        decreases sections.len() - i,
    {
        out.push(sections[i].clone());
        i += 1;
    }
    assert(sections_view(out@) =~= sections_view(sections@));
    out
}

} // verus!
