//! Which symbols of a section are decompiled.
//!
//! A symbol counts as not decompiled where its whole object file is still
//! built from assembly, where a `.NON_MATCHING` placeholder stands beside
//! it, or where its function has an assembly file of its own. Placeholders
//! themselves are passed over.

use vstd::prelude::*;
use crate::fixup::{is_placeholder_name, pair_placeholders, sibling_of};
use crate::section::Section;
use crate::symbol::{Symbol, SymbolView};
use crate::text::{ends_with, texts_of};

verus! {

/// A symbol with the state of its decompilation.
#[derive(Debug, Clone, Copy)]
pub enum SymbolDecompState<'sect> {
    Decomped(&'sect Symbol),
    Undecomped(&'sect Symbol),
}

/// Walks the symbols of a section and tells the state of each.
#[derive(Debug)]
pub struct SymbolDecompStateIter<'sect> {
    section: &'sect Section,
    whole_file_is_undecomped: bool,
    undecomped_functions: Vec<String>,
    index: usize,
}

/// The symbol counts as not decompiled.
pub open spec fn is_undecomped(symbol: Symbol, whole_file: bool, functions: Seq<Seq<char>>)
    -> bool {
    whole_file || symbol.nonmatching_sym_exists || functions.contains(symbol.name@)
}

/// The state of a symbol.
pub open spec fn state_of<'a>(symbol: &'a Symbol, whole_file: bool, functions: Seq<Seq<char>>)
    -> SymbolDecompState<'a> {
    if is_undecomped(*symbol, whole_file, functions) {
        SymbolDecompState::Undecomped(symbol)
    } else {
        SymbolDecompState::Decomped(symbol)
    }
}

/// The states of the symbols from position `from` on, placeholders left
/// out.
pub open spec fn states_from<'a>(
    section: &'a Section,
    whole_file: bool,
    functions: Seq<Seq<char>>,
    from: int,
) -> Seq<SymbolDecompState<'a>>
    decreases section.symbols@.len() - from,
{
    if from < 0 || from >= section.symbols@.len() {
        Seq::empty()
    } else if is_placeholder_name(section.symbols@[from].name@) {
        states_from(section, whole_file, functions, from + 1)
    } else {
        seq![state_of(&section.symbols@[from], whole_file, functions)] + states_from(
            section,
            whole_file,
            functions,
            from + 1,
        )
    }
}

/// The states of the symbols of a section, placeholders left out.
pub open spec fn states_of<'a>(section: &'a Section, whole_file: bool, functions: Seq<Seq<char>>)
    -> Seq<SymbolDecompState<'a>> {
    states_from(section, whole_file, functions, 0)
}

impl<'sect> SymbolDecompState<'sect> {
    /// The symbol that the state is of.
    pub open spec fn symbol(self) -> Symbol {
        match self {
            SymbolDecompState::Decomped(symbol) => *symbol,
            SymbolDecompState::Undecomped(symbol) => *symbol,
        }
    }
}

/// No placeholder is among the states.
pub proof fn lemma_states_leave_placeholders_out(
    section: &Section,
    whole_file: bool,
    functions: Seq<Seq<char>>,
    from: int,
    n: int,
)
    requires
        0 <= n < states_from(section, whole_file, functions, from).len(),
    ensures
        !is_placeholder_name(states_from(section, whole_file, functions, from)[n].symbol().name@),
    decreases section.symbols@.len() - from,
{
    if from < 0 || from >= section.symbols@.len() {
    } else if is_placeholder_name(section.symbols@[from].name@) {
        lemma_states_leave_placeholders_out(section, whole_file, functions, from + 1, n);
    } else if n > 0 {
        lemma_states_leave_placeholders_out(section, whole_file, functions, from + 1, n - 1);
    }
}

/// Every symbol that is no placeholder is among the states, with its state.
pub proof fn lemma_states_hold_symbols(
    section: &Section,
    whole_file: bool,
    functions: Seq<Seq<char>>,
    from: int,
    k: int,
)
    requires
        0 <= from <= k < section.symbols@.len(),
        !is_placeholder_name(section.symbols@[k].name@),
    ensures
        states_from(section, whole_file, functions, from).contains(
            state_of(&section.symbols@[k], whole_file, functions),
        ),
    decreases k - from,
{
    let states = states_from(section, whole_file, functions, from);
    let wanted = state_of(&section.symbols@[k], whole_file, functions);
    if from == k {
        assert(states[0] == wanted);
    } else {
        lemma_states_hold_symbols(section, whole_file, functions, from + 1, k);
        let rest = states_from(section, whole_file, functions, from + 1);
        let at = choose|n: int| 0 <= n < rest.len() && rest[n] == wanted;
        if is_placeholder_name(section.symbols@[from].name@) {
            assert(states[at] == wanted);
        } else {
            assert(states[at + 1] == wanted);
        }
    }
}

/// In a section whose placeholders have been paired, a placeholder that
/// stands for a symbol of the section shows in no state, and is empty where
/// no other placeholder stands for it. The symbol, unless it is a
/// placeholder itself, shows as not decompiled with a size that is at least
/// the placeholder's.
pub proof fn lemma_pair_shows_once(
    raw: Seq<SymbolView>,
    section: &Section,
    whole_file: bool,
    functions: Seq<Seq<char>>,
    p: int,
)
    requires
        crate::symbol::symbols_view(section.symbols@) == pair_placeholders(raw),
        sibling_of(raw, p) is Some,
        !is_placeholder_name(raw[sibling_of(raw, p)->0].name),
    ensures
        0 <= p < section.symbols@.len(),
        0 <= sibling_of(raw, p)->0 < section.symbols@.len(),
        (forall|q: int| 0 <= q < raw.len() ==> sibling_of(raw, q) != Some(p))
            ==> section.symbols@[p].size == 0,
        forall|n: int|
            0 <= n < states_of(section, whole_file, functions).len() ==> (#[trigger] states_of(
                section,
                whole_file,
                functions,
            )[n]).symbol().name@ != section.symbols@[p].name@,
        section.symbols@[sibling_of(raw, p)->0].size >= raw[p].size,
        states_of(section, whole_file, functions).contains(
            SymbolDecompState::Undecomped(&section.symbols@[sibling_of(raw, p)->0]),
        ),
{
    let r = sibling_of(raw, p)->0;
    let paired = pair_placeholders(raw);
    crate::fixup::lemma_sibling_is_another(raw, p);
    assert(sibling_of(raw, r) is None);
    crate::fixup::lemma_pairing_moves_size(raw, p);
    crate::fixup::lemma_pairing_keeps_places(raw, raw.len() as int);
    assert(paired.len() == raw.len());
    assert(section.symbols@.len() == raw.len());
    assert(section.symbols@[p]@ == paired[p]);
    assert(section.symbols@[r]@ == paired[r]);
    assert(crate::fixup::paired_up_to(raw, raw.len() as int)[p].name == raw[p].name);
    assert(crate::fixup::paired_up_to(raw, raw.len() as int)[r].name == raw[r].name);
    lemma_states_hold_symbols(section, whole_file, functions, 0, r);
    assert forall|n: int| 0 <= n < states_of(section, whole_file, functions).len() implies (
    #[trigger] states_of(section, whole_file, functions)[n]).symbol().name@
        != section.symbols@[p].name@ by {
        lemma_states_leave_placeholders_out(section, whole_file, functions, 0, n);
    }
}

impl<'sect> SymbolDecompStateIter<'sect> {
    /// Starts at the first symbol of `section`. `undecomped_functions` holds
    /// the names of the symbols whose functions have an assembly file of
    /// their own.
    pub fn new(
        section: &'sect Section,
        whole_file_is_undecomped: bool,
        undecomped_functions: Vec<String>,
    ) -> (r: Self)
        ensures
            r.upcoming() == states_of(
                section,
                whole_file_is_undecomped,
                texts_of(undecomped_functions@),
            ),
            r.section() == section,
            r.whole_file_is_undecomped() == whole_file_is_undecomped,
            r.functions() == texts_of(undecomped_functions@),
    {
        Self { section, whole_file_is_undecomped, undecomped_functions, index: 0 }
    }

    /// The section that is walked.
    pub closed spec fn section(&self) -> &'sect Section {
        self.section
    }

    /// The whole object file counts as not decompiled.
    pub closed spec fn whole_file_is_undecomped(&self) -> bool {
        self.whole_file_is_undecomped
    }

    /// The names of the symbols whose functions have an assembly file of
    /// their own.
    pub closed spec fn functions(&self) -> Seq<Seq<char>> {
        texts_of(self.undecomped_functions@)
    }

    /// The states that are still to come.
    pub closed spec fn upcoming(&self) -> Seq<SymbolDecompState<'sect>> {
        states_from(
            self.section,
            self.whole_file_is_undecomped,
            texts_of(self.undecomped_functions@),
            self.index as int,
        )
    }

    fn names_symbol(&self, symbol: &Symbol) -> (r: bool)
        ensures
            r == self.functions().contains(symbol.name@),
    {
        let ghost names = texts_of(self.undecomped_functions@);
        let mut i: usize = 0;
        while i < self.undecomped_functions.len()
            invariant
                i <= self.undecomped_functions.len(),
                names == texts_of(self.undecomped_functions@),
                forall|j: int| 0 <= j < i ==> names[j] != symbol.name@,
            decreases self.undecomped_functions.len() - i,
        {
            if self.undecomped_functions[i] == symbol.name {
                assert(names[i as int] == symbol.name@);
                return true;
            }
            i += 1;
        }
        false
    }

    /// The state of the next symbol that is no placeholder, or `None` after
    /// the last one.
    pub fn next(&mut self) -> (r: Option<SymbolDecompState<'sect>>)
        ensures
            final(self).section() == old(self).section(),
            final(self).whole_file_is_undecomped() == old(self).whole_file_is_undecomped(),
            final(self).functions() == old(self).functions(),
            match r {
                Some(state) => old(self).upcoming().len() > 0 && state == old(self).upcoming()[0]
                    && final(self).upcoming() == old(self).upcoming().drop_first(),
                None => old(self).upcoming().len() == 0 && final(self).upcoming().len() == 0,
            },
    {
        let section: &'sect Section = self.section;
        while self.index < section.symbols.len() && ends_with(
            section.symbols[self.index].name.as_str(),
            ".NON_MATCHING",
        )
            invariant
                self.section == section,
                self.section == old(self).section,
                self.whole_file_is_undecomped == old(self).whole_file_is_undecomped,
                self.undecomped_functions == old(self).undecomped_functions,
                self.upcoming() == old(self).upcoming(),
            decreases section.symbols.len() - self.index,
        {
            self.index += 1;
        }
        if self.index >= section.symbols.len() {
            return None;
        }
        let sym: &'sect Symbol = &section.symbols[self.index];
        let ghost before = self.upcoming();
        let listed = self.names_symbol(sym);
        self.index += 1;
        proof {
            assert(before.drop_first() =~= self.upcoming());
        }
        if self.whole_file_is_undecomped || sym.nonmatching_sym_exists || listed {
            Some(SymbolDecompState::Undecomped(sym))
        } else {
            Some(SymbolDecompState::Decomped(sym))
        }
    }
}

} // verus!
