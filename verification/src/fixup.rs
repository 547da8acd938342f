//! Pairing `.NON_MATCHING` placeholders with the symbols they stand for.
//!
//! A placeholder carries the name of a symbol of the same section, followed
//! by `.NON_MATCHING`, and stands at that symbol's address. Which of the two
//! a map lists first is not fixed, so either may have been given the size.
//! Pairing takes the placeholders one after another, in the order of the
//! list: the symbol gets the larger of the two sizes and is marked, and the
//! placeholder is left empty.

use vstd::prelude::*;
use crate::search::{first_index, lemma_first_index, lemma_first_index_is, lemma_first_index_none};
use crate::section::Section;
use crate::symbol::{symbols_view, Symbol, SymbolView};
use crate::layout::{
    addresses_ascend, leading_gap, lemma_moved_size_same_total, lemma_same_sizes_same_total,
    one_size_per_address, total_size,
};
use crate::text::{ends_with, has_suffix};

verus! {

/// What ends the name of a placeholder.
pub open spec fn placeholder_suffix() -> Seq<char> {
    ".NON_MATCHING"@
}

/// The name is that of a placeholder.
pub open spec fn is_placeholder_name(name: Seq<char>) -> bool {
    has_suffix(name, placeholder_suffix())
}

/// The name of the symbol that a placeholder named `name` stands for.
pub open spec fn real_name(name: Seq<char>) -> Seq<char> {
    name.subrange(0, name.len() - placeholder_suffix().len())
}

/// The symbol value carries the name `name`.
pub open spec fn view_named(name: Seq<char>) -> spec_fn(SymbolView) -> bool {
    |sym: SymbolView| sym.name == name
}

/// The position of the symbol that the placeholder at `p` stands for: the
/// first symbol of the list with the placeholder's name less the suffix.
/// `None` where `p` holds no placeholder, or the list no such symbol.
pub open spec fn sibling_of(symbols: Seq<SymbolView>, p: int) -> Option<int> {
    if 0 <= p < symbols.len() && is_placeholder_name(symbols[p].name) {
        first_index(symbols, view_named(real_name(symbols[p].name)))
    } else {
        None
    }
}

/// The symbols after the placeholder at `p` has been paired: the symbol
/// it stands for has the larger of the two sizes and is marked, and the
/// placeholder is empty. Where `p` holds no placeholder of a symbol of the
/// list, nothing changes.
pub open spec fn pair_one(symbols: Seq<SymbolView>, p: int) -> Seq<SymbolView> {
    match sibling_of(symbols, p) {
        Some(r) => symbols.update(
            r,
            SymbolView {
                size: if symbols[p].size > symbols[r].size {
                    symbols[p].size
                } else {
                    symbols[r].size
                },
                nonmatching_sym_exists: true,
                ..symbols[r]
            },
        ).update(p, SymbolView { size: 0, ..symbols[p] }),
        None => symbols,
    }
}

/// The symbols after the placeholders before position `k` have been paired,
/// one after another.
pub open spec fn paired_up_to(symbols: Seq<SymbolView>, k: int) -> Seq<SymbolView>
    decreases k,
{
    if k <= 0 {
        symbols
    } else {
        pair_one(paired_up_to(symbols, k - 1), k - 1)
    }
}

/// The symbols of a section after pairing.
pub open spec fn pair_placeholders(symbols: Seq<SymbolView>) -> Seq<SymbolView> {
    paired_up_to(symbols, symbols.len() as int)
}

/// A placeholder and the symbol it stands for are two symbols of the list.
pub proof fn lemma_sibling_is_another(symbols: Seq<SymbolView>, p: int)
    requires
        sibling_of(symbols, p) is Some,
    ensures
        0 <= p < symbols.len(),
        0 <= sibling_of(symbols, p)->0 < symbols.len(),
        sibling_of(symbols, p)->0 != p,
        symbols[sibling_of(symbols, p)->0].name == real_name(symbols[p].name),
{
    lemma_first_index(symbols, view_named(real_name(symbols[p].name)));
    let r = sibling_of(symbols, p)->0;
    if r == p {
        reveal_strlit(".NON_MATCHING");
        assert(symbols[p].name.len() == real_name(symbols[p].name).len());
    }
}

/// Pairing one placeholder keeps the length of the list and every symbol's
/// name, address, image offset and alignment.
pub proof fn lemma_pair_one_keeps_places(symbols: Seq<SymbolView>, p: int)
    ensures
        pair_one(symbols, p).len() == symbols.len(),
        forall|i: int|
            0 <= i < symbols.len() ==> {
                let after = #[trigger] pair_one(symbols, p)[i];
                &&& after.name == symbols[i].name
                &&& after.vram == symbols[i].vram
                &&& after.vrom == symbols[i].vrom
                &&& after.align == symbols[i].align
            },
{
    if sibling_of(symbols, p) is Some {
        lemma_sibling_is_another(symbols, p);
    }
}

/// Pairing keeps the length of the list, the order of the symbols, and every
/// symbol's name, address, image offset and alignment.
pub proof fn lemma_pairing_keeps_places(symbols: Seq<SymbolView>, k: int)
    ensures
        paired_up_to(symbols, k).len() == symbols.len(),
        forall|i: int|
            0 <= i < symbols.len() ==> {
                let after = #[trigger] paired_up_to(symbols, k)[i];
                &&& after.name == symbols[i].name
                &&& after.vram == symbols[i].vram
                &&& after.vrom == symbols[i].vrom
                &&& after.align == symbols[i].align
            },
    decreases k,
{
    if k > 0 {
        lemma_pairing_keeps_places(symbols, k - 1);
        let before = paired_up_to(symbols, k - 1);
        lemma_pair_one_keeps_places(before, k - 1);
        assert forall|i: int| 0 <= i < symbols.len() implies {
            let after = #[trigger] paired_up_to(symbols, k)[i];
            &&& after.name == symbols[i].name
            &&& after.vram == symbols[i].vram
            &&& after.vrom == symbols[i].vrom
            &&& after.align == symbols[i].align
        } by {
            assert(pair_one(before, k - 1)[i].name == before[i].name);
        }
    }
}

/// Which symbol a placeholder stands for does not change while the
/// placeholders are paired.
pub proof fn lemma_siblings_stay(symbols: Seq<SymbolView>, k: int, p: int)
    ensures
        sibling_of(paired_up_to(symbols, k), p) == sibling_of(symbols, p),
{
    lemma_pairing_keeps_places(symbols, k);
    let stage = paired_up_to(symbols, k);
    assert forall|i: int| 0 <= i < stage.len() implies stage[i].name == symbols[i].name by {
        assert(paired_up_to(symbols, k)[i].name == symbols[i].name);
    }
    lemma_sibling_by_names(stage, symbols, p);
}

/// Until its own turn comes, and for good where it is no placeholder of a
/// symbol of the list, a symbol is never smaller than it was.
proof fn lemma_size_grows(symbols: Seq<SymbolView>, i: int, k: int)
    requires
        0 <= i < symbols.len(),
        sibling_of(symbols, i) is None || k <= i,
    ensures
        paired_up_to(symbols, k)[i].size >= symbols[i].size,
        symbols[i].nonmatching_sym_exists ==> paired_up_to(symbols, k)[i].nonmatching_sym_exists,
    decreases k,
{
    if k > 0 {
        lemma_size_grows(symbols, i, k - 1);
        let before = paired_up_to(symbols, k - 1);
        lemma_pairing_keeps_places(symbols, k - 1);
        lemma_siblings_stay(symbols, k - 1, k - 1);
        if sibling_of(before, k - 1) is Some {
            lemma_sibling_is_another(before, k - 1);
        }
    }
}

/// After its placeholder's turn, a symbol that is no placeholder of another
/// is marked and at least as large as the placeholder was.
proof fn lemma_sibling_holds_size(symbols: Seq<SymbolView>, p: int, k: int)
    requires
        sibling_of(symbols, p) is Some,
        sibling_of(symbols, sibling_of(symbols, p)->0) is None,
        p < k,
    ensures
        paired_up_to(symbols, k)[sibling_of(symbols, p)->0].size >= symbols[p].size,
        paired_up_to(symbols, k)[sibling_of(symbols, p)->0].nonmatching_sym_exists,
    decreases k,
{
    let r = sibling_of(symbols, p)->0;
    lemma_sibling_is_another(symbols, p);
    let before = paired_up_to(symbols, k - 1);
    lemma_pairing_keeps_places(symbols, k - 1);
    lemma_siblings_stay(symbols, k - 1, k - 1);
    if sibling_of(before, k - 1) is Some {
        lemma_sibling_is_another(before, k - 1);
    }
    if k - 1 == p {
        lemma_size_grows(symbols, p, p);
    } else {
        lemma_sibling_holds_size(symbols, p, k - 1);
    }
}

/// After its turn, a placeholder that no other placeholder stands for is
/// empty.
proof fn lemma_placeholder_stays_empty(symbols: Seq<SymbolView>, p: int, k: int)
    requires
        sibling_of(symbols, p) is Some,
        forall|q: int| 0 <= q < symbols.len() ==> sibling_of(symbols, q) != Some(p),
        p < k <= symbols.len(),
    ensures
        paired_up_to(symbols, k)[p].size == 0,
    decreases k,
{
    lemma_sibling_is_another(symbols, p);
    let before = paired_up_to(symbols, k - 1);
    lemma_pairing_keeps_places(symbols, k - 1);
    lemma_siblings_stay(symbols, k - 1, k - 1);
    if sibling_of(before, k - 1) is Some {
        lemma_sibling_is_another(before, k - 1);
    }
    if k - 1 != p {
        lemma_placeholder_stays_empty(symbols, p, k - 1);
    }
}

/// After pairing, the symbol that a placeholder stands for, where it is no
/// placeholder of another symbol itself, is marked and at least as large as
/// the placeholder was; and a placeholder that no other placeholder stands
/// for is empty.
pub proof fn lemma_pairing_moves_size(symbols: Seq<SymbolView>, p: int)
    requires
        sibling_of(symbols, p) is Some,
        sibling_of(symbols, sibling_of(symbols, p)->0) is None,
    ensures
        0 <= p < symbols.len(),
        0 <= sibling_of(symbols, p)->0 < symbols.len(),
        pair_placeholders(symbols)[sibling_of(symbols, p)->0].nonmatching_sym_exists,
        pair_placeholders(symbols)[sibling_of(symbols, p)->0].size >= symbols[p].size,
        (forall|q: int| 0 <= q < symbols.len() ==> sibling_of(symbols, q) != Some(p))
            ==> pair_placeholders(symbols)[p].size == 0,
{
    lemma_sibling_is_another(symbols, p);
    lemma_sibling_holds_size(symbols, p, symbols.len() as int);
    if forall|q: int| 0 <= q < symbols.len() ==> sibling_of(symbols, q) != Some(p) {
        lemma_placeholder_stays_empty(symbols, p, symbols.len() as int);
    }
}

/// Every placeholder stands at the address of the symbol it stands for.
pub open spec fn siblings_share_address(symbols: Seq<SymbolView>) -> bool {
    forall|p: int|
        0 <= p < symbols.len() && (#[trigger] sibling_of(symbols, p)) is Some ==> symbols[p].vram
            == symbols[sibling_of(symbols, p)->0].vram
}

proof fn lemma_pair_one_keeps_total(symbols: Seq<SymbolView>, p: int)
    requires
        one_size_per_address(symbols),
        siblings_share_address(symbols),
    ensures
        one_size_per_address(pair_one(symbols, p)),
        total_size(pair_one(symbols, p), symbols.len() as int) == total_size(
            symbols,
            symbols.len() as int,
        ),
{
    let after = pair_one(symbols, p);
    let n = symbols.len() as int;
    if sibling_of(symbols, p) is Some {
        let r = sibling_of(symbols, p)->0;
        lemma_sibling_is_another(symbols, p);
        assert(symbols[p].vram == symbols[r].vram);
        assert(symbols[p].size == 0 || symbols[r].size == 0);
        assert(after[p].size == 0);
        assert(after[r].size == symbols[p].size + symbols[r].size);
        lemma_moved_size_same_total(after, symbols, p, r, n);
        assert forall|i: int, j: int|
            0 <= i < n && 0 <= j < n && i != j && after[i].vram == after[j].vram implies (
        #[trigger] after[i]).size == 0 || (#[trigger] after[j]).size == 0 by {
            assert(after[i].vram == symbols[i].vram && after[j].vram == symbols[j].vram);
            if i != p && j != p {
                if i == r {
                    assert(symbols[j].size == 0 || (symbols[r].size == 0 && symbols[p].size
                        == 0)) by {
                        assert(symbols[j].size == 0 || symbols[r].size == 0);
                        assert(symbols[j].size == 0 || symbols[p].size == 0);
                    }
                    assert(after[j].size == symbols[j].size);
                } else if j == r {
                    assert(symbols[i].size == 0 || (symbols[r].size == 0 && symbols[p].size
                        == 0)) by {
                        assert(symbols[i].size == 0 || symbols[r].size == 0);
                        assert(symbols[i].size == 0 || symbols[p].size == 0);
                    }
                    assert(after[i].size == symbols[i].size);
                } else {
                    assert(after[i].size == symbols[i].size && after[j].size == symbols[j].size);
                    assert(symbols[i].size == 0 || symbols[j].size == 0);
                }
            }
        }
    } else {
        lemma_same_sizes_same_total(after, symbols, n);
    }
}

proof fn lemma_share_address_stays(symbols: Seq<SymbolView>, k: int)
    requires
        siblings_share_address(symbols),
    ensures
        siblings_share_address(paired_up_to(symbols, k)),
{
    let stage = paired_up_to(symbols, k);
    lemma_pairing_keeps_places(symbols, k);
    assert forall|p: int| 0 <= p < stage.len() && (#[trigger] sibling_of(stage, p)) is Some implies
        stage[p].vram == stage[sibling_of(stage, p)->0].vram by {
        lemma_siblings_stay(symbols, k, p);
        lemma_sibling_is_another(symbols, p);
        let r = sibling_of(symbols, p)->0;
        assert(paired_up_to(symbols, k)[p].vram == symbols[p].vram);
        assert(paired_up_to(symbols, k)[r].vram == symbols[r].vram);
    }
}

proof fn lemma_pairing_steps_keep_total(symbols: Seq<SymbolView>, k: int)
    requires
        one_size_per_address(symbols),
        siblings_share_address(symbols),
    ensures
        one_size_per_address(paired_up_to(symbols, k)),
        total_size(paired_up_to(symbols, k), symbols.len() as int) == total_size(
            symbols,
            symbols.len() as int,
        ),
    decreases k,
{
    if k > 0 {
        lemma_pairing_steps_keep_total(symbols, k - 1);
        lemma_share_address_stays(symbols, k - 1);
        lemma_pairing_keeps_places(symbols, k - 1);
        lemma_pair_one_keeps_total(paired_up_to(symbols, k - 1), k - 1);
    }
}

/// Where every placeholder stands at the address of its symbol, and of two
/// symbols at one address at most one has a size, pairing keeps the sum of
/// the sizes.
pub proof fn lemma_pairing_keeps_total(symbols: Seq<SymbolView>)
    requires
        one_size_per_address(symbols),
        siblings_share_address(symbols),
    ensures
        total_size(pair_placeholders(symbols), symbols.len() as int) == total_size(
            symbols,
            symbols.len() as int,
        ),
{
    lemma_pairing_steps_keep_total(symbols, symbols.len() as int);
}

/// Whether every placeholder stands at the address of its symbol depends on
/// the names and the addresses alone.
pub proof fn lemma_sharing_by_names_and_addresses(a: Seq<SymbolView>, b: Seq<SymbolView>)
    requires
        a.len() == b.len(),
        forall|i: int| 0 <= i < a.len() ==> a[i].name == b[i].name && a[i].vram == b[i].vram,
        siblings_share_address(a),
    ensures
        siblings_share_address(b),
{
    assert forall|p: int| 0 <= p < b.len() && (#[trigger] sibling_of(b, p)) is Some implies
        b[p].vram == b[sibling_of(b, p)->0].vram by {
        lemma_sibling_by_names(a, b, p);
        lemma_sibling_is_another(a, p);
        assert(sibling_of(a, p) is Some);
    }
}

/// Which symbol a placeholder stands for depends on the names alone.
pub proof fn lemma_sibling_by_names(a: Seq<SymbolView>, b: Seq<SymbolView>, p: int)
    requires
        a.len() == b.len(),
        forall|i: int| 0 <= i < a.len() ==> a[i].name == b[i].name,
    ensures
        sibling_of(a, p) == sibling_of(b, p),
{
    if 0 <= p < a.len() && is_placeholder_name(a[p].name) {
        let wanted = view_named(real_name(a[p].name));
        lemma_first_index(a, wanted);
        lemma_first_index(b, wanted);
        match first_index(a, wanted) {
            Some(k) => {
                assert(wanted(b[k]));
                assert forall|j: int| 0 <= j < k implies !wanted(b[j]) by {
                    assert(!wanted(a[j]));
                }
                lemma_first_index_is(b, wanted, k);
            },
            None => {
                assert forall|j: int| 0 <= j < b.len() implies !wanted(b[j]) by {
                    assert(!wanted(a[j]));
                }
                lemma_first_index_none(b, wanted);
            },
        }
    }
}

/// The symbols of the section stand in ascending order of address, inside
/// the section's range where there are any, and every placeholder stands at
/// the address of the symbol it stands for.
pub open spec fn well_listed() -> spec_fn(crate::section::SectionView) -> bool {
    |section: crate::section::SectionView|
        {
            &&& addresses_ascend(section.symbols)
            &&& siblings_share_address(section.symbols)
            &&& section.symbols.len() > 0 ==> section.vram <= section.symbols[0].vram
                && section.symbols.last().vram - section.vram <= section.size
        }
}

/// The sizes of the section's symbols and the leading gap add up to the
/// section's size, where the section has symbols.
pub open spec fn sizes_fill_section() -> spec_fn(crate::section::SectionView) -> bool {
    |section: crate::section::SectionView|
        section.symbols.len() > 0 ==> section.size == total_size(
            section.symbols,
            section.symbols.len() as int,
        ) + leading_gap(section)
}

/// The first symbol whose name is `name`, by value.
fn index_of_name(symbols: &Vec<Symbol>, name: &str) -> (r: Option<usize>)
    ensures
        match r {
            Some(k) => first_index(symbols_view(symbols@), view_named(name@)) == Some(k as int),
            None => first_index(symbols_view(symbols@), view_named(name@)) is None,
        },
{
    let wanted = name.to_owned();
    let mut i: usize = 0;
    while i < symbols.len()
        invariant
            i <= symbols.len(),
            wanted@ == name@,
            forall|j: int|
                0 <= j < i ==> !view_named(name@)(#[trigger] symbols_view(symbols@)[j]),
        decreases symbols.len() - i,
    {
        if symbols[i].name == wanted {
            proof {
                lemma_first_index_is(symbols_view(symbols@), view_named(name@), i as int);
            }
            return Some(i);
        }
        i += 1;
    }
    proof {
        lemma_first_index_none(symbols_view(symbols@), view_named(name@));
    }
    None
}

/// The position of the symbol that the placeholder at `p` stands for.
fn find_sibling(symbols: &Vec<Symbol>, p: usize) -> (r: Option<usize>)
    requires
        p < symbols.len(),
    ensures
        match r {
            Some(k) => sibling_of(symbols_view(symbols@), p as int) == Some(k as int)
                && k < symbols.len(),
            None => sibling_of(symbols_view(symbols@), p as int) is None,
        },
{
    let name = symbols[p].name.as_str();
    if !ends_with(name, ".NON_MATCHING") {
        return None;
    }
    proof {
        reveal_strlit(".NON_MATCHING");
    }
    let length: usize = name.unicode_len();
    let base = name.substring_char(0, length - 13);
    let found = index_of_name(symbols, base);
    proof {
        lemma_first_index(symbols_view(symbols@), view_named(base@));
    }
    found
}

/// Pairs the placeholders of a section with the symbols they stand for,
/// one after another in the order of the list.
pub fn pair_non_matching_symbols(section: &mut Section)
    ensures
        final(section)@ == (crate::section::SectionView {
            symbols: pair_placeholders(old(section)@.symbols),
            ..old(section)@
        }),
{
    let n: usize = section.symbols.len();
    let ghost before = symbols_view(section.symbols@);
    let mut p: usize = 0;
    while p < n
        invariant
            n == section.symbols.len(),
            before.len() == n,
            p <= n,
            section.filepath == old(section).filepath,
            section.vram == old(section).vram,
            section.size == old(section).size,
            section.section_type == old(section).section_type,
            section.vrom == old(section).vrom,
            section.align == old(section).align,
            section.is_fill == old(section).is_fill,
            before == old(section)@.symbols,
            symbols_view(section.symbols@) == paired_up_to(before, p as int),
        decreases n - p,
    {
        let ghost stage = symbols_view(section.symbols@);
        match find_sibling(&section.symbols, p) {
            Some(r) => {
                proof {
                    lemma_sibling_is_another(stage, p as int);
                }
                let placeholder_size = section.symbols[p].size;
                if placeholder_size > section.symbols[r].size {
                    section.symbols[r].size = placeholder_size;
                }
                section.symbols[r].nonmatching_sym_exists = true;
                section.symbols[p].size = 0;
                assert(symbols_view(section.symbols@) =~= pair_one(stage, p as int));
            },
            None => {},
        }
        p += 1;
    }
}

} // verus!
