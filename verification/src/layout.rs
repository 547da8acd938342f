//! Working out symbol sizes and image offsets from the addresses that a map
//! lists.
//!
//! A map gives each symbol's address but, in most dialects, not its size. A
//! symbol reaches to the next symbol of its section, and the last one to the
//! end of the section. Where the first listed symbol stands past the start
//! of the section, the bytes before it belong to a symbol that the map left
//! out, and count as a leading gap.
//!
//! Sums and differences saturate: a map whose addresses run backwards or past
//! 64 bits yields sizes of zero or offsets of `u64::MAX`, never a wrapped
//! number.

use vstd::prelude::*;
use crate::section::{Section, SectionView};
use crate::symbol::{symbols_view, SymbolView};

verus! {

/// The bytes between the start of a section and its first listed symbol.
pub open spec fn leading_gap(section: SectionView) -> u64 {
    if section.symbols.len() > 0 {
        section.symbols[0].vram.saturating_sub(section.vram)
    } else {
        0
    }
}

/// The distance from the symbol at `i` to the next one.
pub open spec fn stride(symbols: Seq<SymbolView>, i: int) -> u64 {
    symbols[i + 1].vram.saturating_sub(symbols[i].vram)
}

/// `start` moved on by the distances between the symbols before `i`.
pub open spec fn advance(symbols: Seq<SymbolView>, start: u64, i: int) -> u64
    decreases i,
{
    if i <= 0 {
        start
    } else {
        advance(symbols, start, i - 1).saturating_add(stride(symbols, i - 1))
    }
}

/// The symbols' addresses never decrease along the list.
pub open spec fn addresses_ascend(symbols: Seq<SymbolView>) -> bool {
    forall|i: int, j: int| 0 <= i <= j < symbols.len() ==> symbols[i].vram <= symbols[j].vram
}

/// The sum of the sizes of the first `k` symbols.
pub open spec fn total_size(symbols: Seq<SymbolView>, k: int) -> int
    decreases k,
{
    if k <= 0 {
        0
    } else {
        total_size(symbols, k - 1) + symbols[k - 1].size
    }
}

/// Lists that agree in every size add up to the same.
pub proof fn lemma_same_sizes_same_total(a: Seq<SymbolView>, b: Seq<SymbolView>, k: int)
    requires
        a.len() == b.len(),
        forall|i: int| 0 <= i < a.len() ==> a[i].size == b[i].size,
        0 <= k <= a.len(),
    ensures
        total_size(a, k) == total_size(b, k),
    decreases k,
{
    if k > 0 {
        lemma_same_sizes_same_total(a, b, k - 1);
    }
}

/// Lists that agree in every size but those at `x` and `y`, and in the sum
/// of these two, add up to the same.
pub proof fn lemma_moved_size_same_total(
    a: Seq<SymbolView>,
    b: Seq<SymbolView>,
    x: int,
    y: int,
    k: int,
)
    requires
        a.len() == b.len(),
        0 <= x < a.len(),
        0 <= y < a.len(),
        x != y,
        forall|i: int| 0 <= i < a.len() && i != x && i != y ==> a[i].size == b[i].size,
        a[x].size + a[y].size == b[x].size + b[y].size,
        0 <= k <= a.len(),
    ensures
        total_size(a, k) - total_size(b, k) == (if x < k {
            a[x].size - b[x].size
        } else {
            0
        }) + (if y < k {
            a[y].size - b[y].size
        } else {
            0
        }),
    decreases k,
{
    if k > 0 {
        lemma_moved_size_same_total(a, b, x, y, k - 1);
    }
}

/// The symbol at `i` of a section whose sizes are all worked out from the
/// addresses. Where the section is loaded, the symbol also gets its image
/// offset: the section's offset `base`, moved on by the leading gap and by
/// the symbols before it.
pub open spec fn measured_symbol(section: SectionView, base: u64, i: int) -> SymbolView {
    let symbols = section.symbols;
    let gap = leading_gap(section);
    SymbolView {
        size: if i < symbols.len() - 1 {
            stride(symbols, i)
        } else {
            section.size.saturating_sub(advance(symbols, gap, symbols.len() - 1))
        },
        vrom: if section.is_noload() {
            symbols[i].vrom
        } else {
            Some(advance(symbols, base.saturating_add(gap), i))
        },
        ..symbols[i]
    }
}

/// The symbols of a section with every size worked out from the addresses.
pub open spec fn measured_symbols(section: SectionView, base: u64) -> Seq<SymbolView> {
    Seq::new(section.symbols.len(), |i: int| measured_symbol(section, base, i))
}

/// The symbol at `i` of a section in which only the sizes that the map left
/// at zero are worked out from the addresses: a symbol reaches to the next
/// one, and the last one to the end of the section, less the leading gap and
/// the way from the first symbol to the last.
pub open spec fn completed_symbol(section: SectionView, i: int) -> SymbolView {
    let symbols = section.symbols;
    SymbolView {
        size: if symbols[i].size != 0 {
            symbols[i].size
        } else if i < symbols.len() - 1 {
            stride(symbols, i)
        } else {
            section.size.saturating_sub(
                advance(symbols, leading_gap(section), symbols.len() - 1),
            )
        },
        ..symbols[i]
    }
}

/// The symbols of a section with the missing sizes worked out.
pub open spec fn completed_symbols(section: SectionView) -> Seq<SymbolView> {
    Seq::new(section.symbols.len(), |i: int| completed_symbol(section, i))
}

/// Of two symbols at one address, at most one has a size.
pub open spec fn one_size_per_address(symbols: Seq<SymbolView>) -> bool {
    forall|i: int, j: int|
        0 <= i < symbols.len() && 0 <= j < symbols.len() && i != j && symbols[i].vram
            == symbols[j].vram ==> (#[trigger] symbols[i]).size == 0 || (
        #[trigger] symbols[j]).size == 0
}

/// The map gave no symbol a size.
pub open spec fn sizes_left_out(symbols: Seq<SymbolView>) -> bool {
    forall|i: int| 0 <= i < symbols.len() ==> (#[trigger] symbols[i]).size == 0
}

/// Along ascending addresses, moving on by the distances between the symbols
/// before `i` covers exactly the way from the first symbol to the one at `i`.
pub proof fn lemma_advance_ascending(symbols: Seq<SymbolView>, start: u64, i: int)
    requires
        addresses_ascend(symbols),
        0 <= i < symbols.len(),
        start + (symbols[i].vram - symbols[0].vram) <= u64::MAX,
    ensures
        advance(symbols, start, i) == start + (symbols[i].vram - symbols[0].vram),
    decreases i,
{
    if i > 0 {
        lemma_advance_ascending(symbols, start, i - 1);
    }
}

/// The sizes of a measured section add up to what the strides and the last
/// size say.
proof fn lemma_measured_total(section: SectionView, base: u64, k: int)
    requires
        addresses_ascend(section.symbols),
        0 <= k < section.symbols.len(),
    ensures
        total_size(measured_symbols(section, base), k) == section.symbols[k].vram
            - section.symbols[0].vram,
    decreases k,
{
    if k > 0 {
        lemma_measured_total(section, base, k - 1);
    }
}

/// In a section whose symbols stand in ascending order inside the section's
/// range, the worked-out sizes and the leading gap add up to the section's
/// size.
pub proof fn lemma_measured_sizes_fill_section(section: SectionView, base: u64)
    requires
        section.symbols.len() > 0,
        addresses_ascend(section.symbols),
        section.vram <= section.symbols[0].vram,
        section.symbols.last().vram - section.vram <= section.size,
    ensures
        section.size == total_size(
            measured_symbols(section, base),
            section.symbols.len() as int,
        ) + leading_gap(section),
{
    let n = section.symbols.len() as int;
    let gap = leading_gap(section);
    lemma_measured_total(section, base, n - 1);
    lemma_advance_ascending(section.symbols, gap, n - 1);
}

/// Sizes worked out from ascending addresses leave at most one symbol at
/// each address with a size: the last that the map lists there.
pub proof fn lemma_measured_one_size(section: SectionView, base: u64)
    requires
        addresses_ascend(section.symbols),
    ensures
        one_size_per_address(measured_symbols(section, base)),
{
    let symbols = section.symbols;
    let measured = measured_symbols(section, base);
    assert forall|i: int, j: int|
        0 <= i < measured.len() && 0 <= j < measured.len() && i != j && measured[i].vram
            == measured[j].vram implies (#[trigger] measured[i]).size == 0 || (
    #[trigger] measured[j]).size == 0 by {
        let low = if i < j {
            i
        } else {
            j
        };
        assert(symbols[low].vram <= symbols[low + 1].vram);
        assert(symbols[low + 1].vram <= symbols[i + j - low].vram);
        assert(measured[low].size == stride(symbols, low));
    }
}

/// The same where only the sizes that the map left out are worked out, and
/// it left them all out.
pub proof fn lemma_completed_one_size(section: SectionView)
    requires
        addresses_ascend(section.symbols),
        sizes_left_out(section.symbols),
    ensures
        one_size_per_address(completed_symbols(section)),
{
    let symbols = section.symbols;
    let completed = completed_symbols(section);
    assert forall|i: int, j: int|
        0 <= i < completed.len() && 0 <= j < completed.len() && i != j && completed[i].vram
            == completed[j].vram implies (#[trigger] completed[i]).size == 0 || (
    #[trigger] completed[j]).size == 0 by {
        let low = if i < j {
            i
        } else {
            j
        };
        assert(symbols[low].vram <= symbols[low + 1].vram);
        assert(symbols[low + 1].vram <= symbols[i + j - low].vram);
        assert(symbols[low].size == 0);
        assert(completed[low].size == stride(symbols, low));
    }
}

proof fn lemma_completed_total(section: SectionView, k: int)
    requires
        addresses_ascend(section.symbols),
        sizes_left_out(section.symbols),
        0 <= k < section.symbols.len(),
    ensures
        total_size(completed_symbols(section), k) == section.symbols[k].vram
            - section.symbols[0].vram,
    decreases k,
{
    if k > 0 {
        lemma_completed_total(section, k - 1);
        assert(section.symbols[k - 1].size == 0);
    }
}

/// In a section whose symbols stand in ascending order inside the section's
/// range, and to none of which the map gave a size, the worked-out sizes and
/// the leading gap add up to the section's size.
pub proof fn lemma_completed_sizes_fill_section(section: SectionView)
    requires
        section.symbols.len() > 0,
        addresses_ascend(section.symbols),
        sizes_left_out(section.symbols),
        section.vram <= section.symbols[0].vram,
        section.symbols.last().vram - section.vram <= section.size,
    ensures
        section.size == total_size(completed_symbols(section), section.symbols.len() as int)
            + leading_gap(section),
{
    let n = section.symbols.len() as int;
    lemma_completed_total(section, n - 1);
    lemma_advance_ascending(section.symbols, leading_gap(section), n - 1);
    assert(section.symbols[n - 1].size == 0);
}

/// Every symbol of the section has an image offset, unless the section is
/// not loaded.
pub open spec fn loaded_symbols_have_vrom(section: SectionView) -> bool {
    section.is_noload() || forall|i: int|
        0 <= i < section.symbols.len() ==> (#[trigger] section.symbols[i]).vrom is Some
}

/// The section's symbols stand in ascending order of address.
pub open spec fn ascending() -> spec_fn(SectionView) -> bool {
    |section: SectionView| addresses_ascend(section.symbols)
}

/// Every symbol of the section has an image offset, unless the section is
/// not loaded.
pub open spec fn with_vroms() -> spec_fn(SectionView) -> bool {
    |section: SectionView| loaded_symbols_have_vrom(section)
}

/// Works out the size of every symbol of a section from the addresses, and,
/// where the section is loaded, every symbol's image offset from `base`.
pub fn measure_symbols(section: &mut Section, base: u64)
    ensures
        final(section)@ == (SectionView {
            symbols: measured_symbols(old(section)@, base),
            ..old(section)@
        }),
{
    let n: usize = section.symbols.len();
    let ghost before = section@;
    if n == 0 {
        assert(symbols_view(section.symbols@) =~= measured_symbols(before, base));
        return ;
    }
    let is_noload = section.is_noload_section();
    let gap: u64 = section.symbols[0].vram.saturating_sub(section.vram);
    let mut accumulated: u64 = gap;
    let mut sym_vrom: u64 = base.saturating_add(gap);
    let mut i: usize = 0;
    while i < n - 1
        invariant
            n == section.symbols.len(),
            n > 0,
            before == old(section)@,
            before.symbols.len() == n,
            i <= n - 1,
            is_noload == before.is_noload(),
            gap == leading_gap(before),
            accumulated == advance(before.symbols, gap, i as int),
            sym_vrom == advance(before.symbols, base.saturating_add(gap), i as int) || is_noload,
            section.filepath == old(section).filepath,
            section.vram == old(section).vram,
            section.size == old(section).size,
            section.section_type == old(section).section_type,
            section.vrom == old(section).vrom,
            section.align == old(section).align,
            section.is_fill == old(section).is_fill,
            forall|j: int| 0 <= j < i ==> section.symbols@[j]@ == measured_symbol(before, base, j),
            forall|j: int| i <= j < n ==> section.symbols@[j]@ == before.symbols[j],
        decreases n - 1 - i,
    {
        let next_vram: u64 = section.symbols[i + 1].vram;
        let size: u64 = next_vram.saturating_sub(section.symbols[i].vram);
        accumulated = accumulated.saturating_add(size);
        section.symbols[i].size = size;
        if !is_noload {
            section.symbols[i].vrom = Some(sym_vrom);
            sym_vrom = sym_vrom.saturating_add(size);
        }
        i += 1;
    }
    let last_size: u64 = section.size.saturating_sub(accumulated);
    section.symbols[n - 1].size = last_size;
    if !is_noload {
        section.symbols[n - 1].vrom = Some(sym_vrom);
    }
    assert(symbols_view(section.symbols@) =~= measured_symbols(before, base));
}

/// Works out, from the addresses, the sizes that the map left at zero.
pub fn complete_symbols(section: &mut Section)
    ensures
        final(section)@ == (SectionView {
            symbols: completed_symbols(old(section)@),
            ..old(section)@
        }),
{
    let n: usize = section.symbols.len();
    let ghost before = section@;
    if n == 0 {
        assert(symbols_view(section.symbols@) =~= completed_symbols(before));
        return ;
    }
    let gap: u64 = section.symbols[0].vram.saturating_sub(section.vram);
    let mut accumulated: u64 = gap;
    let mut i: usize = 0;
    while i < n - 1
        invariant
            n == section.symbols.len(),
            n > 0,
            before == old(section)@,
            before.symbols.len() == n,
            i <= n - 1,
            gap == leading_gap(before),
            accumulated == advance(before.symbols, gap, i as int),
            section.filepath == old(section).filepath,
            section.vram == old(section).vram,
            section.size == old(section).size,
            section.section_type == old(section).section_type,
            section.vrom == old(section).vrom,
            section.align == old(section).align,
            section.is_fill == old(section).is_fill,
            forall|j: int| 0 <= j < i ==> section.symbols@[j]@ == completed_symbol(before, j),
            forall|j: int| i <= j < n ==> section.symbols@[j]@ == before.symbols[j],
        decreases n - 1 - i,
    {
        let next_vram: u64 = section.symbols[i + 1].vram;
        let size: u64 = next_vram.saturating_sub(section.symbols[i].vram);
        accumulated = accumulated.saturating_add(size);
        if section.symbols[i].size == 0 {
            section.symbols[i].size = size;
        }
        i += 1;
    }
    if section.symbols[n - 1].size == 0 {
        let last_size: u64 = section.size.saturating_sub(accumulated);
        section.symbols[n - 1].size = last_size;
    }
    assert(symbols_view(section.symbols@) =~= completed_symbols(before));
}

} // verus!
