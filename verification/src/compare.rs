//! Holding one map against another, symbol by symbol.

use vstd::prelude::*;
use crate::mapfile::{MapFile, Place};
use crate::maps_comparison_info::{
    compared_view, list_once, listed_once, Comparison, MapsComparisonInfo,
};
use crate::section::Section;
use crate::segment::Segment;
use crate::symbol::Symbol;
use crate::symbol_comparison_info::{ComparedSymbol, SymbolComparisonInfo};

verus! {

/// A symbol of a build held against the first symbol of the same name in
/// the map `other`.
pub open spec fn held_against(section: Section, symbol: Symbol, other: MapFile) -> ComparedSymbol {
    match other.locate_name(symbol.name@) {
        Some(place) => {
            let found = other.segments_list@[place.segment].sections_list@[place.section];
            ComparedSymbol {
                symbol,
                build_address: symbol.vram,
                build_file: Some(section),
                expected_address: found.symbols@[place.symbol].vram,
                expected_file: Some(found),
            }
        },
        None => ComparedSymbol {
            symbol,
            build_address: symbol.vram,
            build_file: Some(section),
            expected_address: u64::MAX,
            expected_file: None,
        },
    }
}

/// A symbol that only the expected map has.
pub open spec fn unknown_to_build(section: Section, symbol: Symbol) -> ComparedSymbol {
    ComparedSymbol {
        symbol,
        build_address: u64::MAX,
        build_file: None,
        expected_address: symbol.vram,
        expected_file: Some(section),
    }
}

/// The comparison after one more symbol of the build. The symbol is always
/// listed. Its section is listed as bad where the other map has the symbol
/// at a place that differs, and as missing where the other map does not have
/// the symbol.
pub open spec fn compare_symbol(acc: Comparison, section: Section, symbol: Symbol, other: MapFile)
    -> Comparison {
    let entry = held_against(section, symbol, other);
    if other.locate_name(symbol.name@) is Some {
        Comparison {
            bad: if entry.diff() != Some(0i64) {
                listed_once(acc.bad, section)
            } else {
                acc.bad
            },
            missing: acc.missing,
            compared: acc.compared.push(entry),
        }
    } else {
        Comparison {
            bad: acc.bad,
            missing: listed_once(acc.missing, section),
            compared: acc.compared.push(entry),
        }
    }
}

/// The comparison after the first `k` symbols of a section of the build.
pub open spec fn compare_symbols(acc: Comparison, section: Section, other: MapFile, k: int)
    -> Comparison
    decreases k,
{
    if k <= 0 {
        acc
    } else {
        compare_symbol(
            compare_symbols(acc, section, other, k - 1),
            section,
            section.symbols@[k - 1],
            other,
        )
    }
}

/// The comparison after the first `j` sections of a segment of the build.
pub open spec fn compare_sections(acc: Comparison, segment: Segment, other: MapFile, j: int)
    -> Comparison
    decreases j,
{
    if j <= 0 {
        acc
    } else {
        let section = segment.sections_list@[j - 1];
        compare_symbols(
            compare_sections(acc, segment, other, j - 1),
            section,
            other,
            section.symbols@.len() as int,
        )
    }
}

/// The comparison after the first `i` segments of the build.
pub open spec fn compare_segments(acc: Comparison, segments: Seq<Segment>, other: MapFile, i: int)
    -> Comparison
    decreases i,
{
    if i <= 0 {
        acc
    } else {
        let segment = segments[i - 1];
        compare_sections(
            compare_segments(acc, segments, other, i - 1),
            segment,
            other,
            segment.sections_list@.len() as int,
        )
    }
}

/// The comparison after one more symbol of the expected map: where the
/// build does not have the symbol, it is listed, and its section is listed
/// as missing.
pub open spec fn note_unknown(acc: Comparison, section: Section, symbol: Symbol, build: MapFile)
    -> Comparison {
    if build.locate_name(symbol.name@) is None {
        Comparison {
            bad: acc.bad,
            missing: listed_once(acc.missing, section),
            compared: acc.compared.push(unknown_to_build(section, symbol)),
        }
    } else {
        acc
    }
}

/// The comparison after the first `k` symbols of a section of the expected
/// map.
pub open spec fn note_unknown_symbols(acc: Comparison, section: Section, build: MapFile, k: int)
    -> Comparison
    decreases k,
{
    if k <= 0 {
        acc
    } else {
        note_unknown(
            note_unknown_symbols(acc, section, build, k - 1),
            section,
            section.symbols@[k - 1],
            build,
        )
    }
}

/// The comparison after the first `j` sections of a segment of the expected
/// map.
pub open spec fn note_unknown_sections(acc: Comparison, segment: Segment, build: MapFile, j: int)
    -> Comparison
    decreases j,
{
    if j <= 0 {
        acc
    } else {
        let section = segment.sections_list@[j - 1];
        note_unknown_symbols(
            note_unknown_sections(acc, segment, build, j - 1),
            section,
            build,
            section.symbols@.len() as int,
        )
    }
}

/// The comparison after the first `i` segments of the expected map.
pub open spec fn note_unknown_segments(
    acc: Comparison,
    segments: Seq<Segment>,
    build: MapFile,
    i: int,
) -> Comparison
    decreases i,
{
    if i <= 0 {
        acc
    } else {
        let segment = segments[i - 1];
        note_unknown_sections(
            note_unknown_segments(acc, segments, build, i - 1),
            segment,
            build,
            segment.sections_list@.len() as int,
        )
    }
}

/// A comparison that lists nothing.
pub open spec fn nothing_compared() -> Comparison {
    Comparison { bad: Seq::empty(), missing: Seq::empty(), compared: Seq::empty() }
}

/// What holding the map `build` against the map `expected` finds: every
/// symbol of the build, in the order of the map, and, where `both_ways` is
/// set, after them every symbol of the expected map that the build does not
/// have.
pub open spec fn comparison(build: MapFile, expected: MapFile, both_ways: bool) -> Comparison {
    let forward = compare_segments(
        nothing_compared(),
        build.segments_list@,
        expected,
        build.segments_list@.len() as int,
    );
    if both_ways {
        note_unknown_segments(
            forward,
            expected.segments_list@,
            build,
            expected.segments_list@.len() as int,
        )
    } else {
        forward
    }
}

/// Every symbol of the map is the first of its name, and none stands at
/// the address `u64::MAX`, which a comparison reads as "not there".
pub open spec fn names_are_unique(map: MapFile) -> bool {
    forall|i: int, j: int, k: int|
        0 <= i < map.segments_list@.len() && 0 <= j < map.segments_list@[i].sections_list@.len()
            && 0 <= k < map.segments_list@[i].sections_list@[j].symbols@.len() ==> {
            let symbol = #[trigger] map.segments_list@[i].sections_list@[j].symbols@[k];
            &&& symbol.vram != u64::MAX
            &&& map.locate_name(symbol.name@) == Some(
                Place { segment: i, section: j, symbol: k, offset: 0 },
            )
        }
}

/// No section is listed as bad or missing, and every compared symbol
/// differs by zero.
pub open spec fn all_equal(result: Comparison) -> bool {
    &&& result.bad.len() == 0
    &&& result.missing.len() == 0
    &&& forall|n: int|
        0 <= n < result.compared.len() ==> (#[trigger] result.compared[n]).diff() == Some(0i64)
}

proof fn lemma_self_symbols(acc: Comparison, map: MapFile, i: int, j: int, k: int)
    requires
        names_are_unique(map),
        all_equal(acc),
        0 <= i < map.segments_list@.len(),
        0 <= j < map.segments_list@[i].sections_list@.len(),
        0 <= k <= map.segments_list@[i].sections_list@[j].symbols@.len(),
    ensures
        all_equal(compare_symbols(acc, map.segments_list@[i].sections_list@[j], map, k)),
        note_unknown_symbols(acc, map.segments_list@[i].sections_list@[j], map, k) == acc,
    decreases k,
{
    if k > 0 {
        lemma_self_symbols(acc, map, i, j, k - 1);
        let section = map.segments_list@[i].sections_list@[j];
        let symbol = map.segments_list@[i].sections_list@[j].symbols@[k - 1];
        let before = compare_symbols(acc, section, map, k - 1);
        let entry = held_against(section, symbol, map);
        assert(map.locate_name(symbol.name@) == Some(
            Place { segment: i, section: j, symbol: k - 1, offset: 0 },
        ));
        assert(entry.same_file());
        assert(entry.diff() == Some(0i64));
        let after = compare_symbol(before, section, symbol, map);
        assert forall|n: int| 0 <= n < after.compared.len() implies (
        #[trigger] after.compared[n]).diff() == Some(0i64) by {
            if n < before.compared.len() {
                assert(after.compared[n] == before.compared[n]);
            }
        }
    }
}

proof fn lemma_self_sections(acc: Comparison, map: MapFile, i: int, j: int)
    requires
        names_are_unique(map),
        all_equal(acc),
        0 <= i < map.segments_list@.len(),
        0 <= j <= map.segments_list@[i].sections_list@.len(),
    ensures
        all_equal(compare_sections(acc, map.segments_list@[i], map, j)),
        note_unknown_sections(acc, map.segments_list@[i], map, j) == acc,
    decreases j,
{
    if j > 0 {
        lemma_self_sections(acc, map, i, j - 1);
        lemma_self_symbols(
            compare_sections(acc, map.segments_list@[i], map, j - 1),
            map,
            i,
            j - 1,
            map.segments_list@[i].sections_list@[j - 1].symbols@.len() as int,
        );
        lemma_self_symbols(
            acc,
            map,
            i,
            j - 1,
            map.segments_list@[i].sections_list@[j - 1].symbols@.len() as int,
        );
    }
}

proof fn lemma_self_segments(acc: Comparison, map: MapFile, i: int)
    requires
        names_are_unique(map),
        all_equal(acc),
        0 <= i <= map.segments_list@.len(),
    ensures
        all_equal(compare_segments(acc, map.segments_list@, map, i)),
        note_unknown_segments(acc, map.segments_list@, map, i) == acc,
    decreases i,
{
    if i > 0 {
        lemma_self_segments(acc, map, i - 1);
        lemma_self_sections(
            compare_segments(acc, map.segments_list@, map, i - 1),
            map,
            i - 1,
            map.segments_list@[i - 1].sections_list@.len() as int,
        );
        lemma_self_sections(
            acc,
            map,
            i - 1,
            map.segments_list@[i - 1].sections_list@.len() as int,
        );
    }
}

/// A map whose symbols all carry different names, held against itself,
/// lists no section as bad or missing, and every compared symbol differs by
/// zero.
pub proof fn lemma_map_equals_itself(map: MapFile, both_ways: bool)
    requires
        names_are_unique(map),
    ensures
        all_equal(comparison(map, map, both_ways)),
{
    let n = map.segments_list@.len() as int;
    lemma_self_segments(nothing_compared(), map, n);
    lemma_self_segments(compare_segments(nothing_compared(), map.segments_list@, map, n), map, n);
}

fn compare_symbol_into<'a>(
    info: &mut MapsComparisonInfo<'a>,
    section: &'a Section,
    symbol: &'a Symbol,
    other: &'a MapFile,
)
    ensures
        final(info)@ == compare_symbol(old(info)@, *section, *symbol, *other),
{
    let ghost listed = info.compared_list@;
    match other.find_symbol_by_name(symbol.name.as_str()) {
        Some(found) => {
            let comp = SymbolComparisonInfo::new(
                symbol,
                symbol.vram,
                Some(section),
                found.symbol.vram,
                Some(found.section),
            );
            let differs = match comp.diff() {
                Some(d) => d != 0,
                None => true,
            };
            if differs {
                list_once(&mut info.bad_sections, section);
            }
            info.compared_list.push(comp);
            assert(compared_view(info.compared_list@) =~= compared_view(listed).push(comp@));
        },
        None => {
            list_once(&mut info.missing_sections, section);
            let comp = SymbolComparisonInfo::new(symbol, symbol.vram, Some(section), u64::MAX, None);
            info.compared_list.push(comp);
            assert(compared_view(info.compared_list@) =~= compared_view(listed).push(comp@));
        },
    }
}

fn compare_segment_into<'a>(
    info: &mut MapsComparisonInfo<'a>,
    segment: &'a Segment,
    other: &'a MapFile,
)
    ensures
        final(info)@ == compare_sections(
            old(info)@,
            *segment,
            *other,
            segment.sections_list@.len() as int,
        ),
{
    let mut j: usize = 0;
    while j < segment.sections_list.len()
        invariant
            j <= segment.sections_list.len(),
            info@ == compare_sections(old(info)@, *segment, *other, j as int),
        decreases segment.sections_list.len() - j,
    {
        let section = &segment.sections_list[j];
        let ghost start = info@;
        let mut k: usize = 0;
        while k < section.symbols.len()
            invariant
                k <= section.symbols.len(),
                info@ == compare_symbols(start, *section, *other, k as int),
            decreases section.symbols.len() - k,
        {
            compare_symbol_into(info, section, &section.symbols[k], other);
            k += 1;
        }
        j += 1;
    }
}

fn note_unknown_into<'a>(
    info: &mut MapsComparisonInfo<'a>,
    segment: &'a Segment,
    build: &'a MapFile,
)
    ensures
        final(info)@ == note_unknown_sections(
            old(info)@,
            *segment,
            *build,
            segment.sections_list@.len() as int,
        ),
{
    let mut j: usize = 0;
    while j < segment.sections_list.len()
        invariant
            j <= segment.sections_list.len(),
            info@ == note_unknown_sections(old(info)@, *segment, *build, j as int),
        decreases segment.sections_list.len() - j,
    {
        let section = &segment.sections_list[j];
        let ghost start = info@;
        let mut k: usize = 0;
        while k < section.symbols.len()
            invariant
                k <= section.symbols.len(),
                info@ == note_unknown_symbols(start, *section, *build, k as int),
            decreases section.symbols.len() - k,
        {
            let symbol = &section.symbols[k];
            if build.find_symbol_by_name(symbol.name.as_str()).is_none() {
                let ghost listed = info.compared_list@;
                list_once(&mut info.missing_sections, section);
                let comp = SymbolComparisonInfo::new(
                    symbol,
                    u64::MAX,
                    None,
                    symbol.vram,
                    Some(section),
                );
                info.compared_list.push(comp);
                assert(compared_view(info.compared_list@) =~= compared_view(listed).push(comp@));
            }
            k += 1;
        }
        j += 1;
    }
}

impl MapFile {
    /// Holds this map, the build, against the map it is expected to match.
    /// Every symbol of the build is looked up by name in the other map; with
    /// `check_other_on_self`, the symbols that only the other map has are
    /// listed too.
    pub fn compare_files_and_symbols<'a>(
        &'a self,
        other_map_file: &'a Self,
        check_other_on_self: bool,
    ) -> (r: MapsComparisonInfo<'a>)
        ensures
            r@ == comparison(*self, *other_map_file, check_other_on_self),
    {
        let mut comp_info = MapsComparisonInfo::new();
        let mut i: usize = 0;
        while i < self.segments_list.len()
            invariant
                i <= self.segments_list.len(),
                comp_info@ == compare_segments(
                    nothing_compared(),
                    self.segments_list@,
                    *other_map_file,
                    i as int,
                ),
            decreases self.segments_list.len() - i,
        {
            compare_segment_into(&mut comp_info, &self.segments_list[i], other_map_file);
            i += 1;
        }
        if check_other_on_self {
            let ghost forward = comp_info@;
            let mut i: usize = 0;
            while i < other_map_file.segments_list.len()
                invariant
                    i <= other_map_file.segments_list.len(),
                    comp_info@ == note_unknown_segments(
                        forward,
                        other_map_file.segments_list@,
                        *self,
                        i as int,
                    ),
                decreases other_map_file.segments_list.len() - i,
            {
                note_unknown_into(&mut comp_info, &other_map_file.segments_list[i], self);
                i += 1;
            }
        }
        comp_info
    }
}

} // verus!
