//! Maps written by LLVM `ld.lld`.
//!
//! Every line of such a map that says anything starts with four hexadecimal
//! columns: address, image offset, size and alignment. What follows them
//! tells a segment, a section, a symbol or padding apart by its indentation
//! and shape.

use vstd::prelude::*;
use crate::fixup::{
    lemma_pairing_keeps_places, lemma_pairing_keeps_total, lemma_sharing_by_names_and_addresses,
    pair_non_matching_symbols, pair_placeholders, paired_up_to, sizes_fill_section, well_listed,
};
use crate::gnu::{banned_symbol_name, is_banned_symbol_name};
use crate::layout::{
    ascending, complete_symbols, completed_symbols, leading_gap, lemma_completed_one_size,
    lemma_completed_sizes_fill_section, sizes_left_out, with_vroms,
};
use crate::paths::{fill_path, fill_path_of};
use crate::pattern::{
    captured_at, captures_of_each, copy_group, group, group_text, groups_view, match_each,
    matched_view, regex_captures, regex_matches,
};
use crate::raw::{
    current_section, every_placed_section, every_section, fresh, ignores_sections,
    last_section, lemma_empty_segment_keeps, lemma_fresh_keeps, lemma_with_section_keeps,
    lemma_with_symbol_keeps, new_list, placed, push_section, push_segment, push_symbol,
    with_section, with_symbol,
};
use crate::section::{sections_view, Section, SectionView};
use crate::segment::{segments_view, Segment, SegmentView};
use crate::symbol::{Symbol, SymbolView};
use crate::text::{lines_of, split_lines, texts_of};
use crate::utils::{hex_value, is_noload_section, noload_name, try_parse_hex};

verus! {

/// The four columns that start a line. Groups 1 to 4 are the address, the
/// image offset, the size and the alignment; the whole match is what the
/// rest of the line follows.
pub open spec fn lld_row_pattern() -> Seq<char> {
    r"^\s*(?P<vram>[0-9a-fA-F]+)\s+(?P<vrom>[0-9a-fA-F]+)\s+(?P<size>[0-9a-fA-F]+)\s+(?P<align>[0-9a-fA-F]+) "@
}

/// A segment: its name, group 1, directly after the columns.
pub open spec fn lld_segment_pattern() -> Seq<char> {
    r"^(?P<name>[^\s]+)$"@
}

/// Padding: an assignment that moves the location counter on.
pub open spec fn lld_fill_pattern() -> Seq<char> {
    r"^\s+(?P<expr>\.\s*\+=\s*.+)$"@
}

/// A section: group 1 is the object file, group 2 the section's type.
pub open spec fn lld_section_pattern() -> Seq<char> {
    r"^\s+(?P<name>[^\s]+):\((?P<section>[^\s()]+)\)$$"@
}

/// The label of a jump table, which is no symbol.
pub open spec fn lld_label_pattern() -> Seq<char> {
    r"^\s+(?P<name>\.?L[0-9A-F]{8})$"@
}

/// A symbol: its name, group 1, indented.
pub open spec fn lld_symbol_pattern() -> Seq<char> {
    r"^\s+(?P<name>[^\s]+)$"@
}

/// The four columns of a line.
#[derive(Debug, Clone, Copy)]
pub struct LldRow {
    pub vram: u64,
    pub vrom: u64,
    pub size: u64,
    pub align: u64,
}

/// What one line of a map adds to the model.
#[derive(Debug)]
pub enum LldEntry {
    Segment { name: String, row: LldRow },
    Fill { row: LldRow },
    Section { filepath: String, section_type: String, row: LldRow },
    Symbol { name: String, row: LldRow },
    Nothing,
}

/// The mathematical value of an [`LldEntry`].
pub enum LldEntryView {
    Segment { name: Seq<char>, row: LldRow },
    Fill { row: LldRow },
    Section { filepath: Seq<char>, section_type: Seq<char>, row: LldRow },
    Symbol { name: Seq<char>, row: LldRow },
    Nothing,
}

impl View for LldEntry {
    type V = LldEntryView;

    open spec fn view(&self) -> LldEntryView {
        match self {
            LldEntry::Segment { name, row } => LldEntryView::Segment { name: name@, row: *row },
            LldEntry::Fill { row } => LldEntryView::Fill { row: *row },
            LldEntry::Section { filepath, section_type, row } => LldEntryView::Section {
                filepath: filepath@,
                section_type: section_type@,
                row: *row,
            },
            LldEntry::Symbol { name, row } => LldEntryView::Symbol { name: name@, row: *row },
            LldEntry::Nothing => LldEntryView::Nothing,
        }
    }
}

/// The numbers in the four columns, where each reads as hexadecimal.
pub open spec fn lld_row(groups: Seq<Option<Seq<char>>>) -> Option<LldRow> {
    match (
        group_text(groups, 1),
        group_text(groups, 2),
        group_text(groups, 3),
        group_text(groups, 4),
    ) {
        (Some(vram), Some(vrom), Some(size), Some(align)) => match (
            hex_value(vram),
            hex_value(vrom),
            hex_value(size),
            hex_value(align),
        ) {
            (Some(vram), Some(vrom), Some(size), Some(align)) => Some(
                LldRow { vram, vrom, size, align },
            ),
            _ => None,
        },
        _ => None,
    }
}

/// What the patterns capture in the rest of a line, after the columns.
pub struct LldMatchesView {
    pub segment: Option<Seq<Option<Seq<char>>>>,
    pub fill: bool,
    pub section: Option<Seq<Option<Seq<char>>>>,
    pub label: bool,
    pub symbol: Option<Seq<Option<Seq<char>>>>,
}

/// What the patterns capture in `rest`.
pub open spec fn lld_matches(rest: Seq<char>) -> LldMatchesView {
    LldMatchesView {
        segment: regex_captures(lld_segment_pattern(), rest),
        fill: regex_matches(lld_fill_pattern(), rest),
        section: regex_captures(lld_section_pattern(), rest),
        label: regex_matches(lld_label_pattern(), rest),
        symbol: regex_captures(lld_symbol_pattern(), rest),
    }
}

/// What the rest of a line, after the columns, stands for. The first shape
/// that fits decides: a segment, padding, a section, a label, a symbol. A
/// section of size zero and a symbol with a banned name add nothing.
pub open spec fn lld_classify(m: LldMatchesView, row: LldRow) -> LldEntryView {
    match m.segment {
        Some(groups) => match group_text(groups, 1) {
            Some(name) => LldEntryView::Segment { name, row },
            None => LldEntryView::Nothing,
        },
        None => if m.fill {
            LldEntryView::Fill { row }
        } else {
            match m.section {
                Some(groups) => match (group_text(groups, 1), group_text(groups, 2)) {
                    (Some(filepath), Some(section_type)) => if row.size > 0 {
                        LldEntryView::Section { filepath, section_type, row }
                    } else {
                        LldEntryView::Nothing
                    },
                    _ => LldEntryView::Nothing,
                },
                None => if m.label {
                    LldEntryView::Nothing
                } else {
                    match m.symbol {
                        Some(groups) => match group_text(groups, 1) {
                            Some(name) => if banned_symbol_name(name) {
                                LldEntryView::Nothing
                            } else {
                                LldEntryView::Symbol { name, row }
                            },
                            None => LldEntryView::Nothing,
                        },
                        None => LldEntryView::Nothing,
                    }
                },
            }
        },
    }
}

/// The numbers of a line's columns and what follows the columns, given what
/// the pattern of the columns captures on the line: none where it captures
/// nothing or the columns do not read as 64-bit numbers.
pub open spec fn lld_split_of(line: Seq<char>, found: Option<Seq<Option<Seq<char>>>>) -> Option<
    (Seq<char>, LldRow),
> {
    match found {
        Some(groups) => match (group_text(groups, 0), lld_row(groups)) {
            (Some(columns), Some(row)) => if columns.len() <= line.len() {
                Some((line.subrange(columns.len() as int, line.len() as int), row))
            } else {
                None
            },
            _ => None,
        },
        None => None,
    }
}

/// The numbers of a line's columns and what follows the columns.
pub open spec fn lld_split(line: Seq<char>) -> Option<(Seq<char>, LldRow)> {
    lld_split_of(line, regex_captures(lld_row_pattern(), line))
}

/// What the line `line` adds to the model. A line that does not start with
/// the four columns, or whose columns do not read as 64-bit numbers, adds
/// nothing.
pub open spec fn lld_entry(line: Seq<char>) -> LldEntryView {
    match lld_split(line) {
        Some((rest, row)) => lld_classify(lld_matches(rest), row),
        None => LldEntryView::Nothing,
    }
}

/// The image offset that a section of the type `section_type` takes from
/// its line: none where such a section is not loaded.
pub open spec fn loaded_vrom(section_type: Seq<char>, vrom: u64) -> Option<u64> {
    if noload_name(section_type) {
        None
    } else {
        Some(vrom)
    }
}

/// The stand-in for padding after the section `prev`: it takes the path and
/// the type from that section and the numbers from its own line.
pub open spec fn lld_fill_section(prev: Option<SectionView>, row: LldRow) -> SectionView {
    let (filepath, section_type) = match prev {
        Some(prev) => (fill_path_of(prev.filepath), prev.section_type),
        None => (Seq::empty(), Seq::empty()),
    };
    SectionView {
        filepath,
        vram: row.vram,
        size: row.size,
        section_type,
        vrom: loaded_vrom(section_type, row.vrom),
        align: None,
        is_fill: true,
        symbols: Seq::empty(),
    }
}

/// The list of segments after `entry` has been added. A symbol goes under
/// the section read last, and takes its image offset only where that section
/// is loaded; without such a section it is left out.
pub open spec fn lld_apply(segments: Seq<SegmentView>, entry: LldEntryView) -> Seq<SegmentView> {
    match entry {
        LldEntryView::Segment { name, row } => segments.push(
            SegmentView {
                name,
                vram: row.vram,
                size: row.size,
                vrom: Some(row.vrom),
                align: Some(row.align),
                sections: Seq::empty(),
            },
        ),
        LldEntryView::Fill { row } => with_section(
            segments,
            lld_fill_section(current_section(segments), row),
        ),
        LldEntryView::Section { filepath, section_type, row } => with_section(
            segments,
            SectionView {
                filepath,
                vram: row.vram,
                size: row.size,
                section_type,
                vrom: loaded_vrom(section_type, row.vrom),
                align: Some(row.align),
                is_fill: false,
                symbols: Seq::empty(),
            },
        ),
        LldEntryView::Symbol { name, row } => match current_section(segments) {
            Some(section) => with_symbol(
                segments,
                SymbolView {
                    name,
                    vram: row.vram,
                    size: row.size,
                    vrom: loaded_vrom(section.section_type, row.vrom),
                    align: Some(row.align),
                    nonmatching_sym_exists: false,
                },
            ),
            None => segments,
        },
        LldEntryView::Nothing => segments,
    }
}

/// The list of segments after the first `n` lines.
pub open spec fn lld_scan(lines: Seq<Seq<char>>, n: int) -> Seq<SegmentView>
    decreases n,
{
    if n <= 0 {
        fresh()
    } else {
        lld_apply(lld_scan(lines, n - 1), lld_entry(lines[n - 1]))
    }
}

/// A section as it stands in the finished model: the sizes that the map
/// left at zero are worked out, and placeholders are paired with their
/// symbols.
pub open spec fn lld_section(section: SectionView) -> SectionView {
    SectionView { symbols: pair_placeholders(completed_symbols(section)), ..section }
}

/// The finished sections that stand for the first `j` sections of a
/// segment: each but the stand-ins, in order.
pub open spec fn lld_sections(sections: Seq<SectionView>, j: int) -> Seq<SectionView>
    decreases j,
{
    if j <= 0 {
        Seq::empty()
    } else {
        let done = lld_sections(sections, j - 1);
        if sections[j - 1].is_placeholder() {
            done
        } else {
            done.push(lld_section(sections[j - 1]))
        }
    }
}

/// A segment as it stands in the finished model.
pub open spec fn lld_segment(segment: SegmentView) -> SegmentView {
    SegmentView {
        sections: lld_sections(segment.sections, segment.sections.len() as int),
        ..segment
    }
}

/// The segment at `i` goes into the finished model: it is neither the
/// stand-in that the scan started from nor empty.
pub open spec fn lld_keeps(segments: Seq<SegmentView>, i: int) -> bool {
    !(i == 0 && segments[i].is_placeholder()) && !(segments[i].size == 0
        && segments[i].sections.len() == 0)
}

/// The finished segments that stand for the first `i` segments of a scan.
pub open spec fn lld_segments(segments: Seq<SegmentView>, i: int) -> Seq<SegmentView>
    decreases i,
{
    if i <= 0 {
        Seq::empty()
    } else {
        let done = lld_segments(segments, i - 1);
        if lld_keeps(segments, i - 1) {
            done.push(lld_segment(segments[i - 1]))
        } else {
            done
        }
    }
}

/// The finished model of a scan.
pub open spec fn lld_post_process(segments: Seq<SegmentView>) -> Seq<SegmentView> {
    lld_segments(segments, segments.len() as int)
}

/// The memory layout that a map of `ld.lld` describes.
pub open spec fn lld_map(text: Seq<char>) -> Seq<SegmentView> {
    let lines = split_lines(text);
    lld_post_process(lld_scan(lines, lines.len() as int))
}

/// Whatever holds of the finished form of every section that meets
/// `raw_ok` holds of every section of the finished model, where every
/// section of the scan meets `raw_ok`.
pub proof fn lemma_lld_sections_carry(
    segments: Seq<SegmentView>,
    raw_ok: spec_fn(SegmentView, SectionView) -> bool,
    ok: spec_fn(SegmentView, SectionView) -> bool,
)
    requires
        every_placed_section(segments, raw_ok),
        ignores_sections(ok),
        forall|segment: SegmentView, section: SectionView|
            raw_ok(segment, section) ==> #[trigger] ok(segment, lld_section(section)),
    ensures
        every_placed_section(lld_post_process(segments), ok),
{
    lemma_lld_segments_carry(segments, raw_ok, ok, segments.len() as int);
}

proof fn lemma_lld_segments_carry(
    segments: Seq<SegmentView>,
    raw_ok: spec_fn(SegmentView, SectionView) -> bool,
    ok: spec_fn(SegmentView, SectionView) -> bool,
    i: int,
)
    requires
        every_placed_section(segments, raw_ok),
        ignores_sections(ok),
        forall|segment: SegmentView, section: SectionView|
            raw_ok(segment, section) ==> #[trigger] ok(segment, lld_section(section)),
        0 <= i <= segments.len(),
    ensures
        every_placed_section(lld_segments(segments, i), ok),
    decreases i,
{
    if i > 0 {
        lemma_lld_segments_carry(segments, raw_ok, ok, i - 1);
        if lld_keeps(segments, i - 1) {
            let segment = segments[i - 1];
            assert forall|j: int| 0 <= j < segment.sections.len() implies raw_ok(
                segment,
                segment.sections[j],
            ) by {
                assert(raw_ok(segments[i - 1], segments[i - 1].sections[j]));
            }
            lemma_lld_sections_list_carry(segment, raw_ok, ok, segment.sections.len() as int);
            let finished = lld_segment(segment);
            assert forall|j: int| 0 <= j < finished.sections.len() implies ok(
                finished,
                finished.sections[j],
            ) by {
                assert(ok(segment, finished.sections[j]));
                assert(finished == SegmentView { sections: finished.sections, ..segment });
            }
            lemma_empty_segment_keeps(lld_segments(segments, i - 1), finished, ok);
        }
    }
}

proof fn lemma_lld_sections_list_carry(
    segment: SegmentView,
    raw_ok: spec_fn(SegmentView, SectionView) -> bool,
    ok: spec_fn(SegmentView, SectionView) -> bool,
    j: int,
)
    requires
        forall|k: int| 0 <= k < segment.sections.len() ==> raw_ok(segment, segment.sections[k]),
        forall|segment: SegmentView, section: SectionView|
            raw_ok(segment, section) ==> #[trigger] ok(segment, lld_section(section)),
        0 <= j <= segment.sections.len(),
    ensures
        forall|k: int|
            0 <= k < lld_sections(segment.sections, j).len() ==> ok(
                segment,
                #[trigger] lld_sections(segment.sections, j)[k],
            ),
    decreases j,
{
    if j > 0 {
        lemma_lld_sections_list_carry(segment, raw_ok, ok, j - 1);
        let done = lld_sections(segment.sections, j - 1);
        let all = lld_sections(segment.sections, j);
        assert(raw_ok(segment, segment.sections[j - 1]));
        assert(ok(segment, lld_section(segment.sections[j - 1])));
        assert forall|k: int| 0 <= k < all.len() implies ok(segment, #[trigger] all[k]) by {
            if k < done.len() {
                assert(all[k] == done[k]);
            }
        }
    }
}

/// Finishing a section keeps the number and the order of its symbols and
/// their names, addresses and image offsets.
pub proof fn lemma_lld_section_keeps_places(section: SectionView)
    ensures
        lld_section(section).symbols.len() == section.symbols.len(),
        forall|i: int|
            0 <= i < section.symbols.len() ==> {
                let after = #[trigger] lld_section(section).symbols[i];
                &&& after.name == section.symbols[i].name
                &&& after.vram == section.symbols[i].vram
                &&& after.vrom == section.symbols[i].vrom
            },
{
    let completed = completed_symbols(section);
    lemma_pairing_keeps_places(completed, completed.len() as int);
    assert forall|i: int| 0 <= i < section.symbols.len() implies {
        let after = #[trigger] lld_section(section).symbols[i];
        &&& after.name == section.symbols[i].name
        &&& after.vram == section.symbols[i].vram
        &&& after.vrom == section.symbols[i].vrom
    } by {
        assert(paired_up_to(completed, completed.len() as int)[i].vram == completed[i].vram);
    }
}

/// Sections whose symbols a map lists in ascending order of address have
/// them in ascending order in the finished model.
pub proof fn lemma_lld_model_ascends(segments: Seq<SegmentView>)
    requires
        every_section(segments, ascending()),
    ensures
        every_section(lld_post_process(segments), ascending()),
{
    assert forall|segment: SegmentView, section: SectionView|
        placed(ascending())(segment, section) implies #[trigger] placed(ascending())(
        segment,
        lld_section(section),
    ) by {
        lemma_lld_section_keeps_places(section);
    }
    lemma_lld_sections_carry(segments, placed(ascending()), placed(ascending()));
}

/// The symbols of the section stand in ascending order inside the section's
/// range, each placeholder at the address of its symbol, and the map gave
/// none of them a size.
pub open spec fn well_listed_without_sizes() -> spec_fn(SectionView) -> bool {
    |section: SectionView| well_listed()(section) && sizes_left_out(section.symbols)
}

/// In a finished section whose symbols were listed in ascending order
/// inside the section's range, each placeholder at the address of its
/// symbol and none with a size, the symbols' sizes and the leading gap add
/// up to the section's size.
pub proof fn lemma_lld_section_sizes_fill(section: SectionView)
    requires
        well_listed_without_sizes()(section),
    ensures
        sizes_fill_section()(lld_section(section)),
{
    let completed = completed_symbols(section);
    let finished = lld_section(section);
    lemma_lld_section_keeps_places(section);
    if section.symbols.len() > 0 {
        lemma_completed_sizes_fill_section(section);
        lemma_completed_one_size(section);
        lemma_sharing_by_names_and_addresses(section.symbols, completed);
        lemma_pairing_keeps_total(completed);
        assert(finished.symbols[0].vram == section.symbols[0].vram);
        assert(leading_gap(finished) == leading_gap(section));
    }
}

/// Where a scan lists the symbols of every section in ascending order
/// inside the section's range, each placeholder at the address of its
/// symbol and none with a size, then in every section of the finished model
/// that has symbols, the symbols' sizes and the leading gap add up to the
/// section's size.
pub proof fn lemma_lld_model_sizes_fill(segments: Seq<SegmentView>)
    requires
        every_section(segments, well_listed_without_sizes()),
    ensures
        every_section(lld_post_process(segments), sizes_fill_section()),
{
    assert forall|segment: SegmentView, section: SectionView|
        placed(well_listed_without_sizes())(segment, section) implies #[trigger] placed(
        sizes_fill_section(),
    )(segment, lld_section(section)) by {
        lemma_lld_section_sizes_fill(section);
    }
    lemma_lld_sections_carry(
        segments,
        placed(well_listed_without_sizes()),
        placed(sizes_fill_section()),
    );
}

/// While a map is read, every symbol of a loaded section has an image
/// offset.
pub proof fn lemma_lld_scan_has_vroms(lines: Seq<Seq<char>>, n: int)
    ensures
        every_section(lld_scan(lines, n), with_vroms()),
    decreases n,
{
    let ok = placed(with_vroms());
    if n <= 0 {
        lemma_fresh_keeps(ok);
    } else {
        lemma_lld_scan_has_vroms(lines, n - 1);
        let before = lld_scan(lines, n - 1);
        match lld_entry(lines[n - 1]) {
            LldEntryView::Segment { name, row } => {
                let segment = SegmentView {
                    name,
                    vram: row.vram,
                    size: row.size,
                    vrom: Some(row.vrom),
                    align: Some(row.align),
                    sections: Seq::empty(),
                };
                lemma_empty_segment_keeps(before, segment, ok);
            },
            LldEntryView::Fill { row } => {
                lemma_with_section_keeps(
                    before,
                    lld_fill_section(current_section(before), row),
                    ok,
                );
            },
            LldEntryView::Section { filepath, section_type, row } => {
                let section = SectionView {
                    filepath,
                    vram: row.vram,
                    size: row.size,
                    section_type,
                    vrom: loaded_vrom(section_type, row.vrom),
                    align: Some(row.align),
                    is_fill: false,
                    symbols: Seq::empty(),
                };
                lemma_with_section_keeps(before, section, ok);
            },
            LldEntryView::Symbol { name, row } => {
                match current_section(before) {
                    Some(section) => {
                        let symbol = SymbolView {
                            name,
                            vram: row.vram,
                            size: row.size,
                            vrom: loaded_vrom(section.section_type, row.vrom),
                            align: Some(row.align),
                            nonmatching_sym_exists: false,
                        };
                        let last = before.last();
                        assert(ok(last, last.sections[last.sections.len() - 1]));
                        lemma_with_symbol_keeps(before, symbol, ok);
                    },
                    None => {},
                }
            },
            LldEntryView::Nothing => {},
        }
    }
}

/// In the model of a map, every symbol of a loaded section has an image
/// offset.
pub proof fn lemma_lld_map_has_vroms(text: Seq<char>)
    ensures
        every_section(lld_map(text), with_vroms()),
{
    let lines = split_lines(text);
    lemma_lld_scan_has_vroms(lines, lines.len() as int);
    assert forall|segment: SegmentView, section: SectionView|
        placed(with_vroms())(segment, section) implies #[trigger] placed(with_vroms())(
        segment,
        lld_section(section),
    ) by {
        lemma_lld_section_keeps_places(section);
    }
    lemma_lld_sections_carry(
        lld_scan(lines, lines.len() as int),
        placed(with_vroms()),
        placed(with_vroms()),
    );
}

/// What the patterns captured in the rest of a line, after the columns.
pub struct LldMatches<'a> {
    pub segment: Option<&'a Vec<Option<String>>>,
    pub fill: bool,
    pub section: Option<&'a Vec<Option<String>>>,
    pub label: bool,
    pub symbol: Option<&'a Vec<Option<String>>>,
}

impl<'a> View for LldMatches<'a> {
    type V = LldMatchesView;

    open spec fn view(&self) -> LldMatchesView {
        LldMatchesView {
            segment: matched_view(self.segment),
            fill: self.fill,
            section: matched_view(self.section),
            label: self.label,
            symbol: matched_view(self.symbol),
        }
    }
}

fn read_lld_row(groups: &Vec<Option<String>>) -> (r: Option<LldRow>)
    ensures
        r == lld_row(groups_view(groups@)),
{
    match (group(groups, 1), group(groups, 2), group(groups, 3), group(groups, 4)) {
        (Some(vram), Some(vrom), Some(size), Some(align)) => match (
            try_parse_hex(vram.as_str()),
            try_parse_hex(vrom.as_str()),
            try_parse_hex(size.as_str()),
            try_parse_hex(align.as_str()),
        ) {
            (Some(vram), Some(vrom), Some(size), Some(align)) => Some(
                LldRow { vram, vrom, size, align },
            ),
            _ => None,
        },
        _ => None,
    }
}

/// Tells what the rest of a line, after the columns, stands for, given what
/// the patterns captured in it.
pub fn classify_lld_line(m: &LldMatches, row: LldRow) -> (r: LldEntry)
    ensures
        r@ == lld_classify(m@, row),
{
    if let Some(groups) = m.segment {
        return match copy_group(groups, 1) {
            Some(name) => LldEntry::Segment { name, row },
            None => LldEntry::Nothing,
        };
    }
    if m.fill {
        return LldEntry::Fill { row };
    }
    if let Some(groups) = m.section {
        return match (copy_group(groups, 1), copy_group(groups, 2)) {
            (Some(filepath), Some(section_type)) => if row.size > 0 {
                LldEntry::Section { filepath, section_type, row }
            } else {
                LldEntry::Nothing
            },
            _ => LldEntry::Nothing,
        };
    }
    if m.label {
        return LldEntry::Nothing;
    }
    if let Some(groups) = m.symbol {
        return match copy_group(groups, 1) {
            Some(name) => if is_banned_symbol_name(&name) {
                LldEntry::Nothing
            } else {
                LldEntry::Symbol { name, row }
            },
            None => LldEntry::Nothing,
        };
    }
    LldEntry::Nothing
}

/// Takes the columns off a line, given what the pattern of the columns
/// captured on it.
pub fn split_lld_line(line: &str, found: Option<&Vec<Option<String>>>) -> (r: Option<
    (String, LldRow),
>)
    ensures
        match r {
            Some((rest, row)) => lld_split_of(line@, matched_view(found)) == Some((rest@, row)),
            None => lld_split_of(line@, matched_view(found)) is None,
        },
{
    let groups = match found {
        Some(groups) => groups,
        None => {
            return None;
        },
    };
    match (group(groups, 0), read_lld_row(groups)) {
        (Some(columns), Some(row)) => {
            let skip: usize = columns.as_str().unicode_len();
            let length: usize = line.unicode_len();
            if skip <= length {
                Some((line.substring_char(skip, length).to_owned(), row))
            } else {
                None
            }
        },
        _ => None,
    }
}

/// What each pattern captures in what follows the columns of each line.
pub struct LldTables {
    segment: Vec<Option<Vec<Option<String>>>>,
    fill: Vec<Option<Vec<Option<String>>>>,
    section: Vec<Option<Vec<Option<String>>>>,
    label: Vec<Option<Vec<Option<String>>>>,
    symbol: Vec<Option<Vec<Option<String>>>>,
}

impl LldTables {
    /// The tables hold what the patterns capture in the texts `rests`.
    pub closed spec fn holds(&self, rests: Seq<Seq<char>>) -> bool {
        &&& captures_of_each(self.segment@, lld_segment_pattern(), rests)
        &&& captures_of_each(self.fill@, lld_fill_pattern(), rests)
        &&& captures_of_each(self.section@, lld_section_pattern(), rests)
        &&& captures_of_each(self.label@, lld_label_pattern(), rests)
        &&& captures_of_each(self.symbol@, lld_symbol_pattern(), rests)
    }

    /// Matches every pattern against every text.
    pub fn of_rests(rests: &Vec<String>) -> (r: Self)
        ensures
            r.holds(texts_of(rests@)),
    {
        LldTables {
            segment: match_each(r"^(?P<name>[^\s]+)$", rests),
            fill: match_each(r"^\s+(?P<expr>\.\s*\+=\s*.+)$", rests),
            section: match_each(r"^\s+(?P<name>[^\s]+):\((?P<section>[^\s()]+)\)$$", rests),
            label: match_each(r"^\s+(?P<name>\.?L[0-9A-F]{8})$", rests),
            symbol: match_each(r"^\s+(?P<name>[^\s]+)$", rests),
        }
    }

    fn at(&self, i: usize, Ghost(rests): Ghost<Seq<Seq<char>>>) -> (r: LldMatches)
        requires
            self.holds(rests),
            i < rests.len(),
        ensures
            r@ == lld_matches(rests[i as int]),
    {
        LldMatches {
            segment: captured_at(&self.segment, i),
            fill: captured_at(&self.fill, i).is_some(),
            section: captured_at(&self.section, i),
            label: captured_at(&self.label, i).is_some(),
            symbol: captured_at(&self.symbol, i),
        }
    }
}

/// Takes the columns off every line. A line without readable columns
/// leaves an empty text and no numbers.
fn split_lld_lines(lines: &Vec<String>) -> (r: (Vec<String>, Vec<Option<LldRow>>))
    ensures
        r.0@.len() == lines@.len(),
        r.1@.len() == lines@.len(),
        forall|i: int|
            0 <= i < lines@.len() ==> match lld_split(#[trigger] lines@[i]@) {
                Some((rest, row)) => r.0@[i]@ == rest && r.1@[i] == Some(row),
                None => r.1@[i] is None,
            },
{
    let found = match_each(
        r"^\s*(?P<vram>[0-9a-fA-F]+)\s+(?P<vrom>[0-9a-fA-F]+)\s+(?P<size>[0-9a-fA-F]+)\s+(?P<align>[0-9a-fA-F]+) ",
        lines,
    );
    let mut rests: Vec<String> = Vec::new();
    let mut rows: Vec<Option<LldRow>> = Vec::new();
    let mut i: usize = 0;
    while i < lines.len()
        invariant
            i <= lines.len(),
            captures_of_each(found@, lld_row_pattern(), texts_of(lines@)),
            rests@.len() == i,
            rows@.len() == i,
            forall|j: int|
                0 <= j < i ==> match lld_split(#[trigger] lines@[j]@) {
                    Some((rest, row)) => rests@[j]@ == rest && rows@[j] == Some(row),
                    None => rows@[j] is None,
                },
        decreases lines.len() - i,
    {
        assert(texts_of(lines@)[i as int] == lines@[i as int]@);
        match split_lld_line(lines[i].as_str(), captured_at(&found, i)) {
            Some((rest, row)) => {
                rests.push(rest);
                rows.push(Some(row));
            },
            None => {
                rests.push(String::new());
                rows.push(None);
            },
        }
        i += 1;
    }
    (rests, rows)
}

/// Reads one line of a map.
pub fn read_lld_line(line: &str) -> (r: LldEntry)
    ensures
        r@ == lld_entry(line@),
{
    let mut lines: Vec<String> = Vec::new();
    lines.push(line.to_owned());
    let (rests, rows) = split_lld_lines(&lines);
    assert(lines@[0]@ == line@);
    match rows[0] {
        Some(row) => {
            let tables = LldTables::of_rests(&rests);
            let ghost texts = texts_of(rests@);
            assert(texts[0] == rests@[0]@);
            let m = tables.at(0, Ghost(texts));
            classify_lld_line(&m, row)
        },
        None => LldEntry::Nothing,
    }
}

fn loaded_vrom_of(section_type: &str, vrom: u64) -> (r: Option<u64>)
    ensures
        r == loaded_vrom(section_type@, vrom),
{
    if is_noload_section(section_type) {
        None
    } else {
        Some(vrom)
    }
}

/// Adds what a line stands for to the list of segments.
pub fn apply_lld_entry(segments: &mut Vec<Segment>, entry: LldEntry)
    ensures
        segments_view(final(segments)@) == lld_apply(segments_view(old(segments)@), entry@),
{
    match entry {
        LldEntry::Segment { name, row } => {
            push_segment(
                segments,
                Segment::new(name, row.vram, row.size, Some(row.vrom), Some(row.align)),
            );
        },
        LldEntry::Fill { row } => {
            let fill = match last_section(segments) {
                Some(prev) => {
                    let vrom = loaded_vrom_of(prev.section_type.as_str(), row.vrom);
                    Section::new_impl(
                        fill_path(prev.filepath.as_str()),
                        row.vram,
                        row.size,
                        prev.section_type.as_str(),
                        vrom,
                        None,
                        true,
                    )
                },
                None => {
                    proof {
                        reveal_strlit("");
                        assert(""@ =~= Seq::<char>::empty());
                    }
                    let vrom = loaded_vrom_of("", row.vrom);
                    Section::new_impl(String::new(), row.vram, row.size, "", vrom, None, true)
                },
            };
            push_section(segments, fill);
        },
        LldEntry::Section { filepath, section_type, row } => {
            let vrom = loaded_vrom_of(section_type.as_str(), row.vrom);
            push_section(
                segments,
                Section::new(
                    filepath,
                    row.vram,
                    row.size,
                    section_type.as_str(),
                    vrom,
                    Some(row.align),
                ),
            );
        },
        LldEntry::Symbol { name, row } => {
            let vrom = match last_section(segments) {
                Some(section) => loaded_vrom_of(section.section_type.as_str(), row.vrom),
                None => {
                    return ;
                },
            };
            push_symbol(segments, Symbol::new(name, row.vram, row.size, vrom, Some(row.align)));
        },
        LldEntry::Nothing => {},
    }
}

/// Reads the lines of a map into the list of segments as the map gives it.
pub fn scan_lld_lines(lines: &Vec<String>) -> (r: Vec<Segment>)
    ensures
        segments_view(r@) == lld_scan(texts_of(lines@), lines.len() as int),
{
    let (rests, rows) = split_lld_lines(lines);
    let tables = LldTables::of_rests(&rests);
    let ghost texts = texts_of(rests@);
    let mut segments = new_list();
    let mut i: usize = 0;
    while i < lines.len()
        invariant
            i <= lines.len(),
            rests@.len() == lines@.len(),
            rows@.len() == lines@.len(),
            texts == texts_of(rests@),
            tables.holds(texts),
            forall|j: int|
                0 <= j < lines@.len() ==> match lld_split(#[trigger] lines@[j]@) {
                    Some((rest, row)) => rests@[j]@ == rest && rows@[j] == Some(row),
                    None => rows@[j] is None,
                },
            segments_view(segments@) == lld_scan(texts_of(lines@), i as int),
        decreases lines.len() - i,
    {
        assert(texts_of(lines@)[i as int] == lines@[i as int]@);
        assert(texts[i as int] == rests@[i as int]@);
        let entry = match rows[i] {
            Some(row) => {
                let m = tables.at(i, Ghost(texts));
                classify_lld_line(&m, row)
            },
            None => LldEntry::Nothing,
        };
        apply_lld_entry(&mut segments, entry);
        i += 1;
    }
    segments
}

fn finish_lld_segment(segment: &Segment) -> (r: Segment)
    ensures
        r@ == lld_segment(segment@),
{
    let mut finished = segment.clone_no_sectionlist();
    let mut j: usize = 0;
    let ghost sections = segment@.sections;
    assert(sections_view(finished.sections_list@) =~= lld_sections(sections, 0));
    while j < segment.sections_list.len()
        invariant
            j <= segment.sections_list.len(),
            sections == segment@.sections,
            sections.len() == segment.sections_list.len(),
            finished.name@ == segment.name@,
            finished.vram == segment.vram,
            finished.size == segment.size,
            finished.vrom == segment.vrom,
            finished.align == segment.align,
            sections_view(finished.sections_list@) == lld_sections(sections, j as int),
        decreases segment.sections_list.len() - j,
    {
        let section = &segment.sections_list[j];
        if !section.is_placeholder() {
            let mut done = section.clone();
            complete_symbols(&mut done);
            pair_non_matching_symbols(&mut done);
            let ghost listed = finished.sections_list@;
            finished.sections_list.push(done);
            assert(sections_view(finished.sections_list@) =~= sections_view(listed).push(done@));
        }
        j += 1;
    }
    finished
}

/// Turns the list of segments that a scan built into the finished model:
/// drops the stand-ins and the empty segments, works out the sizes that the
/// map left at zero and pairs the placeholders.
pub fn post_process_segments_lld(temp_segment_list: Vec<Segment>) -> (r: Vec<Segment>)
    ensures
        segments_view(r@) == lld_post_process(segments_view(temp_segment_list@)),
{
    let mut segments_list: Vec<Segment> = Vec::new();
    let mut i: usize = 0;
    let ghost raw = segments_view(temp_segment_list@);
    assert(segments_view(segments_list@) =~= lld_segments(raw, 0));
    while i < temp_segment_list.len()
        invariant
            i <= temp_segment_list.len(),
            raw == segments_view(temp_segment_list@),
            raw.len() == temp_segment_list.len(),
            segments_view(segments_list@) == lld_segments(raw, i as int),
        decreases temp_segment_list.len() - i,
    {
        let segment = &temp_segment_list[i];
        let dropped = (i == 0 && segment.is_placeholder()) || (segment.size == 0
            && segment.sections_list.len() == 0);
        if !dropped {
            let done = finish_lld_segment(segment);
            let ghost listed = segments_list@;
            segments_list.push(done);
            assert(segments_view(segments_list@) =~= segments_view(listed).push(done@));
        }
        i += 1;
    }
    segments_list
}

/// Reads the memory layout out of the text of a map of `ld.lld`.
pub fn parse_lld(text: &str) -> (r: Vec<Segment>)
    ensures
        segments_view(r@) == lld_map(text@),
{
    let lines = lines_of(text);
    let scanned = scan_lld_lines(&lines);
    post_process_segments_lld(scanned)
}

} // verus!
