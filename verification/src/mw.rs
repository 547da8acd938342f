//! Maps written by the Metrowerks linker.
//!
//! Such a map holds one `section layout` block for each segment, with a line
//! for each symbol: where it starts in the segment, its size, its address,
//! its alignment, its name and the object file it comes from. The first line
//! of an object file inside a block names the file's section. A
//! `Memory map:` table, before the blocks or after them, gives each
//! segment's address, size and image offset.

use vstd::prelude::*;
use crate::fixup::{
    lemma_pairing_keeps_places, pair_non_matching_symbols, pair_placeholders, paired_up_to,
};
use crate::gnu::{banned_symbol_name, is_banned_symbol_name};
use crate::pattern::{
    captured_at, captures_of_each, copy_group, group, group_text, groups_view, match_each,
    matched_view, regex_captures, regex_matches,
};
use crate::layout::{ascending, loaded_symbols_have_vrom};
use crate::raw::{
    current_section, every_placed_section, every_section, fresh, ignores_sections,
    last_section, lemma_empty_segment_keeps, lemma_fresh_keeps, lemma_with_section_keeps,
    lemma_with_symbol_keeps, new_list, placed, push_section, push_segment, push_symbol,
    with_section, with_symbol,
};
use crate::search::{last_index, lemma_last_index_is, lemma_last_index_none};
use crate::section::{sections_view, Section, SectionView};
use crate::segment::{segments_view, Segment, SegmentView};
use crate::symbol::{Symbol, SymbolView};
use crate::text::{
    chars_of, find_from, first_occurrence, is_char, lemma_first_occurrence, lines_of,
    rfind_char, split_lines, texts_of,
};
use crate::utils::{hex_value, is_noload_section, noload_name, try_parse_hex};

verus! {

/// The five columns that start a symbol's line. Groups 1 to 4 are the offset
/// in the segment, the size, the address and the alignment; group 5 is the
/// rest of the line.
pub open spec fn mw_row_pattern() -> Seq<char> {
    r"^\s*(?P<starting>[0-9a-fA-F]+)\s+(?P<size>[0-9a-fA-F]+)\s+(?P<vram>[0-9a-fA-F]+)\s+(?P<align>[0-9a-fA-F]+)\s+(?P<subline>.+)"@
}

/// The line that opens a segment's block: group 1 is the segment's name.
pub open spec fn mw_segment_pattern() -> Seq<char> {
    r"^(?P<name>.+) section layout$"@
}

/// A label, which is no symbol.
pub open spec fn mw_label_pattern() -> Seq<char> {
    r"^(?P<label>lbl_[0-9A-F]{8})\s+(?P<filename>.+?)\s*$"@
}

/// A name and the object file it comes from: groups 1 and 2.
pub open spec fn mw_symbol_pattern() -> Seq<char> {
    r"^\s*(?P<name>[^ ]+)\s+(?P<filename>.+?)\s*$"@
}

/// A line of the memory map: groups 1 to 4 are the segment's name, its
/// address, its size and its image offset.
pub open spec fn mw_memory_pattern() -> Seq<char> {
    r"^\s*(?P<name>[^ ]+)\s+(?P<address>[0-9a-fA-F]+)\s+(?P<size>[0-9a-fA-F]+)\s+(?P<offset>[0-9a-fA-F]+)$"@
}

/// The file name that no line of a map can carry.
pub open spec fn mw_no_file() -> Seq<char> {
    "invalid file <>:\"/\\|?*"@
}

/// What the memory map says of one segment.
#[derive(Debug)]
pub struct MwMemoryMapEntry {
    pub name: String,
    pub starting_address: u64,
    pub size: u64,
    pub file_offset: u64,
}

/// The mathematical value of an [`MwMemoryMapEntry`].
pub struct MwMemoryMapEntryView {
    pub name: Seq<char>,
    pub starting_address: u64,
    pub size: u64,
    pub file_offset: u64,
}

impl View for MwMemoryMapEntry {
    type V = MwMemoryMapEntryView;

    open spec fn view(&self) -> MwMemoryMapEntryView {
        MwMemoryMapEntryView {
            name: self.name@,
            starting_address: self.starting_address,
            size: self.size,
            file_offset: self.file_offset,
        }
    }
}

/// The values of a list of entries, in order.
pub open spec fn entries_view(entries: Seq<MwMemoryMapEntry>) -> Seq<MwMemoryMapEntryView> {
    Seq::new(entries.len(), |i: int| entries[i]@)
}

/// The numeric columns of a symbol's line.
#[derive(Debug, Clone, Copy)]
pub struct MwRow {
    pub starting: u64,
    pub size: u64,
    pub vram: u64,
    pub align: u64,
}

/// What one line of a map adds to the model.
#[derive(Debug)]
pub enum MwEntry {
    Symbol { name: String, row: MwRow },
    File { filename: String, section_type: String, row: MwRow },
    Segment { name: String },
    Nothing,
}

/// The mathematical value of an [`MwEntry`].
pub enum MwEntryView {
    Symbol { name: Seq<char>, row: MwRow },
    File { filename: Seq<char>, section_type: Seq<char>, row: MwRow },
    Segment { name: Seq<char> },
    Nothing,
}

impl View for MwEntry {
    type V = MwEntryView;

    open spec fn view(&self) -> MwEntryView {
        match self {
            MwEntry::Symbol { name, row } => MwEntryView::Symbol { name: name@, row: *row },
            MwEntry::File { filename, section_type, row } => MwEntryView::File {
                filename: filename@,
                section_type: section_type@,
                row: *row,
            },
            MwEntry::Segment { name } => MwEntryView::Segment { name: name@ },
            MwEntry::Nothing => MwEntryView::Nothing,
        }
    }
}

/// The part of a map that holds the section layouts: the text from the
/// start of the line in which ` section layout` first occurs. Where that
/// line is the first, or there is none, it is the whole text.
pub open spec fn mw_relevant_text(text: Seq<char>) -> Seq<char> {
    match first_occurrence(text, " section layout"@, 0) {
        Some(at) => match last_index(text.subrange(0, at), is_char('\n')) {
            Some(k) => text.subrange(k + 1, text.len() as int),
            None => text,
        },
        None => text,
    }
}

/// The part of a map that holds the memory map: from `Memory map:` up to
/// `Linker generated symbols:`, or to the end where that is missing; the
/// whole text where there is no `Memory map:`.
pub open spec fn mw_memory_map_text(text: Seq<char>) -> Seq<char> {
    match first_occurrence(text, "Memory map:"@, 0) {
        Some(start) => match first_occurrence(text, "Linker generated symbols:"@, start) {
            Some(end) => text.subrange(start, end),
            None => text.subrange(start, text.len() as int),
        },
        None => text,
    }
}

/// What a line of the memory map says, where it reads as one.
pub open spec fn mw_memory_entry(line: Seq<char>) -> Option<MwMemoryMapEntryView> {
    mw_memory_entry_of(regex_captures(mw_memory_pattern(), line))
}

/// The entries that the first `n` lines give, in order.
pub open spec fn mw_memory_map(lines: Seq<Seq<char>>, n: int) -> Seq<MwMemoryMapEntryView>
    decreases n,
{
    if n <= 0 {
        Seq::empty()
    } else {
        let done = mw_memory_map(lines, n - 1);
        match mw_memory_entry(lines[n - 1]) {
            Some(entry) => done.push(entry),
            None => done,
        }
    }
}

/// The entry is that of the segment `name`.
pub open spec fn entry_named(name: Seq<char>) -> spec_fn(MwMemoryMapEntryView) -> bool {
    |entry: MwMemoryMapEntryView| entry.name == name
}

/// What the memory map says of the segment `name`: the last entry of that
/// name.
pub open spec fn mw_lookup(entries: Seq<MwMemoryMapEntryView>, name: Seq<char>) -> Option<
    MwMemoryMapEntryView,
> {
    match last_index(entries, entry_named(name)) {
        Some(k) => Some(entries[k]),
        None => None,
    }
}

/// The numbers in the four columns, where each reads as hexadecimal.
pub open spec fn mw_row(groups: Seq<Option<Seq<char>>>) -> Option<MwRow> {
    match (
        group_text(groups, 1),
        group_text(groups, 2),
        group_text(groups, 3),
        group_text(groups, 4),
    ) {
        (Some(starting), Some(size), Some(vram), Some(align)) => match (
            hex_value(starting),
            hex_value(size),
            hex_value(vram),
            hex_value(align),
        ) {
            (Some(starting), Some(size), Some(vram), Some(align)) => Some(
                MwRow { starting, size, vram, align },
            ),
            _ => None,
        },
        _ => None,
    }
}

/// What the patterns capture in the rest of a symbol's line.
pub struct MwMatchesView {
    pub label: bool,
    pub symbol: Option<Seq<Option<Seq<char>>>>,
}

/// What the patterns capture in `rest`.
pub open spec fn mw_matches(rest: Seq<char>) -> MwMatchesView {
    MwMatchesView {
        label: regex_matches(mw_label_pattern(), rest),
        symbol: regex_captures(mw_symbol_pattern(), rest),
    }
}

/// What the rest of a symbol's line stands for: nothing where it is a
/// label; a symbol of the object file `current_file` where it names that
/// file; else the first line of another object file.
pub open spec fn mw_classify(current_file: Seq<char>, m: MwMatchesView, row: MwRow)
    -> MwEntryView {
    if m.label {
        MwEntryView::Nothing
    } else {
        match m.symbol {
            Some(groups) => match (group_text(groups, 1), group_text(groups, 2)) {
                (Some(name), Some(filename)) => if filename == current_file {
                    if banned_symbol_name(name) {
                        MwEntryView::Nothing
                    } else {
                        MwEntryView::Symbol { name, row }
                    }
                } else {
                    MwEntryView::File { filename, section_type: name, row }
                },
                _ => MwEntryView::Nothing,
            },
            None => MwEntryView::Nothing,
        }
    }
}

/// What kind of line a line is.
pub enum MwLineView {
    /// The line of a symbol: its numbers and what follows them.
    Row { rest: Seq<char>, row: MwRow },
    /// The line that opens the block of the segment `name`.
    Segment { name: Seq<char> },
    /// Any other line.
    Other,
}

/// What kind of line a line is, given what the pattern of the columns and
/// the pattern of a segment's heading capture on it. A line with columns
/// that do not read as 64-bit numbers is of no kind.
pub open spec fn mw_line_of(
    columns: Option<Seq<Option<Seq<char>>>>,
    heading: Option<Seq<Option<Seq<char>>>>,
) -> MwLineView {
    match columns {
        Some(groups) => match (mw_row(groups), group_text(groups, 5)) {
            (Some(row), Some(rest)) => MwLineView::Row { rest, row },
            _ => MwLineView::Other,
        },
        None => match heading {
            Some(groups) => match group_text(groups, 1) {
                Some(name) => MwLineView::Segment { name },
                None => MwLineView::Other,
            },
            None => MwLineView::Other,
        },
    }
}

/// What kind of line the line `line` is.
pub open spec fn mw_line(line: Seq<char>) -> MwLineView {
    mw_line_of(
        regex_captures(mw_row_pattern(), line),
        regex_captures(mw_segment_pattern(), line),
    )
}

/// What the line `line` adds to the model, given the object file that the
/// scan stands in.
pub open spec fn mw_entry(current_file: Seq<char>, line: Seq<char>) -> MwEntryView {
    match mw_line(line) {
        MwLineView::Row { rest, row } => mw_classify(current_file, mw_matches(rest), row),
        MwLineView::Segment { name } => MwEntryView::Segment { name },
        MwLineView::Other => MwEntryView::Nothing,
    }
}

/// The object file that the scan stands in after a line.
pub open spec fn mw_current_file(current_file: Seq<char>, entry: MwEntryView) -> Seq<char> {
    match entry {
        MwEntryView::File { filename, section_type, row } => filename,
        _ => current_file,
    }
}

/// The image offset of the segment that was read last.
pub open spec fn current_segment_vrom(segments: Seq<SegmentView>) -> Option<u64> {
    if segments.len() == 0 {
        None
    } else {
        segments.last().vrom
    }
}

/// The image offset of what starts `starting` bytes into a segment, in a
/// section of the type `section_type`: none where such a section is not
/// loaded or the segment has no image offset.
pub open spec fn mw_vrom(section_type: Seq<char>, segment_vrom: Option<u64>, starting: u64)
    -> Option<u64> {
    if noload_name(section_type) {
        None
    } else {
        match segment_vrom {
            Some(vrom) => Some(vrom.saturating_add(starting)),
            None => None,
        }
    }
}

/// The segment named `name` as the memory map places it; where the memory
/// map does not list it, the stand-in segment under that name.
pub open spec fn mw_segment_of(entries: Seq<MwMemoryMapEntryView>, name: Seq<char>)
    -> SegmentView {
    match mw_lookup(entries, name) {
        Some(entry) => SegmentView {
            name,
            vram: entry.starting_address,
            size: entry.size,
            vrom: Some(entry.file_offset),
            align: None,
            sections: Seq::empty(),
        },
        None => SegmentView { name, ..SegmentView::placeholder() },
    }
}

/// The list of segments after `entry` has been added. A symbol goes under
/// the section read last, and is left out where there is none. The first
/// line of an object file opens a section unless its size is zero.
pub open spec fn mw_apply(
    segments: Seq<SegmentView>,
    entries: Seq<MwMemoryMapEntryView>,
    entry: MwEntryView,
) -> Seq<SegmentView> {
    match entry {
        MwEntryView::Symbol { name, row } => match current_section(segments) {
            Some(section) => with_symbol(
                segments,
                SymbolView {
                    name,
                    vram: row.vram,
                    size: row.size,
                    vrom: mw_vrom(
                        section.section_type,
                        current_segment_vrom(segments),
                        row.starting,
                    ),
                    align: if row.align > 0 {
                        Some(row.align)
                    } else {
                        None
                    },
                    nonmatching_sym_exists: false,
                },
            ),
            None => segments,
        },
        MwEntryView::File { filename, section_type, row } => if row.size > 0 {
            with_section(
                segments,
                SectionView {
                    filepath: filename,
                    vram: row.vram,
                    size: row.size,
                    section_type,
                    vrom: mw_vrom(section_type, current_segment_vrom(segments), row.starting),
                    align: None,
                    is_fill: false,
                    symbols: Seq::empty(),
                },
            )
        } else {
            segments
        },
        MwEntryView::Segment { name } => segments.push(mw_segment_of(entries, name)),
        MwEntryView::Nothing => segments,
    }
}

/// Where a scan stands: the segments read so far and the object file of
/// the last line.
pub struct MwScan {
    pub segments: Seq<SegmentView>,
    pub current_file: Seq<char>,
}

/// Where the scan stands after the first `n` lines.
pub open spec fn mw_scan(lines: Seq<Seq<char>>, entries: Seq<MwMemoryMapEntryView>, n: int)
    -> MwScan
    decreases n,
{
    if n <= 0 {
        MwScan { segments: fresh(), current_file: mw_no_file() }
    } else {
        let before = mw_scan(lines, entries, n - 1);
        let entry = mw_entry(before.current_file, lines[n - 1]);
        MwScan {
            segments: mw_apply(before.segments, entries, entry),
            current_file: mw_current_file(before.current_file, entry),
        }
    }
}

/// A section as it stands in the finished model: placeholders are paired
/// with their symbols.
pub open spec fn mw_section(section: SectionView) -> SectionView {
    SectionView { symbols: pair_placeholders(section.symbols), ..section }
}

/// The finished sections that stand for the first `j` sections of a
/// segment: each but the stand-ins, in order.
pub open spec fn mw_sections(sections: Seq<SectionView>, j: int) -> Seq<SectionView>
    decreases j,
{
    if j <= 0 {
        Seq::empty()
    } else {
        let done = mw_sections(sections, j - 1);
        if sections[j - 1].is_placeholder() {
            done
        } else {
            done.push(mw_section(sections[j - 1]))
        }
    }
}

/// A segment as it stands in the finished model.
pub open spec fn mw_segment(segment: SegmentView) -> SegmentView {
    SegmentView {
        sections: mw_sections(segment.sections, segment.sections.len() as int),
        ..segment
    }
}

/// The segment at `i` goes into the finished model. The first segment of
/// a scan is left out where it is the stand-in or holds no section; any
/// segment is left out where it is empty.
pub open spec fn mw_keeps(segments: Seq<SegmentView>, i: int) -> bool {
    !(i == 0 && (segments[i].sections.len() == 0 || segments[i].is_placeholder()))
        && !(segments[i].size == 0 && segments[i].sections.len() == 0)
}

/// The finished segments that stand for the first `i` segments of a scan.
pub open spec fn mw_segments(segments: Seq<SegmentView>, i: int) -> Seq<SegmentView>
    decreases i,
{
    if i <= 0 {
        Seq::empty()
    } else {
        let done = mw_segments(segments, i - 1);
        if mw_keeps(segments, i - 1) {
            done.push(mw_segment(segments[i - 1]))
        } else {
            done
        }
    }
}

/// The finished model of a scan.
pub open spec fn mw_post_process(segments: Seq<SegmentView>) -> Seq<SegmentView> {
    mw_segments(segments, segments.len() as int)
}

/// The memory layout that a map of the Metrowerks linker describes. The
/// memory map is taken from the whole text, whether it stands before the
/// section layouts or after them; the layouts are read from the first of
/// them on.
pub open spec fn mw_map(text: Seq<char>) -> Seq<SegmentView> {
    let relevant = mw_relevant_text(text);
    let table = split_lines(mw_memory_map_text(text));
    let entries = mw_memory_map(table, table.len() as int);
    let lines = split_lines(relevant);
    mw_post_process(mw_scan(lines, entries, lines.len() as int).segments)
}

/// Every symbol of the section has an image offset, unless the section is
/// not loaded or its segment has no image offset.
pub open spec fn placed_with_vroms() -> spec_fn(SegmentView, SectionView) -> bool {
    |segment: SegmentView, section: SectionView|
        segment.vrom is Some ==> loaded_symbols_have_vrom(section)
}

/// Whatever holds of the finished form of every section that meets
/// `raw_ok` holds of every section of the finished model, where every
/// section of the scan meets `raw_ok`.
pub proof fn lemma_mw_sections_carry(
    segments: Seq<SegmentView>,
    raw_ok: spec_fn(SegmentView, SectionView) -> bool,
    ok: spec_fn(SegmentView, SectionView) -> bool,
)
    requires
        every_placed_section(segments, raw_ok),
        ignores_sections(ok),
        forall|segment: SegmentView, section: SectionView|
            raw_ok(segment, section) ==> #[trigger] ok(segment, mw_section(section)),
    ensures
        every_placed_section(mw_post_process(segments), ok),
{
    lemma_mw_segments_carry(segments, raw_ok, ok, segments.len() as int);
}

proof fn lemma_mw_segments_carry(
    segments: Seq<SegmentView>,
    raw_ok: spec_fn(SegmentView, SectionView) -> bool,
    ok: spec_fn(SegmentView, SectionView) -> bool,
    i: int,
)
    requires
        every_placed_section(segments, raw_ok),
        ignores_sections(ok),
        forall|segment: SegmentView, section: SectionView|
            raw_ok(segment, section) ==> #[trigger] ok(segment, mw_section(section)),
        0 <= i <= segments.len(),
    ensures
        every_placed_section(mw_segments(segments, i), ok),
    decreases i,
{
    if i > 0 {
        lemma_mw_segments_carry(segments, raw_ok, ok, i - 1);
        if mw_keeps(segments, i - 1) {
            let segment = segments[i - 1];
            assert forall|j: int| 0 <= j < segment.sections.len() implies raw_ok(
                segment,
                segment.sections[j],
            ) by {
                assert(raw_ok(segments[i - 1], segments[i - 1].sections[j]));
            }
            lemma_mw_sections_list_carry(segment, raw_ok, ok, segment.sections.len() as int);
            let finished = mw_segment(segment);
            assert forall|j: int| 0 <= j < finished.sections.len() implies ok(
                finished,
                finished.sections[j],
            ) by {
                assert(ok(segment, finished.sections[j]));
                assert(finished == SegmentView { sections: finished.sections, ..segment });
            }
            lemma_empty_segment_keeps(mw_segments(segments, i - 1), finished, ok);
        }
    }
}

proof fn lemma_mw_sections_list_carry(
    segment: SegmentView,
    raw_ok: spec_fn(SegmentView, SectionView) -> bool,
    ok: spec_fn(SegmentView, SectionView) -> bool,
    j: int,
)
    requires
        forall|k: int| 0 <= k < segment.sections.len() ==> raw_ok(segment, segment.sections[k]),
        forall|segment: SegmentView, section: SectionView|
            raw_ok(segment, section) ==> #[trigger] ok(segment, mw_section(section)),
        0 <= j <= segment.sections.len(),
    ensures
        forall|k: int|
            0 <= k < mw_sections(segment.sections, j).len() ==> ok(
                segment,
                #[trigger] mw_sections(segment.sections, j)[k],
            ),
    decreases j,
{
    if j > 0 {
        lemma_mw_sections_list_carry(segment, raw_ok, ok, j - 1);
        let done = mw_sections(segment.sections, j - 1);
        let all = mw_sections(segment.sections, j);
        assert(raw_ok(segment, segment.sections[j - 1]));
        assert(ok(segment, mw_section(segment.sections[j - 1])));
        assert forall|k: int| 0 <= k < all.len() implies ok(segment, #[trigger] all[k]) by {
            if k < done.len() {
                assert(all[k] == done[k]);
            }
        }
    }
}

/// Finishing a section keeps the number and the order of its symbols and
/// their names, addresses and image offsets.
pub proof fn lemma_mw_section_keeps_places(section: SectionView)
    ensures
        mw_section(section).symbols.len() == section.symbols.len(),
        forall|i: int|
            0 <= i < section.symbols.len() ==> {
                let after = #[trigger] mw_section(section).symbols[i];
                &&& after.name == section.symbols[i].name
                &&& after.vram == section.symbols[i].vram
                &&& after.vrom == section.symbols[i].vrom
            },
{
    let symbols = section.symbols;
    lemma_pairing_keeps_places(symbols, symbols.len() as int);
    assert forall|i: int| 0 <= i < symbols.len() implies {
        let after = #[trigger] mw_section(section).symbols[i];
        &&& after.name == section.symbols[i].name
        &&& after.vram == section.symbols[i].vram
        &&& after.vrom == section.symbols[i].vrom
    } by {
        assert(paired_up_to(symbols, symbols.len() as int)[i].vram == symbols[i].vram);
    }
}

/// Sections whose symbols a map lists in ascending order of address have
/// them in ascending order in the finished model.
pub proof fn lemma_mw_model_ascends(segments: Seq<SegmentView>)
    requires
        every_section(segments, ascending()),
    ensures
        every_section(mw_post_process(segments), ascending()),
{
    assert forall|segment: SegmentView, section: SectionView|
        placed(ascending())(segment, section) implies #[trigger] placed(ascending())(
        segment,
        mw_section(section),
    ) by {
        lemma_mw_section_keeps_places(section);
    }
    lemma_mw_sections_carry(segments, placed(ascending()), placed(ascending()));
}

/// While a map is read, in a segment that has an image offset, every symbol
/// of a loaded section has one.
pub proof fn lemma_mw_scan_has_vroms(
    lines: Seq<Seq<char>>,
    entries: Seq<MwMemoryMapEntryView>,
    n: int,
)
    ensures
        every_placed_section(mw_scan(lines, entries, n).segments, placed_with_vroms()),
    decreases n,
{
    let ok = placed_with_vroms();
    if n <= 0 {
        lemma_fresh_keeps(ok);
    } else {
        lemma_mw_scan_has_vroms(lines, entries, n - 1);
        let state = mw_scan(lines, entries, n - 1);
        let before = state.segments;
        match mw_entry(state.current_file, lines[n - 1]) {
            MwEntryView::Symbol { name, row } => {
                match current_section(before) {
                    Some(section) => {
                        let symbol = SymbolView {
                            name,
                            vram: row.vram,
                            size: row.size,
                            vrom: mw_vrom(
                                section.section_type,
                                current_segment_vrom(before),
                                row.starting,
                            ),
                            align: if row.align > 0 {
                                Some(row.align)
                            } else {
                                None
                            },
                            nonmatching_sym_exists: false,
                        };
                        let last = before.last();
                        assert(ok(last, last.sections[last.sections.len() - 1]));
                        lemma_with_symbol_keeps(before, symbol, ok);
                    },
                    None => {},
                }
            },
            MwEntryView::File { filename, section_type, row } => {
                if row.size > 0 {
                    let section = SectionView {
                        filepath: filename,
                        vram: row.vram,
                        size: row.size,
                        section_type,
                        vrom: mw_vrom(section_type, current_segment_vrom(before), row.starting),
                        align: None,
                        is_fill: false,
                        symbols: Seq::empty(),
                    };
                    lemma_with_section_keeps(before, section, ok);
                }
            },
            MwEntryView::Segment { name } => {
                lemma_empty_segment_keeps(before, mw_segment_of(entries, name), ok);
            },
            MwEntryView::Nothing => {},
        }
    }
}

/// In the model of a map, in a segment that has an image offset, every
/// symbol of a loaded section has one.
pub proof fn lemma_mw_map_has_vroms(text: Seq<char>)
    ensures
        every_placed_section(mw_map(text), placed_with_vroms()),
{
    let relevant = mw_relevant_text(text);
    let table = split_lines(mw_memory_map_text(text));
    let entries = mw_memory_map(table, table.len() as int);
    let lines = split_lines(relevant);
    lemma_mw_scan_has_vroms(lines, entries, lines.len() as int);
    assert forall|segment: SegmentView, section: SectionView|
        placed_with_vroms()(segment, section) implies #[trigger] placed_with_vroms()(
        segment,
        mw_section(section),
    ) by {
        lemma_mw_section_keeps_places(section);
    }
    lemma_mw_sections_carry(
        mw_scan(lines, entries, lines.len() as int).segments,
        placed_with_vroms(),
        placed_with_vroms(),
    );
}

/// The part of a map that holds the section layouts.
pub fn mw_relevant(text: &str) -> (r: &str)
    ensures
        r@ == mw_relevant_text(text@),
{
    let chars = chars_of(text);
    let marker = chars_of(" section layout");
    match find_from(&chars, &marker, 0) {
        Some(at) => {
            proof {
                lemma_first_occurrence(text@, " section layout"@, 0);
            }
            match rfind_char(&chars, at, '\n') {
                Some(k) => text.substring_char(k + 1, chars.len()),
                None => text,
            }
        },
        None => text,
    }
}

/// The part of a map that holds the memory map.
pub fn mw_memory_map_part(text: &str) -> (r: &str)
    ensures
        r@ == mw_memory_map_text(text@),
{
    let chars = chars_of(text);
    let opening = chars_of("Memory map:");
    let closing = chars_of("Linker generated symbols:");
    match find_from(&chars, &opening, 0) {
        Some(start) => {
            proof {
                lemma_first_occurrence(text@, "Memory map:"@, 0);
            }
            match find_from(&chars, &closing, start) {
                Some(end) => {
                    proof {
                        lemma_first_occurrence(text@, "Linker generated symbols:"@, start as int);
                    }
                    text.substring_char(start, end)
                },
                None => text.substring_char(start, chars.len()),
            }
        },
        None => text,
    }
}

/// What a line of the memory map says, given what the pattern of such a
/// line captures on it.
pub open spec fn mw_memory_entry_of(found: Option<Seq<Option<Seq<char>>>>) -> Option<
    MwMemoryMapEntryView,
> {
    match found {
        Some(groups) => match (
            group_text(groups, 1),
            group_text(groups, 2),
            group_text(groups, 3),
            group_text(groups, 4),
        ) {
            (Some(name), Some(address), Some(size), Some(offset)) => match (
                hex_value(address),
                hex_value(size),
                hex_value(offset),
            ) {
                (Some(starting_address), Some(size), Some(file_offset)) => Some(
                    MwMemoryMapEntryView { name, starting_address, size, file_offset },
                ),
                _ => None,
            },
            _ => None,
        },
        None => None,
    }
}

/// Reads a line of the memory map, given what the pattern of such a line
/// captured on it.
pub fn read_mw_memory_line(found: Option<&Vec<Option<String>>>) -> (r: Option<MwMemoryMapEntry>)
    ensures
        match r {
            Some(entry) => mw_memory_entry_of(matched_view(found)) == Some(entry@),
            None => mw_memory_entry_of(matched_view(found)) is None,
        },
{
    let groups = match found {
        Some(groups) => groups,
        None => {
            return None;
        },
    };
    match (copy_group(groups, 1), group(groups, 2), group(groups, 3), group(groups, 4)) {
        (Some(name), Some(address), Some(size), Some(offset)) => match (
            try_parse_hex(address.as_str()),
            try_parse_hex(size.as_str()),
            try_parse_hex(offset.as_str()),
        ) {
            (Some(starting_address), Some(size), Some(file_offset)) => Some(
                MwMemoryMapEntry { name, starting_address, size, file_offset },
            ),
            _ => None,
        },
        _ => None,
    }
}

/// Reads the lines of a memory map.
pub fn parse_memory_map_mw(lines: &Vec<String>) -> (r: Vec<MwMemoryMapEntry>)
    ensures
        entries_view(r@) == mw_memory_map(texts_of(lines@), lines.len() as int),
{
    let found = match_each(
        r"^\s*(?P<name>[^ ]+)\s+(?P<address>[0-9a-fA-F]+)\s+(?P<size>[0-9a-fA-F]+)\s+(?P<offset>[0-9a-fA-F]+)$",
        lines,
    );
    let mut entries: Vec<MwMemoryMapEntry> = Vec::new();
    let mut i: usize = 0;
    assert(entries_view(entries@) =~= mw_memory_map(texts_of(lines@), 0));
    while i < lines.len()
        invariant
            i <= lines.len(),
            captures_of_each(found@, mw_memory_pattern(), texts_of(lines@)),
            entries_view(entries@) == mw_memory_map(texts_of(lines@), i as int),
        decreases lines.len() - i,
    {
        match read_mw_memory_line(captured_at(&found, i)) {
            Some(entry) => {
                let ghost listed = entries@;
                entries.push(entry);
                assert(entries_view(entries@) =~= entries_view(listed).push(entry@));
            },
            None => {},
        }
        i += 1;
    }
    entries
}

/// What the memory map says of the segment `name`.
pub fn lookup_memory_map<'a>(entries: &'a Vec<MwMemoryMapEntry>, name: &String) -> (r: Option<
    &'a MwMemoryMapEntry,
>)
    ensures
        match r {
            Some(entry) => mw_lookup(entries_view(entries@), name@) == Some(entry@),
            None => mw_lookup(entries_view(entries@), name@) is None,
        },
{
    let ghost views = entries_view(entries@);
    let mut i: usize = entries.len();
    while i > 0
        invariant
            i <= entries.len(),
            views == entries_view(entries@),
            forall|j: int| i <= j < entries.len() ==> !entry_named(name@)(#[trigger] views[j]),
        decreases i,
    {
        i -= 1;
        if entries[i].name == *name {
            proof {
                lemma_last_index_is(views, entry_named(name@), i as int);
            }
            return Some(&entries[i]);
        }
    }
    proof {
        lemma_last_index_none(views, entry_named(name@));
    }
    None
}

fn read_mw_row(groups: &Vec<Option<String>>) -> (r: Option<MwRow>)
    ensures
        r == mw_row(groups_view(groups@)),
{
    match (group(groups, 1), group(groups, 2), group(groups, 3), group(groups, 4)) {
        (Some(starting), Some(size), Some(vram), Some(align)) => match (
            try_parse_hex(starting.as_str()),
            try_parse_hex(size.as_str()),
            try_parse_hex(vram.as_str()),
            try_parse_hex(align.as_str()),
        ) {
            (Some(starting), Some(size), Some(vram), Some(align)) => Some(
                MwRow { starting, size, vram, align },
            ),
            _ => None,
        },
        _ => None,
    }
}

/// What the patterns captured in the rest of a symbol's line.
pub struct MwMatches<'a> {
    pub label: bool,
    pub symbol: Option<&'a Vec<Option<String>>>,
}

impl<'a> View for MwMatches<'a> {
    type V = MwMatchesView;

    open spec fn view(&self) -> MwMatchesView {
        MwMatchesView { label: self.label, symbol: matched_view(self.symbol) }
    }
}

/// What kind of line a line is.
#[derive(Debug)]
pub enum MwLine {
    Row { rest: String, row: MwRow },
    Segment { name: String },
    Other,
}

impl View for MwLine {
    type V = MwLineView;

    open spec fn view(&self) -> MwLineView {
        match self {
            MwLine::Row { rest, row } => MwLineView::Row { rest: rest@, row: *row },
            MwLine::Segment { name } => MwLineView::Segment { name: name@ },
            MwLine::Other => MwLineView::Other,
        }
    }
}

/// Tells what the rest of a symbol's line stands for, given what the
/// patterns captured in it.
pub fn classify_mw_line(current_file: &String, m: &MwMatches, row: MwRow) -> (r: MwEntry)
    ensures
        r@ == mw_classify(current_file@, m@, row),
{
    if m.label {
        return MwEntry::Nothing;
    }
    let groups = match m.symbol {
        Some(groups) => groups,
        None => {
            return MwEntry::Nothing;
        },
    };
    match (copy_group(groups, 1), copy_group(groups, 2)) {
        (Some(name), Some(filename)) => {
            if filename == *current_file {
                if is_banned_symbol_name(&name) {
                    MwEntry::Nothing
                } else {
                    MwEntry::Symbol { name, row }
                }
            } else {
                MwEntry::File { filename, section_type: name, row }
            }
        },
        _ => MwEntry::Nothing,
    }
}

/// Tells what kind of line a line is, given what the pattern of the
/// columns and the pattern of a segment's heading captured on it.
pub fn tell_mw_line(
    columns: Option<&Vec<Option<String>>>,
    heading: Option<&Vec<Option<String>>>,
) -> (r: MwLine)
    ensures
        r@ == mw_line_of(matched_view(columns), matched_view(heading)),
{
    if let Some(groups) = columns {
        return match (read_mw_row(groups), copy_group(groups, 5)) {
            (Some(row), Some(rest)) => MwLine::Row { rest, row },
            _ => MwLine::Other,
        };
    }
    match heading {
        Some(groups) => match copy_group(groups, 1) {
            Some(name) => MwLine::Segment { name },
            None => MwLine::Other,
        },
        None => MwLine::Other,
    }
}

/// The text of each line that the patterns of a symbol are held against:
/// what follows the columns of a symbol's line, and nothing for any other
/// line.
pub open spec fn mw_rest(line: MwLineView) -> Seq<char> {
    match line {
        MwLineView::Row { rest, row } => rest,
        _ => Seq::empty(),
    }
}

/// Tells what kind of line each line is.
fn tell_mw_lines(lines: &Vec<String>) -> (r: (Vec<MwLine>, Vec<String>))
    ensures
        r.0@.len() == lines@.len(),
        r.1@.len() == lines@.len(),
        forall|i: int|
            0 <= i < lines@.len() ==> (#[trigger] r.0@[i])@ == mw_line(lines@[i]@) && r.1@[i]@
                == mw_rest(mw_line(lines@[i]@)),
{
    let columns = match_each(
        r"^\s*(?P<starting>[0-9a-fA-F]+)\s+(?P<size>[0-9a-fA-F]+)\s+(?P<vram>[0-9a-fA-F]+)\s+(?P<align>[0-9a-fA-F]+)\s+(?P<subline>.+)",
        lines,
    );
    let headings = match_each(r"^(?P<name>.+) section layout$", lines);
    let mut kinds: Vec<MwLine> = Vec::new();
    let mut rests: Vec<String> = Vec::new();
    let mut i: usize = 0;
    while i < lines.len()
        invariant
            i <= lines.len(),
            captures_of_each(columns@, mw_row_pattern(), texts_of(lines@)),
            captures_of_each(headings@, mw_segment_pattern(), texts_of(lines@)),
            kinds@.len() == i,
            rests@.len() == i,
            forall|j: int|
                0 <= j < i ==> (#[trigger] kinds@[j])@ == mw_line(lines@[j]@) && rests@[j]@
                    == mw_rest(mw_line(lines@[j]@)),
        decreases lines.len() - i,
    {
        assert(texts_of(lines@)[i as int] == lines@[i as int]@);
        let kind = tell_mw_line(captured_at(&columns, i), captured_at(&headings, i));
        let rest = match &kind {
            MwLine::Row { rest, .. } => rest.clone(),
            _ => String::new(),
        };
        kinds.push(kind);
        rests.push(rest);
        i += 1;
    }
    (kinds, rests)
}

/// What each pattern of a symbol captures in what follows the columns of
/// each line.
pub struct MwTables {
    label: Vec<Option<Vec<Option<String>>>>,
    symbol: Vec<Option<Vec<Option<String>>>>,
}

impl MwTables {
    /// The tables hold what the patterns capture in the texts `rests`.
    pub closed spec fn holds(&self, rests: Seq<Seq<char>>) -> bool {
        &&& captures_of_each(self.label@, mw_label_pattern(), rests)
        &&& captures_of_each(self.symbol@, mw_symbol_pattern(), rests)
    }

    /// Matches every pattern against every text.
    pub fn of_rests(rests: &Vec<String>) -> (r: Self)
        ensures
            r.holds(texts_of(rests@)),
    {
        MwTables {
            label: match_each(r"^(?P<label>lbl_[0-9A-F]{8})\s+(?P<filename>.+?)\s*$", rests),
            symbol: match_each(r"^\s*(?P<name>[^ ]+)\s+(?P<filename>.+?)\s*$", rests),
        }
    }

    fn at(&self, i: usize, Ghost(rests): Ghost<Seq<Seq<char>>>) -> (r: MwMatches)
        requires
            self.holds(rests),
            i < rests.len(),
        ensures
            r@ == mw_matches(rests[i as int]),
    {
        MwMatches {
            label: captured_at(&self.label, i).is_some(),
            symbol: captured_at(&self.symbol, i),
        }
    }
}

fn entry_of_line(current_file: &String, kind: &MwLine, m: &MwMatches) -> (r: MwEntry)
    requires
        m@ == mw_matches(mw_rest(kind@)),
    ensures
        r@ == match kind@ {
            MwLineView::Row { rest, row } => mw_classify(current_file@, mw_matches(rest), row),
            MwLineView::Segment { name } => MwEntryView::Segment { name },
            MwLineView::Other => MwEntryView::Nothing,
        },
{
    match kind {
        MwLine::Row { rest, row } => classify_mw_line(current_file, m, *row),
        MwLine::Segment { name } => MwEntry::Segment { name: name.clone() },
        MwLine::Other => MwEntry::Nothing,
    }
}

/// Reads one line of a map, given the object file that the scan stands in.
pub fn read_mw_line(current_file: &String, line: &str) -> (r: MwEntry)
    ensures
        r@ == mw_entry(current_file@, line@),
{
    let mut lines: Vec<String> = Vec::new();
    lines.push(line.to_owned());
    let (kinds, rests) = tell_mw_lines(&lines);
    assert(lines@[0]@ == line@);
    let tables = MwTables::of_rests(&rests);
    let ghost texts = texts_of(rests@);
    assert(texts[0] == rests@[0]@);
    let m = tables.at(0, Ghost(texts));
    entry_of_line(current_file, &kinds[0], &m)
}

fn mw_vrom_of(section_type: &str, segment_vrom: Option<u64>, starting: u64) -> (r: Option<u64>)
    ensures
        r == mw_vrom(section_type@, segment_vrom, starting),
{
    if is_noload_section(section_type) {
        None
    } else {
        match segment_vrom {
            Some(vrom) => Some(vrom.saturating_add(starting)),
            None => None,
        }
    }
}

fn last_segment_vrom(segments: &Vec<Segment>) -> (r: Option<u64>)
    ensures
        r == current_segment_vrom(segments_view(segments@)),
{
    if segments.len() == 0 {
        None
    } else {
        segments[segments.len() - 1].vrom
    }
}

/// Adds what a line stands for to the list of segments.
pub fn apply_mw_entry(
    segments: &mut Vec<Segment>,
    memory_map: &Vec<MwMemoryMapEntry>,
    entry: MwEntry,
)
    ensures
        segments_view(final(segments)@) == mw_apply(
            segments_view(old(segments)@),
            entries_view(memory_map@),
            entry@,
        ),
{
    match entry {
        MwEntry::Symbol { name, row } => {
            let segment_vrom = last_segment_vrom(segments);
            let vrom = match last_section(segments) {
                Some(section) => mw_vrom_of(
                    section.section_type.as_str(),
                    segment_vrom,
                    row.starting,
                ),
                None => {
                    return ;
                },
            };
            let align = if row.align > 0 {
                Some(row.align)
            } else {
                None
            };
            push_symbol(segments, Symbol::new(name, row.vram, row.size, vrom, align));
        },
        MwEntry::File { filename, section_type, row } => {
            if row.size > 0 {
                let vrom = mw_vrom_of(
                    section_type.as_str(),
                    last_segment_vrom(segments),
                    row.starting,
                );
                push_section(
                    segments,
                    Section::new(filename, row.vram, row.size, section_type.as_str(), vrom, None),
                );
            }
        },
        MwEntry::Segment { name } => {
            let segment = match lookup_memory_map(memory_map, &name) {
                Some(entry) => Segment::new_default(
                    name,
                    entry.starting_address,
                    entry.size,
                    Some(entry.file_offset),
                ),
                None => {
                    let mut stand_in = Segment::new_placeholder();
                    stand_in.name = name;
                    stand_in
                },
            };
            push_segment(segments, segment);
        },
        MwEntry::Nothing => {},
    }
}

/// Reads the lines of a map into the list of segments as the map gives it.
pub fn scan_mw_lines(lines: &Vec<String>, memory_map: &Vec<MwMemoryMapEntry>) -> (r: Vec<
    Segment,
>)
    ensures
        segments_view(r@) == mw_scan(
            texts_of(lines@),
            entries_view(memory_map@),
            lines.len() as int,
        ).segments,
{
    let (kinds, rests) = tell_mw_lines(lines);
    let tables = MwTables::of_rests(&rests);
    let ghost texts = texts_of(rests@);
    let mut segments = new_list();
    let mut current_file = "invalid file <>:\"/\\|?*".to_owned();
    let mut i: usize = 0;
    while i < lines.len()
        invariant
            i <= lines.len(),
            kinds@.len() == lines@.len(),
            rests@.len() == lines@.len(),
            texts == texts_of(rests@),
            tables.holds(texts),
            forall|j: int|
                0 <= j < lines@.len() ==> (#[trigger] kinds@[j])@ == mw_line(lines@[j]@)
                    && rests@[j]@ == mw_rest(mw_line(lines@[j]@)),
            segments_view(segments@) == mw_scan(
                texts_of(lines@),
                entries_view(memory_map@),
                i as int,
            ).segments,
            current_file@ == mw_scan(
                texts_of(lines@),
                entries_view(memory_map@),
                i as int,
            ).current_file,
        decreases lines.len() - i,
    {
        assert(texts_of(lines@)[i as int] == lines@[i as int]@);
        assert(texts[i as int] == rests@[i as int]@);
        assert(kinds@[i as int]@ == mw_line(lines@[i as int]@));
        let m = tables.at(i, Ghost(texts));
        let entry = entry_of_line(&current_file, &kinds[i], &m);
        match &entry {
            MwEntry::File { filename, .. } => {
                current_file = filename.clone();
            },
            _ => {},
        }
        apply_mw_entry(&mut segments, memory_map, entry);
        i += 1;
    }
    segments
}

fn finish_mw_segment(segment: &Segment) -> (r: Segment)
    ensures
        r@ == mw_segment(segment@),
{
    let mut finished = segment.clone_no_sectionlist();
    let mut j: usize = 0;
    let ghost sections = segment@.sections;
    assert(sections_view(finished.sections_list@) =~= mw_sections(sections, 0));
    while j < segment.sections_list.len()
        invariant
            j <= segment.sections_list.len(),
            sections == segment@.sections,
            sections.len() == segment.sections_list.len(),
            finished.name@ == segment.name@,
            finished.vram == segment.vram,
            finished.size == segment.size,
            finished.vrom == segment.vrom,
            finished.align == segment.align,
            sections_view(finished.sections_list@) == mw_sections(sections, j as int),
        decreases segment.sections_list.len() - j,
    {
        let section = &segment.sections_list[j];
        if !section.is_placeholder() {
            let mut done = section.clone();
            pair_non_matching_symbols(&mut done);
            let ghost listed = finished.sections_list@;
            finished.sections_list.push(done);
            assert(sections_view(finished.sections_list@) =~= sections_view(listed).push(done@));
        }
        j += 1;
    }
    finished
}

/// Turns the list of segments that a scan built into the finished model:
/// drops the stand-ins and the empty segments, and pairs the placeholders.
pub fn post_process_segments_mw(temp_segment_list: Vec<Segment>) -> (r: Vec<Segment>)
    ensures
        segments_view(r@) == mw_post_process(segments_view(temp_segment_list@)),
{
    let mut segments_list: Vec<Segment> = Vec::new();
    let mut i: usize = 0;
    let ghost raw = segments_view(temp_segment_list@);
    assert(segments_view(segments_list@) =~= mw_segments(raw, 0));
    while i < temp_segment_list.len()
        invariant
            i <= temp_segment_list.len(),
            raw == segments_view(temp_segment_list@),
            raw.len() == temp_segment_list.len(),
            segments_view(segments_list@) == mw_segments(raw, i as int),
        decreases temp_segment_list.len() - i,
    {
        let segment = &temp_segment_list[i];
        let dropped = (i == 0 && (segment.sections_list.len() == 0 || segment.is_placeholder()))
            || (segment.size == 0 && segment.sections_list.len() == 0);
        if !dropped {
            let done = finish_mw_segment(segment);
            let ghost listed = segments_list@;
            segments_list.push(done);
            assert(segments_view(segments_list@) =~= segments_view(listed).push(done@));
        }
        i += 1;
    }
    segments_list
}

/// Reads the memory layout out of the text of a map of the Metrowerks
/// linker.
pub fn parse_mw(text: &str) -> (r: Vec<Segment>)
    ensures
        segments_view(r@) == mw_map(text@),
{
    let relevant = mw_relevant(text);
    let table = lines_of(mw_memory_map_part(text));
    let memory_map = parse_memory_map_mw(&table);
    let lines = lines_of(relevant);
    let scanned = scan_mw_lines(&lines, &memory_map);
    post_process_segments_mw(scanned)
}

} // verus!
