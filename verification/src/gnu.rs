//! Maps written by GNU `ld`.
//!
//! After the line `Linker script and memory map` and the line that follows
//! it, such a map lists each output segment on a line that starts at the
//! margin, each input section below it on an indented line with address,
//! size and object file, and each symbol below its section on a line of
//! sixteen columns of indentation, the address and the name. Padding shows
//! as a `*fill*` line.
//!
//! Reading goes in three steps: the text is cut to the part that lists the
//! layout and split into lines; the lines are scanned into a list of
//! segments as the map gives them; and that list is turned into the
//! finished model, in which sizes and image offsets are worked out.

use vstd::prelude::*;
use crate::fixup::{
    lemma_pairing_keeps_places, lemma_pairing_keeps_total, lemma_sharing_by_names_and_addresses,
    pair_non_matching_symbols, pair_placeholders, paired_up_to, sizes_fill_section, well_listed,
};
use crate::layout::{
    addresses_ascend, ascending, leading_gap, lemma_advance_ascending, lemma_measured_one_size,
    lemma_measured_sizes_fill_section,
    loaded_symbols_have_vrom, measure_symbols, measured_symbols, with_vroms,
};
use crate::paths::{fill_path, fill_path_of};
use crate::pattern::{
    captured_at, captured_view, captures, captures_of_each, copy_group, group, group_text,
    groups_view, match_each, matched_view, regex_captures, regex_matches,
};
use crate::raw::{
    current_section, every_section, fresh, grown_section, last_section,
    lemma_empty_segment_keeps, lemma_fresh_keeps, lemma_with_section_keeps,
    lemma_with_symbol_keeps, new_list, placed, push_section, push_segment, push_symbol,
    with_section, with_symbol,
};
use crate::section::{sections_view, Section, SectionView};
use crate::segment::{segments_view, Segment, SegmentView};
use crate::symbol::{Symbol, SymbolView};
use crate::text::{
    chars_of, find_from, first_occurrence, has_prefix, lemma_first_occurrence, occurs_at,
    lines_of, split_lines, starts_with, texts_of,
};
use crate::utils::{hex_value, try_parse_hex};

verus! {

/// A section's name alone on its line, where the name left no room for
/// the rest. Group 1 is the name.
pub open spec fn section_alone_pattern() -> Seq<char> {
    r"^\s+(?P<section>[^*][^\s]+)\s*$"@
}

/// A section with its address, its size and its object file. Group 1 is the
/// section's name, which is empty where it stood alone on the line before;
/// groups 3, 4 and 5 are the address, the size and the object file.
pub open spec fn section_data_pattern() -> Seq<char> {
    r"^\s+(?P<section>([^*][^\s]+)?)\s+(?P<vram>0x[^\s]+)\s+(?P<size>0x[^\s]+)\s+(?P<name>[^\s]+)$"@
}

/// A symbol: group 1 is the address, group 2 the name.
pub open spec fn function_pattern() -> Seq<char> {
    r"^\s+(?P<vram>0x[^\s]+)\s+(?P<name>[^\s]+)$"@
}

/// The label of a jump table, which is no symbol.
pub open spec fn label_pattern() -> Seq<char> {
    r"(?P<name>\.?L[0-9A-F]{8})$"@
}

/// Padding: group 3 is its size.
pub open spec fn fill_pattern() -> Seq<char> {
    r"^\s+(?P<fill>\*[^\s\*]+\*)\s+(?P<vram>0x[^\s]+)\s+(?P<size>0x[^\s]+)\s+(?P<fillValue>[0-9a-zA-Z]*)$"@
}

/// A segment with a load address. Group 1 is the name, which is empty where
/// it stood alone on the line before; groups 3, 4 and 7 are the address, the
/// size and the load address.
pub open spec fn segment_pattern() -> Seq<char> {
    r"(?P<name>([^\s]+)?)\s+(?P<vram>0x[^\s]+)\s+(?P<size>0x[^\s]+)\s+(?P<loadaddress>(load address)?)\s+(?P<vrom>0x[^\s]+)$"@
}

/// A segment without a load address. Group 1 is the name, groups 3 and 4 the
/// address and the size.
pub open spec fn romless_segment_pattern() -> Seq<char> {
    r"(?P<name>([^\s]+)?)\s+(?P<vram>0x[^\s]+)\s+(?P<size>0x[^\s]+)$"@
}

/// The name that a compiler leaves behind and that is no symbol.
pub open spec fn banned_symbol_name(name: Seq<char>) -> bool {
    name == "gcc2_compiled."@
}

/// Whether `name` is a name that is never taken for a symbol.
pub fn is_banned_symbol_name(name: &String) -> (r: bool)
    ensures
        r == banned_symbol_name(name@),
{
    let banned = "gcc2_compiled.".to_owned();
    *name == banned
}

/// What one line of a map adds to the model.
#[derive(Debug)]
pub enum GnuEntry {
    Symbol { name: String, vram: u64 },
    Section { filepath: String, vram: u64, size: u64, section_type: String },
    Segment { name: String, vram: u64, size: u64, vrom: Option<u64> },
    Fill { size: u64 },
    Nothing,
}

/// The mathematical value of a [`GnuEntry`].
pub enum GnuEntryView {
    Symbol { name: Seq<char>, vram: u64 },
    Section { filepath: Seq<char>, vram: u64, size: u64, section_type: Seq<char> },
    Segment { name: Seq<char>, vram: u64, size: u64, vrom: Option<u64> },
    Fill { size: u64 },
    Nothing,
}

impl View for GnuEntry {
    type V = GnuEntryView;

    open spec fn view(&self) -> GnuEntryView {
        match self {
            GnuEntry::Symbol { name, vram } => GnuEntryView::Symbol { name: name@, vram: *vram },
            GnuEntry::Section { filepath, vram, size, section_type } => GnuEntryView::Section {
                filepath: filepath@,
                vram: *vram,
                size: *size,
                section_type: section_type@,
            },
            GnuEntry::Segment { name, vram, size, vrom } => GnuEntryView::Segment {
                name: name@,
                vram: *vram,
                size: *size,
                vrom: *vrom,
            },
            GnuEntry::Fill { size } => GnuEntryView::Fill { size: *size },
            GnuEntry::Nothing => GnuEntryView::Nothing,
        }
    }
}

/// The line is indented far enough to belong to the section above it.
pub open spec fn is_indented(line: Seq<char>) -> bool {
    has_prefix(line, "        "@)
}

/// What the patterns capture on one line, and what the pattern of a lone
/// section name captures on the line before it.
pub struct GnuMatchesView {
    pub label: bool,
    pub function: Option<Seq<Option<Seq<char>>>>,
    pub section: Option<Seq<Option<Seq<char>>>>,
    pub section_before: Option<Seq<Option<Seq<char>>>>,
    pub segment: Option<Seq<Option<Seq<char>>>>,
    pub romless_segment: Option<Seq<Option<Seq<char>>>>,
    pub fill: Option<Seq<Option<Seq<char>>>>,
}

/// What the patterns capture on the line `line`, which follows the line
/// `prev_line`.
pub open spec fn gnu_matches(prev_line: Seq<char>, line: Seq<char>) -> GnuMatchesView {
    GnuMatchesView {
        label: regex_matches(label_pattern(), line),
        function: regex_captures(function_pattern(), line),
        section: regex_captures(section_data_pattern(), line),
        section_before: regex_captures(section_alone_pattern(), prev_line),
        segment: regex_captures(segment_pattern(), line),
        romless_segment: regex_captures(romless_segment_pattern(), line),
        fill: regex_captures(fill_pattern(), line),
    }
}

/// What a line inside a section adds: a symbol, unless the line is a label,
/// carries a banned name, or does not read as an address and a name.
pub open spec fn gnu_symbol_entry(m: GnuMatchesView) -> GnuEntryView {
    if m.label {
        GnuEntryView::Nothing
    } else {
        match m.function {
            Some(groups) => match (group_text(groups, 1), group_text(groups, 2)) {
                (Some(vram), Some(name)) => match hex_value(vram) {
                    Some(vram) => if banned_symbol_name(name) {
                        GnuEntryView::Nothing
                    } else {
                        GnuEntryView::Symbol { name, vram }
                    },
                    None => GnuEntryView::Nothing,
                },
                _ => GnuEntryView::Nothing,
            },
            None => GnuEntryView::Nothing,
        }
    }
}

/// The section that a section line opens. A section of size zero is left
/// out. A line without a section name takes the name from the line before
/// it, and is left out where that line holds no name.
pub open spec fn gnu_section_entry(
    groups: Seq<Option<Seq<char>>>,
    section_before: Option<Seq<Option<Seq<char>>>>,
) -> GnuEntryView {
    match (
        group_text(groups, 1),
        group_text(groups, 3),
        group_text(groups, 4),
        group_text(groups, 5),
    ) {
        (Some(section_type), Some(vram), Some(size), Some(filepath)) => match (
            hex_value(vram),
            hex_value(size),
        ) {
            (Some(vram), Some(size)) => if size == 0 {
                GnuEntryView::Nothing
            } else if section_type.len() > 0 {
                GnuEntryView::Section { filepath, vram, size, section_type }
            } else {
                match section_before {
                    Some(alone) => match group_text(alone, 1) {
                        Some(section_type) => GnuEntryView::Section {
                            filepath,
                            vram,
                            size,
                            section_type,
                        },
                        None => GnuEntryView::Nothing,
                    },
                    None => GnuEntryView::Nothing,
                }
            },
            _ => GnuEntryView::Nothing,
        },
        _ => GnuEntryView::Nothing,
    }
}

/// The segment that a segment line opens; `vrom_group` is the group of the
/// load address, where the line has one. A line without a name takes the
/// whole line before it as the name.
pub open spec fn gnu_segment_entry(
    prev_line: Seq<char>,
    groups: Seq<Option<Seq<char>>>,
    vrom_group: Option<int>,
) -> GnuEntryView {
    match (group_text(groups, 1), group_text(groups, 3), group_text(groups, 4)) {
        (Some(name), Some(vram), Some(size)) => match (hex_value(vram), hex_value(size)) {
            (Some(vram), Some(size)) => {
                let name = if name.len() == 0 {
                    prev_line
                } else {
                    name
                };
                match vrom_group {
                    Some(g) => match group_text(groups, g) {
                        Some(vrom) => match hex_value(vrom) {
                            Some(vrom) => GnuEntryView::Segment {
                                name,
                                vram,
                                size,
                                vrom: Some(vrom),
                            },
                            None => GnuEntryView::Nothing,
                        },
                        None => GnuEntryView::Nothing,
                    },
                    None => GnuEntryView::Segment { name, vram, size, vrom: None },
                }
            },
            _ => GnuEntryView::Nothing,
        },
        _ => GnuEntryView::Nothing,
    }
}

/// The padding that a fill line stands for.
pub open spec fn gnu_fill_entry(groups: Seq<Option<Seq<char>>>) -> GnuEntryView {
    match group_text(groups, 3) {
        Some(size) => match hex_value(size) {
            Some(size) => GnuEntryView::Fill { size },
            None => GnuEntryView::Nothing,
        },
        None => GnuEntryView::Nothing,
    }
}

/// What a line outside a section adds. The first of these that the line
/// reads as decides: a section, a segment with a load address, a segment
/// without one, padding. A line whose numbers do not read as hexadecimal
/// adds nothing.
pub open spec fn gnu_header_entry(prev_line: Seq<char>, m: GnuMatchesView) -> GnuEntryView {
    match m.section {
        Some(groups) => gnu_section_entry(groups, m.section_before),
        None => match m.segment {
            Some(groups) => gnu_segment_entry(prev_line, groups, Some(7)),
            None => match m.romless_segment {
                Some(groups) => gnu_segment_entry(prev_line, groups, None),
                None => match m.fill {
                    Some(groups) => gnu_fill_entry(groups),
                    None => GnuEntryView::Nothing,
                },
            },
        },
    }
}

/// What a line adds to the model, given what the patterns capture on it,
/// whether the scan stands inside a section, whether the line is indented
/// and what the line before it was.
pub open spec fn gnu_classify(
    in_section: bool,
    indented: bool,
    prev_line: Seq<char>,
    m: GnuMatchesView,
) -> GnuEntryView {
    if in_section && indented {
        gnu_symbol_entry(m)
    } else {
        gnu_header_entry(prev_line, m)
    }
}

/// What the line `line` adds to the model, given whether the scan stands
/// inside a section and what the line before it was.
pub open spec fn gnu_entry(in_section: bool, prev_line: Seq<char>, line: Seq<char>)
    -> GnuEntryView {
    gnu_classify(in_section, is_indented(line), prev_line, gnu_matches(prev_line, line))
}

/// Whether the scan stands inside a section after the line `line`: it stays
/// inside while the lines are indented, and enters with each section line.
pub open spec fn gnu_in_section(in_section: bool, line: Seq<char>, entry: GnuEntryView) -> bool {
    (in_section && is_indented(line)) || entry is Section
}

/// The stand-in for padding after the section `prev`: it starts where that
/// section ends and is of its type. Without a section before it, it has no
/// path, address or type.
pub open spec fn gnu_fill_section(prev: Option<SectionView>, size: u64) -> SectionView {
    match prev {
        Some(prev) => SectionView {
            filepath: fill_path_of(prev.filepath),
            vram: prev.vram.saturating_add(prev.size),
            size,
            section_type: prev.section_type,
            vrom: None,
            align: None,
            is_fill: true,
            symbols: Seq::empty(),
        },
        None => SectionView {
            filepath: Seq::empty(),
            vram: 0,
            size,
            section_type: Seq::empty(),
            vrom: None,
            align: None,
            is_fill: true,
            symbols: Seq::empty(),
        },
    }
}

/// The list of segments after `entry` has been added.
pub open spec fn gnu_apply(segments: Seq<SegmentView>, entry: GnuEntryView) -> Seq<SegmentView> {
    match entry {
        GnuEntryView::Symbol { name, vram } => with_symbol(
            segments,
            SymbolView {
                name,
                vram,
                size: 0,
                vrom: None,
                align: None,
                nonmatching_sym_exists: false,
            },
        ),
        GnuEntryView::Section { filepath, vram, size, section_type } => with_section(
            segments,
            SectionView {
                filepath,
                vram,
                size,
                section_type,
                vrom: None,
                align: None,
                is_fill: false,
                symbols: Seq::empty(),
            },
        ),
        GnuEntryView::Segment { name, vram, size, vrom } => segments.push(
            SegmentView { name, vram, size, vrom, align: None, sections: Seq::empty() },
        ),
        GnuEntryView::Fill { size } => with_section(
            segments,
            gnu_fill_section(current_section(segments), size),
        ),
        GnuEntryView::Nothing => segments,
    }
}

/// Where a scan stands: the segments read so far, and whether the last line
/// was inside a section.
pub struct GnuScan {
    pub segments: Seq<SegmentView>,
    pub in_section: bool,
}

/// Where the scan stands after the first `n` lines.
pub open spec fn gnu_scan(lines: Seq<Seq<char>>, n: int) -> GnuScan
    decreases n,
{
    if n <= 0 {
        GnuScan { segments: fresh(), in_section: false }
    } else {
        let before = gnu_scan(lines, n - 1);
        let prev_line = if n >= 2 {
            lines[n - 2]
        } else {
            Seq::empty()
        };
        let entry = gnu_entry(before.in_section, prev_line, lines[n - 1]);
        GnuScan {
            segments: gnu_apply(before.segments, entry),
            in_section: gnu_in_section(before.in_section, lines[n - 1], entry),
        }
    }
}

/// The part of a map that lists the memory layout. Where a line of the map
/// starts with `Linker script and memory map` and does not end the text, it
/// is what follows the line after the first such line; else it is the whole
/// text.
pub open spec fn gnu_relevant_text(text: Seq<char>) -> Seq<char> {
    match first_occurrence(text, "\nLinker script and memory map"@, 0) {
        Some(marker) => match first_occurrence(text, "\n"@, marker + 1) {
            Some(end) => match first_occurrence(text, "\n"@, end + 1) {
                Some(next) => text.subrange(next + 1, text.len() as int),
                None => Seq::empty(),
            },
            None => text,
        },
        None => text,
    }
}

/// What the patterns captured on one line, and what the pattern of a lone
/// section name captured on the line before it.
pub struct GnuMatches<'a> {
    pub label: bool,
    pub function: Option<&'a Vec<Option<String>>>,
    pub section: Option<&'a Vec<Option<String>>>,
    pub section_before: Option<&'a Vec<Option<String>>>,
    pub segment: Option<&'a Vec<Option<String>>>,
    pub romless_segment: Option<&'a Vec<Option<String>>>,
    pub fill: Option<&'a Vec<Option<String>>>,
}

impl<'a> View for GnuMatches<'a> {
    type V = GnuMatchesView;

    open spec fn view(&self) -> GnuMatchesView {
        GnuMatchesView {
            label: self.label,
            function: matched_view(self.function),
            section: matched_view(self.section),
            section_before: matched_view(self.section_before),
            segment: matched_view(self.segment),
            romless_segment: matched_view(self.romless_segment),
            fill: matched_view(self.fill),
        }
    }
}

fn hex_group(groups: &Vec<Option<String>>, i: usize) -> (r: Option<u64>)
    ensures
        r == match group_text(groups_view(groups@), i as int) {
            Some(s) => hex_value(s),
            None => None,
        },
{
    match group(groups, i) {
        Some(s) => try_parse_hex(s.as_str()),
        None => None,
    }
}

fn read_gnu_symbol(m: &GnuMatches) -> (r: GnuEntry)
    ensures
        r@ == gnu_symbol_entry(m@),
{
    if m.label {
        return GnuEntry::Nothing;
    }
    let groups = match m.function {
        Some(groups) => groups,
        None => {
            return GnuEntry::Nothing;
        },
    };
    let vram_text = group(groups, 1);
    let name = copy_group(groups, 2);
    match (vram_text, name) {
        (Some(vram_text), Some(name)) => match try_parse_hex(vram_text.as_str()) {
            Some(vram) => if is_banned_symbol_name(&name) {
                GnuEntry::Nothing
            } else {
                GnuEntry::Symbol { name, vram }
            },
            None => GnuEntry::Nothing,
        },
        _ => GnuEntry::Nothing,
    }
}

fn read_gnu_section(
    groups: &Vec<Option<String>>,
    section_before: Option<&Vec<Option<String>>>,
) -> (r: GnuEntry)
    ensures
        r@ == gnu_section_entry(groups_view(groups@), matched_view(section_before)),
{
    let section_type = copy_group(groups, 1);
    let vram_text = group(groups, 3);
    let size_text = group(groups, 4);
    let filepath = copy_group(groups, 5);
    match (section_type, vram_text, size_text, filepath) {
        (Some(section_type), Some(vram_text), Some(size_text), Some(filepath)) => {
            match (try_parse_hex(vram_text.as_str()), try_parse_hex(size_text.as_str())) {
                (Some(vram), Some(size)) => {
                    if size == 0 {
                        GnuEntry::Nothing
                    } else if !section_type.as_str().is_empty() {
                        GnuEntry::Section { filepath, vram, size, section_type }
                    } else {
                        match section_before {
                            Some(alone) => match copy_group(alone, 1) {
                                Some(section_type) => GnuEntry::Section {
                                    filepath,
                                    vram,
                                    size,
                                    section_type,
                                },
                                None => GnuEntry::Nothing,
                            },
                            None => GnuEntry::Nothing,
                        }
                    }
                },
                _ => GnuEntry::Nothing,
            }
        },
        _ => GnuEntry::Nothing,
    }
}

fn read_gnu_segment(prev_line: &str, groups: &Vec<Option<String>>, vrom_group: Option<usize>) -> (r:
    GnuEntry)
    ensures
        r@ == gnu_segment_entry(
            prev_line@,
            groups_view(groups@),
            match vrom_group {
                Some(g) => Some(g as int),
                None => None,
            },
        ),
{
    let name = copy_group(groups, 1);
    let vram = hex_group(groups, 3);
    let size = hex_group(groups, 4);
    match (name, group(groups, 3), group(groups, 4)) {
        (Some(name), Some(_), Some(_)) => match (vram, size) {
            (Some(vram), Some(size)) => {
                let name = if name.as_str().is_empty() {
                    prev_line.to_owned()
                } else {
                    name
                };
                match vrom_group {
                    Some(g) => match group(groups, g) {
                        Some(vrom_text) => match try_parse_hex(vrom_text.as_str()) {
                            Some(vrom) => GnuEntry::Segment { name, vram, size, vrom: Some(vrom) },
                            None => GnuEntry::Nothing,
                        },
                        None => GnuEntry::Nothing,
                    },
                    None => GnuEntry::Segment { name, vram, size, vrom: None },
                }
            },
            _ => GnuEntry::Nothing,
        },
        _ => GnuEntry::Nothing,
    }
}

fn read_gnu_header(prev_line: &str, m: &GnuMatches) -> (r: GnuEntry)
    ensures
        r@ == gnu_header_entry(prev_line@, m@),
{
    if let Some(groups) = m.section {
        return read_gnu_section(groups, m.section_before);
    }
    if let Some(groups) = m.segment {
        return read_gnu_segment(prev_line, groups, Some(7));
    }
    if let Some(groups) = m.romless_segment {
        return read_gnu_segment(prev_line, groups, None);
    }
    if let Some(groups) = m.fill {
        return match hex_group(groups, 3) {
            Some(size) => GnuEntry::Fill { size },
            None => GnuEntry::Nothing,
        };
    }
    GnuEntry::Nothing
}

/// Tells what a line adds to the model, given what the patterns captured
/// on it, whether the scan stands inside a section, whether the line is
/// indented and what the line before it was.
pub fn classify_gnu_line(in_section: bool, indented: bool, prev_line: &str, m: &GnuMatches) -> (r:
    GnuEntry)
    ensures
        r@ == gnu_classify(in_section, indented, prev_line@, m@),
{
    if in_section && indented {
        read_gnu_symbol(m)
    } else {
        read_gnu_header(prev_line, m)
    }
}

/// What each pattern captures on each line of a map.
pub struct GnuTables {
    label: Vec<Option<Vec<Option<String>>>>,
    function: Vec<Option<Vec<Option<String>>>>,
    section: Vec<Option<Vec<Option<String>>>>,
    section_alone: Vec<Option<Vec<Option<String>>>>,
    section_alone_at_start: Option<Vec<Option<String>>>,
    segment: Vec<Option<Vec<Option<String>>>>,
    romless_segment: Vec<Option<Vec<Option<String>>>>,
    fill: Vec<Option<Vec<Option<String>>>>,
}

impl GnuTables {
    /// The tables hold what the patterns capture on the lines `lines`.
    pub closed spec fn holds(&self, lines: Seq<Seq<char>>) -> bool {
        &&& captures_of_each(self.label@, label_pattern(), lines)
        &&& captures_of_each(self.function@, function_pattern(), lines)
        &&& captures_of_each(self.section@, section_data_pattern(), lines)
        &&& captures_of_each(self.section_alone@, section_alone_pattern(), lines)
        &&& captured_view(self.section_alone_at_start) == regex_captures(
            section_alone_pattern(),
            Seq::empty(),
        )
        &&& captures_of_each(self.segment@, segment_pattern(), lines)
        &&& captures_of_each(self.romless_segment@, romless_segment_pattern(), lines)
        &&& captures_of_each(self.fill@, fill_pattern(), lines)
    }

    /// Matches every pattern against every line.
    pub fn of_lines(lines: &Vec<String>) -> (r: Self)
        ensures
            r.holds(texts_of(lines@)),
    {
        proof {
            reveal_strlit("");
            assert(""@ =~= Seq::<char>::empty());
        }
        GnuTables {
            label: match_each(r"(?P<name>\.?L[0-9A-F]{8})$", lines),
            function: match_each(r"^\s+(?P<vram>0x[^\s]+)\s+(?P<name>[^\s]+)$", lines),
            section: match_each(
                r"^\s+(?P<section>([^*][^\s]+)?)\s+(?P<vram>0x[^\s]+)\s+(?P<size>0x[^\s]+)\s+(?P<name>[^\s]+)$",
                lines,
            ),
            section_alone: match_each(r"^\s+(?P<section>[^*][^\s]+)\s*$", lines),
            section_alone_at_start: captures(r"^\s+(?P<section>[^*][^\s]+)\s*$", ""),
            segment: match_each(
                r"(?P<name>([^\s]+)?)\s+(?P<vram>0x[^\s]+)\s+(?P<size>0x[^\s]+)\s+(?P<loadaddress>(load address)?)\s+(?P<vrom>0x[^\s]+)$",
                lines,
            ),
            romless_segment: match_each(
                r"(?P<name>([^\s]+)?)\s+(?P<vram>0x[^\s]+)\s+(?P<size>0x[^\s]+)$",
                lines,
            ),
            fill: match_each(
                r"^\s+(?P<fill>\*[^\s\*]+\*)\s+(?P<vram>0x[^\s]+)\s+(?P<size>0x[^\s]+)\s+(?P<fillValue>[0-9a-zA-Z]*)$",
                lines,
            ),
        }
    }

    /// What the patterns captured on the line at position `i`.
    fn at(&self, i: usize, Ghost(lines): Ghost<Seq<Seq<char>>>) -> (r: GnuMatches)
        requires
            self.holds(lines),
            i < lines.len(),
        ensures
            r@ == gnu_matches(
                if i > 0 {
                    lines[i - 1]
                } else {
                    Seq::empty()
                },
                lines[i as int],
            ),
    {
        GnuMatches {
            label: captured_at(&self.label, i).is_some(),
            function: captured_at(&self.function, i),
            section: captured_at(&self.section, i),
            section_before: if i > 0 {
                captured_at(&self.section_alone, i - 1)
            } else {
                self.section_alone_at_start.as_ref()
            },
            segment: captured_at(&self.segment, i),
            romless_segment: captured_at(&self.romless_segment, i),
            fill: captured_at(&self.fill, i),
        }
    }
}

/// Reads one line of a map, given whether the scan stands inside a section
/// and what the line before it was.
pub fn read_gnu_line(in_section: bool, prev_line: &str, line: &str) -> (r: GnuEntry)
    ensures
        r@ == gnu_entry(in_section, prev_line@, line@),
{
    let mut lines: Vec<String> = Vec::new();
    lines.push(prev_line.to_owned());
    lines.push(line.to_owned());
    let tables = GnuTables::of_lines(&lines);
    let ghost texts = texts_of(lines@);
    assert(texts[0] == prev_line@ && texts[1] == line@);
    let m = tables.at(1, Ghost(texts));
    classify_gnu_line(in_section, starts_with(line, "        "), prev_line, &m)
}

/// Adds what a line stands for to the list of segments.
pub fn apply_gnu_entry(segments: &mut Vec<Segment>, entry: GnuEntry)
    ensures
        segments_view(final(segments)@) == gnu_apply(segments_view(old(segments)@), entry@),
{
    match entry {
        GnuEntry::Symbol { name, vram } => {
            push_symbol(segments, Symbol::new_default(name, vram));
        },
        GnuEntry::Section { filepath, vram, size, section_type } => {
            push_section(segments, Section::new_default(filepath, vram, size, section_type.as_str()));
        },
        GnuEntry::Segment { name, vram, size, vrom } => {
            push_segment(segments, Segment::new_default(name, vram, size, vrom));
        },
        GnuEntry::Fill { size } => {
            let fill = match last_section(segments) {
                Some(prev) => Section::new_fill(
                    fill_path(prev.filepath.as_str()),
                    prev.vram.saturating_add(prev.size),
                    size,
                    prev.section_type.as_str(),
                ),
                None => {
                    let r = Section::new_fill(String::new(), 0, size, "");
                    proof {
                        reveal_strlit("");
                        assert(r@.section_type =~= Seq::empty());
                    }
                    r
                },
            };
            push_section(segments, fill);
        },
        GnuEntry::Nothing => {},
    }
}

/// Reads the lines of a map into the list of segments as the map gives it.
pub fn scan_gnu_lines(lines: &Vec<String>) -> (r: Vec<Segment>)
    ensures
        segments_view(r@) == gnu_scan(texts_of(lines@), lines.len() as int).segments,
{
    let tables = GnuTables::of_lines(lines);
    let ghost texts = texts_of(lines@);
    let mut segments = new_list();
    let mut in_section = false;
    let mut i: usize = 0;
    while i < lines.len()
        invariant
            i <= lines.len(),
            texts == texts_of(lines@),
            tables.holds(texts),
            segments_view(segments@) == gnu_scan(texts, i as int).segments,
            in_section == gnu_scan(texts, i as int).in_section,
        decreases lines.len() - i,
    {
        let line = lines[i].as_str();
        let indented = starts_with(line, "        ");
        let m = tables.at(i, Ghost(texts));
        let entry = if i > 0 {
            classify_gnu_line(in_section, indented, lines[i - 1].as_str(), &m)
        } else {
            proof {
                reveal_strlit("");
                assert(""@ =~= Seq::<char>::empty());
            }
            classify_gnu_line(in_section, indented, "", &m)
        };
        let opens_section = match &entry {
            GnuEntry::Section { .. } => true,
            _ => false,
        };
        in_section = (in_section && indented) || opens_section;
        apply_gnu_entry(&mut segments, entry);
        i += 1;
    }
    segments
}

/// The part of a map that lists the memory layout.
pub fn gnu_relevant(text: &str) -> (r: &str)
    ensures
        r@ == gnu_relevant_text(text@),
{
    let chars = chars_of(text);
    let marker = chars_of("\nLinker script and memory map");
    let newline = chars_of("\n");
    proof {
        reveal_strlit("\n");
    }
    match find_from(&chars, &marker, 0) {
        Some(at) => {
            if at >= chars.len() {
                assert(first_occurrence(text@, "\n"@, at + 1) is None);
                return text;
            }
            match find_from(&chars, &newline, at + 1) {
                Some(end) => {
                    proof {
                        lemma_first_occurrence(text@, "\n"@, at + 1);
                        assert(occurs_at(text@, "\n"@, end as int));
                        assert("\n"@.len() == 1);
                    }
                    match find_from(&chars, &newline, end + 1) {
                        Some(next) => {
                            proof {
                                lemma_first_occurrence(text@, "\n"@, end + 1);
                                assert(occurs_at(text@, "\n"@, next as int));
                            }
                            text.substring_char(next + 1, chars.len())
                        },
                        None => text.substring_char(0, 0),
                    }
                },
                None => text,
            }
        },
        None => text,
    }
}

/// The image offset at which a section is placed: the one it carries, else
/// the running offset `offset`.
pub open spec fn gnu_section_base(section: SectionView, offset: u64) -> u64 {
    match section.vrom {
        Some(vrom) => vrom,
        None => offset,
    }
}

/// A section as it stands in the finished model, given the running image
/// offset at which it is reached. A loaded section gets its image offset;
/// every symbol gets its size and, in a loaded section, its image offset;
/// placeholders are paired with their symbols.
pub open spec fn gnu_section(section: SectionView, offset: u64) -> SectionView {
    let base = gnu_section_base(section, offset);
    SectionView {
        vrom: if section.is_noload() {
            section.vrom
        } else {
            Some(base)
        },
        symbols: pair_placeholders(measured_symbols(section, base)),
        ..section
    }
}

/// The running image offset after a section: a loaded section moves it on
/// by its size.
pub open spec fn gnu_offset_after(section: SectionView, offset: u64) -> u64 {
    let base = gnu_section_base(section, offset);
    if section.is_noload() {
        base
    } else {
        base.saturating_add(section.size)
    }
}

/// The section takes no part in the layout: it is a stand-in, or padding.
pub open spec fn gnu_passes_over(section: SectionView) -> bool {
    section.is_placeholder() || section.is_fill
}

/// The running image offset at which the section at `j` is reached, where
/// the segment's first section is reached at `start`. Stand-ins and padding
/// are passed over.
pub open spec fn gnu_offset_at(sections: Seq<SectionView>, start: u64, j: int) -> u64
    decreases j,
{
    if j <= 0 {
        start
    } else {
        let offset = gnu_offset_at(sections, start, j - 1);
        if gnu_passes_over(sections[j - 1]) {
            offset
        } else {
            gnu_offset_after(sections[j - 1], offset)
        }
    }
}

/// `start` moved on by the sizes of the loaded sections before `j`, but for
/// stand-ins and padding.
pub open spec fn gnu_loaded_end(sections: Seq<SectionView>, start: u64, j: int) -> u64
    decreases j,
{
    if j <= 0 {
        start
    } else {
        let end = gnu_loaded_end(sections, start, j - 1);
        if gnu_passes_over(sections[j - 1]) || sections[j - 1].is_noload() {
            end
        } else {
            end.saturating_add(sections[j - 1].size)
        }
    }
}

/// The finished sections that stand for the first `j` sections of a
/// segment, in order: stand-ins are dropped, padding is kept as it is, and
/// every other section is finished.
pub open spec fn gnu_sections(sections: Seq<SectionView>, start: u64, j: int) -> Seq<SectionView>
    decreases j,
{
    if j <= 0 {
        Seq::empty()
    } else {
        let done = gnu_sections(sections, start, j - 1);
        if sections[j - 1].is_placeholder() {
            done
        } else if sections[j - 1].is_fill {
            done.push(sections[j - 1])
        } else {
            done.push(gnu_section(sections[j - 1], gnu_offset_at(sections, start, j - 1)))
        }
    }
}

/// The image offset of a segment: the one the map gives, else the end of
/// what was loaded before it, `rom`.
pub open spec fn gnu_segment_start(segment: SegmentView, rom: u64) -> u64 {
    match segment.vrom {
        Some(vrom) => vrom,
        None => rom,
    }
}

/// A segment as it stands in the finished model.
pub open spec fn gnu_segment(segment: SegmentView, rom: u64) -> SegmentView {
    let start = gnu_segment_start(segment, rom);
    SegmentView {
        vrom: Some(start),
        sections: gnu_sections(segment.sections, start, segment.sections.len() as int),
        ..segment
    }
}

/// The segment at `i` goes into the finished model: it is neither the
/// stand-in that the scan started from nor empty.
pub open spec fn gnu_keeps(segments: Seq<SegmentView>, i: int) -> bool {
    !(i == 0 && segments[i].is_placeholder()) && !(segments[i].size == 0
        && segments[i].sections.len() == 0)
}

/// The end of what the segments before `i` load into the image.
pub open spec fn gnu_rom_at(segments: Seq<SegmentView>, i: int) -> u64
    decreases i,
{
    if i <= 0 {
        0
    } else {
        let rom = gnu_rom_at(segments, i - 1);
        if gnu_keeps(segments, i - 1) {
            gnu_loaded_end(
                segments[i - 1].sections,
                gnu_segment_start(segments[i - 1], rom),
                segments[i - 1].sections.len() as int,
            )
        } else {
            rom
        }
    }
}

/// The finished segments that stand for the first `i` segments of a scan.
pub open spec fn gnu_segments(segments: Seq<SegmentView>, i: int) -> Seq<SegmentView>
    decreases i,
{
    if i <= 0 {
        Seq::empty()
    } else {
        let done = gnu_segments(segments, i - 1);
        if gnu_keeps(segments, i - 1) {
            done.push(gnu_segment(segments[i - 1], gnu_rom_at(segments, i - 1)))
        } else {
            done
        }
    }
}

/// The finished model of a scan.
pub open spec fn gnu_post_process(segments: Seq<SegmentView>) -> Seq<SegmentView> {
    gnu_segments(segments, segments.len() as int)
}

/// The memory layout that a map of GNU `ld` describes.
pub open spec fn gnu_map(text: Seq<char>) -> Seq<SegmentView> {
    let lines = split_lines(gnu_relevant_text(text));
    gnu_post_process(gnu_scan(lines, lines.len() as int).segments)
}

/// Whatever holds of the finished form of every section that meets
/// `raw_ok` holds of every section of the finished model, where every
/// section of the scan meets `raw_ok`.
pub proof fn lemma_gnu_sections_carry(
    segments: Seq<SegmentView>,
    raw_ok: spec_fn(SectionView) -> bool,
    ok: spec_fn(SectionView) -> bool,
)
    requires
        every_section(segments, raw_ok),
        forall|section: SectionView, offset: u64|
            raw_ok(section) ==> ok(#[trigger] gnu_section(section, offset)),
        forall|section: SectionView| raw_ok(section) && section.is_fill ==> #[trigger] ok(section),
    ensures
        every_section(gnu_post_process(segments), ok),
{
    lemma_gnu_segments_carry(segments, raw_ok, ok, segments.len() as int);
}

proof fn lemma_gnu_segments_carry(
    segments: Seq<SegmentView>,
    raw_ok: spec_fn(SectionView) -> bool,
    ok: spec_fn(SectionView) -> bool,
    i: int,
)
    requires
        every_section(segments, raw_ok),
        forall|section: SectionView, offset: u64|
            raw_ok(section) ==> ok(#[trigger] gnu_section(section, offset)),
        forall|section: SectionView| raw_ok(section) && section.is_fill ==> #[trigger] ok(section),
        0 <= i <= segments.len(),
    ensures
        every_section(gnu_segments(segments, i), ok),
    decreases i,
{
    if i > 0 {
        lemma_gnu_segments_carry(segments, raw_ok, ok, i - 1);
        if gnu_keeps(segments, i - 1) {
            let segment = segments[i - 1];
            let start = gnu_segment_start(segment, gnu_rom_at(segments, i - 1));
            assert forall|j: int| 0 <= j < segment.sections.len() implies raw_ok(
                segment.sections[j],
            ) by {
                assert(raw_ok(segments[i - 1].sections[j]));
            }
            lemma_gnu_sections_list_carry(
                segment.sections,
                start,
                raw_ok,
                ok,
                segment.sections.len() as int,
            );
        }
    }
}

proof fn lemma_gnu_sections_list_carry(
    sections: Seq<SectionView>,
    start: u64,
    raw_ok: spec_fn(SectionView) -> bool,
    ok: spec_fn(SectionView) -> bool,
    j: int,
)
    requires
        forall|k: int| 0 <= k < sections.len() ==> raw_ok(sections[k]),
        forall|section: SectionView, offset: u64|
            raw_ok(section) ==> ok(#[trigger] gnu_section(section, offset)),
        forall|section: SectionView| raw_ok(section) && section.is_fill ==> #[trigger] ok(section),
        0 <= j <= sections.len(),
    ensures
        forall|k: int|
            0 <= k < gnu_sections(sections, start, j).len() ==> ok(
                #[trigger] gnu_sections(sections, start, j)[k],
            ),
    decreases j,
{
    if j > 0 {
        lemma_gnu_sections_list_carry(sections, start, raw_ok, ok, j - 1);
        let done = gnu_sections(sections, start, j - 1);
        let all = gnu_sections(sections, start, j);
        assert(raw_ok(sections[j - 1]));
        assert(ok(gnu_section(sections[j - 1], gnu_offset_at(sections, start, j - 1))));
        assert(sections[j - 1].is_fill ==> ok(sections[j - 1]));
        assert forall|k: int| 0 <= k < all.len() implies ok(#[trigger] all[k]) by {
            if k < done.len() {
                assert(all[k] == done[k]);
            }
        }
    }
}

/// Finishing a section keeps the number and the order of its symbols and
/// their names and addresses.
pub proof fn lemma_gnu_section_keeps_places(section: SectionView, offset: u64)
    ensures
        gnu_section(section, offset).symbols.len() == section.symbols.len(),
        forall|i: int|
            0 <= i < section.symbols.len() ==> (#[trigger] gnu_section(
                section,
                offset,
            ).symbols[i]).name == section.symbols[i].name && gnu_section(
                section,
                offset,
            ).symbols[i].vram == section.symbols[i].vram,
{
    let measured = measured_symbols(section, gnu_section_base(section, offset));
    lemma_pairing_keeps_places(measured, measured.len() as int);
    assert forall|i: int| 0 <= i < section.symbols.len() implies (#[trigger] gnu_section(
        section,
        offset,
    ).symbols[i]).name == section.symbols[i].name && gnu_section(section, offset).symbols[i].vram
        == section.symbols[i].vram by {
        assert(paired_up_to(measured, measured.len() as int)[i].vram == measured[i].vram);
    }
}

/// Finishing a section keeps its symbols' addresses in ascending order.
pub proof fn lemma_gnu_section_ascends(section: SectionView, offset: u64)
    requires
        addresses_ascend(section.symbols),
    ensures
        addresses_ascend(gnu_section(section, offset).symbols),
{
    lemma_gnu_section_keeps_places(section, offset);
}

/// In a finished section that is loaded, every symbol has an image offset.
pub proof fn lemma_gnu_section_has_vroms(section: SectionView, offset: u64)
    ensures
        loaded_symbols_have_vrom(gnu_section(section, offset)),
{
    let measured = measured_symbols(section, gnu_section_base(section, offset));
    lemma_pairing_keeps_places(measured, measured.len() as int);
    let finished = gnu_section(section, offset);
    if !finished.is_noload() {
        assert forall|i: int| 0 <= i < finished.symbols.len() implies (
        #[trigger] finished.symbols[i]).vrom is Some by {
            assert(paired_up_to(measured, measured.len() as int)[i].vrom == measured[i].vrom);
        }
    }
}

/// The section is padding, or the sizes of its symbols and the leading gap
/// add up to its size.
pub open spec fn sizes_fill_unless_padding() -> spec_fn(SectionView) -> bool {
    |section: SectionView| section.is_fill || sizes_fill_section()(section)
}

/// In a finished section whose symbols were listed in ascending order
/// inside the section's range, each placeholder at the address of its
/// symbol, the symbols' sizes and the leading gap add up to the section's
/// size.
pub proof fn lemma_gnu_section_sizes_fill(section: SectionView, offset: u64)
    requires
        well_listed()(section),
    ensures
        sizes_fill_section()(gnu_section(section, offset)),
{
    let base = gnu_section_base(section, offset);
    let measured = measured_symbols(section, base);
    let finished = gnu_section(section, offset);
    lemma_gnu_section_keeps_places(section, offset);
    if section.symbols.len() > 0 {
        lemma_measured_sizes_fill_section(section, base);
        lemma_measured_one_size(section, base);
        lemma_sharing_by_names_and_addresses(section.symbols, measured);
        lemma_pairing_keeps_total(measured);
        assert(finished.symbols[0].vram == section.symbols[0].vram);
        assert(leading_gap(finished) == leading_gap(section));
    }
}

/// Sections whose symbols a map lists in ascending order of address have
/// them in ascending order in the finished model.
pub proof fn lemma_gnu_model_ascends(segments: Seq<SegmentView>)
    requires
        every_section(segments, ascending()),
    ensures
        every_section(gnu_post_process(segments), ascending()),
{
    assert forall|section: SectionView, offset: u64| ascending()(section) implies ascending()(
        #[trigger] gnu_section(section, offset),
    ) by {
        lemma_gnu_section_ascends(section, offset);
    }
    lemma_gnu_sections_carry(segments, ascending(), ascending());
}

/// In a finished section that is loaded, whose symbols were listed in
/// ascending order from the section's start on, every symbol lies as far
/// into the image as its address lies into the section.
pub proof fn lemma_gnu_section_vroms_follow_addresses(section: SectionView, offset: u64, i: int)
    requires
        !section.is_noload(),
        addresses_ascend(section.symbols),
        0 <= i < section.symbols.len(),
        section.vram <= section.symbols[0].vram,
        gnu_section_base(section, offset) + (section.symbols[i].vram - section.vram) <= u64::MAX,
    ensures
        gnu_section(section, offset).vrom == Some(gnu_section_base(section, offset)),
        gnu_section(section, offset).symbols[i].vrom == Some(
            (gnu_section_base(section, offset) + (section.symbols[i].vram - section.vram)) as u64,
        ),
{
    let base = gnu_section_base(section, offset);
    let gap = leading_gap(section);
    let measured = measured_symbols(section, base);
    lemma_advance_ascending(section.symbols, base.saturating_add(gap), i);
    lemma_pairing_keeps_places(measured, measured.len() as int);
    assert(paired_up_to(measured, measured.len() as int)[i].vrom == measured[i].vrom);
}

/// Padding holds no symbols.
pub open spec fn fill_is_empty() -> spec_fn(SectionView) -> bool {
    |section: SectionView| section.is_fill ==> section.symbols.len() == 0
}

/// In the finished model of a scan whose padding holds no symbols, every
/// symbol of a loaded section has an image offset.
pub proof fn lemma_gnu_model_has_vroms(segments: Seq<SegmentView>)
    requires
        every_section(segments, fill_is_empty()),
    ensures
        every_section(gnu_post_process(segments), with_vroms()),
{
    assert forall|section: SectionView, offset: u64| fill_is_empty()(section) implies with_vroms()(
        #[trigger] gnu_section(section, offset),
    ) by {
        lemma_gnu_section_has_vroms(section, offset);
    }
    lemma_gnu_sections_carry(segments, fill_is_empty(), with_vroms());
}

/// The scan stands inside a section only where one was read last, and that
/// one is no padding.
pub open spec fn stands_in_section(scan: GnuScan) -> bool {
    scan.in_section ==> current_section(scan.segments) is Some && !current_section(
        scan.segments,
    )->0.is_fill
}

/// While a map is read, padding holds no symbols.
pub proof fn lemma_gnu_scan_keeps_fill_empty(lines: Seq<Seq<char>>, n: int)
    ensures
        every_section(gnu_scan(lines, n).segments, fill_is_empty()),
        stands_in_section(gnu_scan(lines, n)),
    decreases n,
{
    let ok = placed(fill_is_empty());
    if n <= 0 {
        lemma_fresh_keeps(ok);
    } else {
        lemma_gnu_scan_keeps_fill_empty(lines, n - 1);
        let state = gnu_scan(lines, n - 1);
        let before = state.segments;
        let prev_line = if n >= 2 {
            lines[n - 2]
        } else {
            Seq::empty()
        };
        let entry = gnu_entry(state.in_section, prev_line, lines[n - 1]);
        let after = gnu_apply(before, entry);
        match entry {
            GnuEntryView::Symbol { name, vram } => {
                let symbol = SymbolView {
                    name,
                    vram,
                    size: 0,
                    vrom: None,
                    align: None,
                    nonmatching_sym_exists: false,
                };
                assert(state.in_section && is_indented(lines[n - 1]));
                lemma_with_symbol_keeps(before, symbol, ok);
                assert(current_section(after) == Some(
                    grown_section(current_section(before)->0, symbol),
                ));
            },
            GnuEntryView::Section { filepath, vram, size, section_type } => {
                let section = SectionView {
                    filepath,
                    vram,
                    size,
                    section_type,
                    vrom: None,
                    align: None,
                    is_fill: false,
                    symbols: Seq::empty(),
                };
                lemma_with_section_keeps(before, section, ok);
                assert(before.len() > 0) by {
                    lemma_gnu_scan_is_never_empty(lines, n - 1);
                }
                assert(current_section(after) == Some(section));
            },
            GnuEntryView::Segment { name, vram, size, vrom } => {
                let segment = SegmentView {
                    name,
                    vram,
                    size,
                    vrom,
                    align: None,
                    sections: Seq::empty(),
                };
                lemma_empty_segment_keeps(before, segment, ok);
            },
            GnuEntryView::Fill { size } => {
                lemma_with_section_keeps(
                    before,
                    gnu_fill_section(current_section(before), size),
                    ok,
                );
            },
            GnuEntryView::Nothing => {},
        }
    }
}

proof fn lemma_gnu_scan_is_never_empty(lines: Seq<Seq<char>>, n: int)
    ensures
        gnu_scan(lines, n).segments.len() > 0,
    decreases n,
{
    if n > 0 {
        lemma_gnu_scan_is_never_empty(lines, n - 1);
    }
}

/// In the model of a map, every symbol of a loaded section has an image
/// offset.
pub proof fn lemma_gnu_map_has_vroms(text: Seq<char>)
    ensures
        every_section(gnu_map(text), with_vroms()),
{
    let lines = split_lines(gnu_relevant_text(text));
    lemma_gnu_scan_keeps_fill_empty(lines, lines.len() as int);
    lemma_gnu_model_has_vroms(gnu_scan(lines, lines.len() as int).segments);
}

/// Where a scan lists the symbols of every section in ascending order
/// inside the section's range, each placeholder at the address of its
/// symbol, then in every section of the finished model that has symbols and
/// is no padding, the symbols' sizes and the leading gap add up to the
/// section's size.
pub proof fn lemma_gnu_model_sizes_fill(segments: Seq<SegmentView>)
    requires
        every_section(segments, well_listed()),
    ensures
        every_section(gnu_post_process(segments), sizes_fill_unless_padding()),
{
    assert forall|section: SectionView, offset: u64| well_listed()(section) implies
        sizes_fill_unless_padding()(#[trigger] gnu_section(section, offset)) by {
        lemma_gnu_section_sizes_fill(section, offset);
    }
    lemma_gnu_sections_carry(segments, well_listed(), sizes_fill_unless_padding());
}

fn finish_gnu_section(section: &Section, offset: u64) -> (r: (Section, u64))
    ensures
        r.0@ == gnu_section(section@, offset),
        r.1 == gnu_offset_after(section@, offset),
{
    let mut finished = section.clone();
    let base: u64 = match finished.vrom {
        Some(vrom) => vrom,
        None => offset,
    };
    let is_noload = finished.is_noload_section();
    if !is_noload {
        finished.vrom = Some(base);
    }
    let ghost stamped = finished@;
    measure_symbols(&mut finished, base);
    pair_non_matching_symbols(&mut finished);
    proof {
        assert(measured_symbols(stamped, base) =~= measured_symbols(section@, base));
    }
    let next: u64 = if is_noload {
        base
    } else {
        base.saturating_add(finished.size)
    };
    (finished, next)
}

fn finish_gnu_segment(segment: &Segment, rom: u64) -> (r: (Segment, u64))
    ensures
        r.0@ == gnu_segment(segment@, rom),
        r.1 == gnu_loaded_end(
            segment@.sections,
            gnu_segment_start(segment@, rom),
            segment@.sections.len() as int,
        ),
{
    let start: u64 = match segment.vrom {
        Some(vrom) => vrom,
        None => rom,
    };
    let mut finished = segment.clone_no_sectionlist();
    finished.vrom = Some(start);
    let mut offset: u64 = start;
    let mut loaded: u64 = start;
    let mut j: usize = 0;
    let ghost sections = segment@.sections;
    assert(sections_view(finished.sections_list@) =~= gnu_sections(sections, start, 0));
    while j < segment.sections_list.len()
        invariant
            j <= segment.sections_list.len(),
            sections == segment@.sections,
            sections.len() == segment.sections_list.len(),
            finished.name@ == segment.name@,
            finished.vram == segment.vram,
            finished.size == segment.size,
            finished.vrom == Some(start),
            finished.align == segment.align,
            sections_view(finished.sections_list@) == gnu_sections(sections, start, j as int),
            offset == gnu_offset_at(sections, start, j as int),
            loaded == gnu_loaded_end(sections, start, j as int),
        decreases segment.sections_list.len() - j,
    {
        let section = &segment.sections_list[j];
        if section.is_placeholder() {
        } else if section.is_fill {
            let kept = section.clone();
            let ghost listed = finished.sections_list@;
            finished.sections_list.push(kept);
            assert(sections_view(finished.sections_list@) =~= sections_view(listed).push(kept@));
        } else {
            let (done, next) = finish_gnu_section(section, offset);
            offset = next;
            if !done.is_noload_section() {
                loaded = loaded.saturating_add(done.size);
            }
            let ghost listed = finished.sections_list@;
            finished.sections_list.push(done);
            assert(sections_view(finished.sections_list@) =~= sections_view(listed).push(done@));
        }
        j += 1;
    }
    (finished, loaded)
}

/// Turns the list of segments that a scan built into the finished model:
/// drops the stand-ins and the empty segments, gives every segment and every
/// loaded section its image offset, works out the symbols' sizes and offsets
/// and pairs the placeholders. Padding is kept as it stands.
pub fn post_process_segments_gnu(temp_segment_list: Vec<Segment>) -> (r: Vec<Segment>)
    ensures
        segments_view(r@) == gnu_post_process(segments_view(temp_segment_list@)),
{
    let mut segments_list: Vec<Segment> = Vec::new();
    let mut rom: u64 = 0;
    let mut i: usize = 0;
    let ghost raw = segments_view(temp_segment_list@);
    assert(segments_view(segments_list@) =~= gnu_segments(raw, 0));
    while i < temp_segment_list.len()
        invariant
            i <= temp_segment_list.len(),
            raw == segments_view(temp_segment_list@),
            raw.len() == temp_segment_list.len(),
            segments_view(segments_list@) == gnu_segments(raw, i as int),
            rom == gnu_rom_at(raw, i as int),
        decreases temp_segment_list.len() - i,
    {
        let segment = &temp_segment_list[i];
        let dropped = (i == 0 && segment.is_placeholder()) || (segment.size == 0
            && segment.sections_list.len() == 0);
        if !dropped {
            let (done, end) = finish_gnu_segment(segment, rom);
            rom = end;
            let ghost listed = segments_list@;
            segments_list.push(done);
            assert(segments_view(segments_list@) =~= segments_view(listed).push(done@));
        }
        i += 1;
    }
    segments_list
}

/// Reads the memory layout out of the text of a map of GNU `ld`.
pub fn parse_gnu(text: &str) -> (r: Vec<Segment>)
    ensures
        segments_view(r@) == gnu_map(text@),
{
    let relevant = gnu_relevant(text);
    let lines = lines_of(relevant);
    let scanned = scan_gnu_lines(&lines);
    post_process_segments_gnu(scanned)
}

} // verus!
