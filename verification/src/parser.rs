//! Reading the text of a map file into a [`MapFile`].
//!
//! Three linkers' maps are read: GNU `ld`, LLVM `ld.lld` and Metrowerks. The
//! text itself tells which one wrote it.

use vstd::prelude::*;
use crate::gnu::{gnu_map, parse_gnu};
use crate::lld::{lld_map, parse_lld};
use crate::mapfile::MapFile;
use crate::mw::{mw_map, parse_mw};
use crate::pattern::{is_match, regex_matches};
use crate::segment::SegmentView;
use crate::text::{contains, contains_text, has_prefix, starts_with};

verus! {

/// The linker that wrote a map.
#[derive(Debug, Clone, Copy, PartialEq, Eq, Structural)]
pub enum MapDialect {
    Gnu,
    Lld,
    Metrowerks,
}

/// The column headings that only a map of `ld.lld` holds.
pub open spec fn lld_header_pattern() -> Seq<char> {
    r"\s+VMA\s+LMA\s+Size\s+Align\s+Out\s+In\s+Symbol"@
}

/// The linker that wrote `text`: `ld.lld` where the text holds its column
/// headings; else Metrowerks where the text starts with `Link map of ` or
/// holds ` section layout`; else GNU `ld`.
pub open spec fn dialect_of(text: Seq<char>) -> MapDialect {
    if regex_matches(lld_header_pattern(), text) {
        MapDialect::Lld
    } else if has_prefix(text, "Link map of "@) || contains_text(text, " section layout"@) {
        MapDialect::Metrowerks
    } else {
        MapDialect::Gnu
    }
}

/// The memory layout that a map describes, read as the dialect that the
/// text shows.
pub open spec fn map_of(text: Seq<char>) -> Seq<SegmentView> {
    match dialect_of(text) {
        MapDialect::Gnu => gnu_map(text),
        MapDialect::Lld => lld_map(text),
        MapDialect::Metrowerks => mw_map(text),
    }
}

/// Reading a map without naming its dialect gives what reading it as the
/// dialect that it shows gives.
pub proof fn lemma_guessing_agrees_with_dialect(text: Seq<char>)
    ensures
        dialect_of(text) == MapDialect::Gnu ==> map_of(text) == gnu_map(text),
        dialect_of(text) == MapDialect::Lld ==> map_of(text) == lld_map(text),
        dialect_of(text) == MapDialect::Metrowerks ==> map_of(text) == mw_map(text),
{
}

/// Tells which linker wrote a map.
pub fn guess_dialect(map_contents: &str) -> (r: MapDialect)
    ensures
        r == dialect_of(map_contents@),
{
    if is_match(r"\s+VMA\s+LMA\s+Size\s+Align\s+Out\s+In\s+Symbol", map_contents) {
        MapDialect::Lld
    } else if starts_with(map_contents, "Link map of ") || contains(
        map_contents,
        " section layout",
    ) {
        MapDialect::Metrowerks
    } else {
        MapDialect::Gnu
    }
}

impl MapFile {
    /// A model without segments.
    pub fn new() -> (m: Self)
        ensures
            m@ == Seq::<SegmentView>::empty(),
    {
        let m = MapFile { segments_list: Vec::new() };
        assert(m@ =~= Seq::<SegmentView>::empty());
        m
    }

    /// Reads a map, of whichever of the three dialects it shows.
    pub fn new_from_map_str(map_contents: &str) -> (m: Self)
        ensures
            m@ == map_of(map_contents@),
    {
        match guess_dialect(map_contents) {
            MapDialect::Gnu => Self::new_from_gnu_map_str(map_contents),
            MapDialect::Lld => Self::new_from_lld_map_str(map_contents),
            MapDialect::Metrowerks => Self::new_from_mw_map_str(map_contents),
        }
    }

    /// Reads a map written by GNU `ld`.
    pub fn new_from_gnu_map_str(map_contents: &str) -> (m: Self)
        ensures
            m@ == gnu_map(map_contents@),
    {
        MapFile { segments_list: parse_gnu(map_contents) }
    }

    /// Reads a map written by LLVM `ld.lld`.
    pub fn new_from_lld_map_str(map_contents: &str) -> (m: Self)
        ensures
            m@ == lld_map(map_contents@),
    {
        MapFile { segments_list: parse_lld(map_contents) }
    }

    /// Reads a map written by the Metrowerks linker.
    pub fn new_from_mw_map_str(map_contents: &str) -> (m: Self)
        ensures
            m@ == mw_map(map_contents@),
    {
        MapFile { segments_list: parse_mw(map_contents) }
    }

    /// Replaces the model by what a map describes, of whichever of the three
    /// dialects the map shows.
    pub fn parse_map_contents(&mut self, map_contents: &str)
        ensures
            final(self)@ == map_of(map_contents@),
    {
        match guess_dialect(map_contents) {
            MapDialect::Gnu => self.parse_map_contents_gnu(map_contents),
            MapDialect::Lld => self.parse_map_contents_lld(map_contents),
            MapDialect::Metrowerks => self.parse_map_contents_mw(map_contents),
        }
    }

    /// Replaces the model by what a map written by GNU `ld` describes.
    pub fn parse_map_contents_gnu(&mut self, map_contents: &str)
        ensures
            final(self)@ == gnu_map(map_contents@),
    {
        self.segments_list = parse_gnu(map_contents);
    }

    /// Replaces the model by what a map written by LLVM `ld.lld` describes.
    pub fn parse_map_contents_lld(&mut self, map_contents: &str)
        ensures
            final(self)@ == lld_map(map_contents@),
    {
        self.segments_list = parse_lld(map_contents);
    }

    /// Replaces the model by what a map written by the Metrowerks linker
    /// describes.
    pub fn parse_map_contents_mw(&mut self, map_contents: &str)
        ensures
            final(self)@ == mw_map(map_contents@),
    {
        self.segments_list = parse_mw(map_contents);
    }
}

} // verus!
