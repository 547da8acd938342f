//! Folding the sections of each folder of the source tree into one.

use vstd::prelude::*;
use crate::mapfile::MapFile;
use crate::paths::{components, components_of, from_components, path_of_components};
use crate::search::{first_index, lemma_first_index, lemma_first_index_is, lemma_first_index_none};
use crate::section::{sections_view, Section, SectionView};
use crate::segment::{segments_view, Segment, SegmentView};
use crate::symbol::{clone_symbols, symbols_view};
use crate::text::texts_of;

verus! {

/// The components of a path without the first two and the last.
pub open spec fn folder_parts(parts: Seq<Seq<char>>) -> Seq<Seq<char>> {
    if parts.len() >= 3 {
        parts.subrange(2, parts.len() - 1)
    } else {
        Seq::empty()
    }
}

/// The folder of a section: its path without the first two components and
/// without the file's name.
pub open spec fn folder_path(filepath: Seq<char>) -> Seq<char> {
    path_of_components(folder_parts(components_of(filepath)))
}

/// The section stands at the path `path`.
pub open spec fn at_path(path: Seq<char>) -> spec_fn(SectionView) -> bool {
    |section: SectionView| section.filepath == path
}

/// The folders after one more section. A section of a folder that is
/// listed already adds its size and its symbols to that folder. Any other
/// starts a folder, which takes its address, type, image offset and
/// alignment from it.
pub open spec fn mixed_with(folders: Seq<SectionView>, section: SectionView) -> Seq<SectionView> {
    let folder = folder_path(section.filepath);
    match first_index(folders, at_path(folder)) {
        Some(k) => folders.update(
            k,
            SectionView {
                size: folders[k].size.saturating_add(section.size),
                symbols: folders[k].symbols + section.symbols,
                ..folders[k]
            },
        ),
        None => folders.push(SectionView { filepath: folder, is_fill: false, ..section }),
    }
}

/// The folders of the first `j` sections, in the order in which the
/// sections first reach them.
pub open spec fn mixed_sections(sections: Seq<SectionView>, j: int) -> Seq<SectionView>
    decreases j,
{
    if j <= 0 {
        Seq::empty()
    } else {
        mixed_with(mixed_sections(sections, j - 1), sections[j - 1])
    }
}

/// A segment with the sections of each folder folded into one.
pub open spec fn mixed_segment(segment: SegmentView) -> SegmentView {
    SegmentView {
        sections: mixed_sections(segment.sections, segment.sections.len() as int),
        ..segment
    }
}

/// The components of a path without the first two and the last.
pub fn folder_parts_of(parts: &Vec<String>) -> (r: Vec<String>)
    ensures
        texts_of(r@) == folder_parts(texts_of(parts@)),
{
    let mut kept: Vec<String> = Vec::new();
    if parts.len() >= 3 {
        let mut i: usize = 2;
        assert(texts_of(kept@) =~= texts_of(parts@).subrange(2, 2));
        while i < parts.len() - 1
            invariant
                parts.len() >= 3,
                2 <= i <= parts.len() - 1,
                texts_of(kept@) == texts_of(parts@).subrange(2, i as int),
            decreases parts.len() - i,
        {
            let ghost listed = kept@;
            kept.push(parts[i].clone());
            assert(texts_of(kept@) =~= texts_of(listed).push(parts@[i as int]@));
            assert(texts_of(kept@) =~= texts_of(parts@).subrange(2, i + 1));
            i += 1;
        }
    } else {
        assert(texts_of(kept@) =~= Seq::empty());
    }
    kept
}

/// The folder of a section.
pub fn folder_path_of(filepath: &str) -> (r: String)
    ensures
        r@ == folder_path(filepath@),
{
    let parts = components(filepath);
    from_components(&folder_parts_of(&parts))
}

fn folder_position(folders: &Vec<Section>, path: &String) -> (r: Option<usize>)
    ensures
        match r {
            Some(k) => first_index(sections_view(folders@), at_path(path@)) == Some(k as int) && k
                < folders@.len(),
            None => first_index(sections_view(folders@), at_path(path@)) is None,
        },
{
    let ghost views = sections_view(folders@);
    let mut i: usize = 0;
    while i < folders.len()
        invariant
            i <= folders.len(),
            views == sections_view(folders@),
            forall|j: int| 0 <= j < i ==> !at_path(path@)(#[trigger] views[j]),
        decreases folders.len() - i,
    {
        if folders[i].filepath == *path {
            proof {
                lemma_first_index_is(views, at_path(path@), i as int);
            }
            return Some(i);
        }
        i += 1;
    }
    proof {
        lemma_first_index_none(views, at_path(path@));
    }
    None
}

impl Segment {
    /// The segment with the sections of each folder folded into one
    /// section, which holds the symbols of all of them and is as large as
    /// all of them together.
    pub fn mix_folders(&self) -> (r: Self)
        ensures
            r@ == mixed_segment(self@),
    {
        let mut new_segment = self.clone_no_sectionlist();
        let ghost sections = self@.sections;
        let mut j: usize = 0;
        assert(sections_view(new_segment.sections_list@) =~= mixed_sections(sections, 0));
        while j < self.sections_list.len()
            invariant
                j <= self.sections_list.len(),
                sections == self@.sections,
                sections.len() == self.sections_list.len(),
                new_segment.name@ == self.name@,
                new_segment.vram == self.vram,
                new_segment.size == self.size,
                new_segment.vrom == self.vrom,
                new_segment.align == self.align,
                sections_view(new_segment.sections_list@) == mixed_sections(sections, j as int),
            decreases self.sections_list.len() - j,
        {
            let section = &self.sections_list[j];
            let ghost folders = sections_view(new_segment.sections_list@);
            let folder = folder_path_of(section.filepath.as_str());
            let mut symbols = clone_symbols(&section.symbols);
            match folder_position(&new_segment.sections_list, &folder) {
                Some(k) => {
                    let ghost own = new_segment.sections_list@[k as int].symbols@;
                    let ghost added = symbols@;
                    let size = new_segment.sections_list[k].size.saturating_add(section.size);
                    new_segment.sections_list[k].size = size;
                    new_segment.sections_list[k].symbols.append(&mut symbols);
                    proof {
                        lemma_first_index(folders, at_path(folder@));
                        assert(symbols_view(new_segment.sections_list@[k as int].symbols@)
                            =~= symbols_view(own) + symbols_view(added));
                        assert(sections_view(new_segment.sections_list@) =~= mixed_with(
                            folders,
                            section@,
                        ));
                    }
                },
                None => {
                    let mut temp_section = Section::new(
                        folder,
                        section.vram,
                        section.size,
                        section.section_type.as_str(),
                        section.vrom,
                        section.align,
                    );
                    temp_section.symbols = symbols;
                    new_segment.sections_list.push(temp_section);
                    proof {
                        assert(sections_view(new_segment.sections_list@) =~= mixed_with(
                            folders,
                            section@,
                        ));
                    }
                },
            }
            j += 1;
        }
        new_segment
    }
}

/// The first `i` segments, each with the sections of each folder folded
/// into one.
pub open spec fn mixed_segments(segments: Seq<SegmentView>, i: int) -> Seq<SegmentView>
    decreases i,
{
    if i <= 0 {
        Seq::empty()
    } else {
        mixed_segments(segments, i - 1).push(mixed_segment(segments[i - 1]))
    }
}

impl MapFile {
    /// The map with, in each segment, the sections of each folder folded
    /// into one.
    pub fn mix_folders(&self) -> (r: Self)
        ensures
            r@ == mixed_segments(self@, self@.len() as int),
    {
        let mut new_map_file = MapFile { segments_list: Vec::new() };
        let mut i: usize = 0;
        assert(new_map_file@ =~= mixed_segments(self@, 0));
        while i < self.segments_list.len()
            invariant
                i <= self.segments_list.len(),
                new_map_file@ == mixed_segments(self@, i as int),
            decreases self.segments_list.len() - i,
        {
            let mixed = self.segments_list[i].mix_folders();
            let ghost listed = new_map_file.segments_list@;
            new_map_file.segments_list.push(mixed);
            assert(new_map_file@ =~= segments_view(listed).push(mixed@));
            i += 1;
        }
        new_map_file
    }
}

} // verus!
