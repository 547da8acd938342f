//! The memory layout that a map file describes: segments, their sections,
//! and the sections' symbols.

use vstd::prelude::*;
use crate::found_symbol_info::FoundSymbolInfo;
use crate::search::{first_index, lemma_first_index_is, lemma_first_index_none};
use crate::section::{Section, SectionView};
use crate::segment::{
    clone_segments, not_of_type, of_type, referents, section_spans, section_spans_vrom,
    segments_view, Segment, SegmentView,
};

verus! {

/// The model of one map file.
#[derive(Debug)]
pub struct MapFile {
    pub segments_list: Vec<Segment>,
}

impl View for MapFile {
    type V = Seq<SegmentView>;

    open spec fn view(&self) -> Seq<SegmentView> {
        segments_view(self.segments_list@)
    }
}

impl Clone for MapFile {
    fn clone(&self) -> (r: Self)
        ensures
            r@ == self@,
    {
        MapFile { segments_list: clone_segments(&self.segments_list) }
    }
}

/// The segments among the first `i` that hold a section meeting `keep`,
/// each with only the sections that meet it.
pub open spec fn filtered_segments(
    segments: Seq<SegmentView>,
    keep: spec_fn(SectionView) -> bool,
    i: int,
) -> Seq<SegmentView>
    decreases i,
{
    if i <= 0 {
        Seq::empty()
    } else {
        let done = filtered_segments(segments, keep, i - 1);
        let sections = segments[i - 1].sections.filter(keep);
        if sections.len() > 0 {
            done.push(SegmentView { sections, ..segments[i - 1] })
        } else {
            done
        }
    }
}

/// The segment holds a symbol named `name`.
pub open spec fn segment_has_name(name: Seq<char>) -> spec_fn(Segment) -> bool {
    |s: Segment| s.locate_name(name) is Some
}

/// A lookup by virtual address finds a symbol in the segment.
pub open spec fn segment_has_vram(address: u64) -> spec_fn(Segment) -> bool {
    |s: Segment| s.locate_vram(address) is Some
}

/// A lookup by image offset finds a symbol in the segment.
pub open spec fn segment_has_vrom(address: u64) -> spec_fn(Segment) -> bool {
    |s: Segment| s.locate_vrom(address) is Some
}

/// The sections of the first `i` segments whose range of virtual addresses
/// holds `address`, in order.
pub open spec fn spanning_sections(segments: Seq<Segment>, address: u64, i: int) -> Seq<Section>
    decreases i,
{
    if i <= 0 {
        Seq::empty()
    } else {
        spanning_sections(segments, address, i - 1) + segments[i - 1].sections_list@.filter(
            section_spans(address),
        )
    }
}

/// The sections of the first `i` segments whose range of image offsets
/// holds `address`, in order.
pub open spec fn spanning_sections_vrom(segments: Seq<Segment>, address: u64, i: int) -> Seq<
    Section,
>
    decreases i,
{
    if i <= 0 {
        Seq::empty()
    } else {
        spanning_sections_vrom(segments, address, i - 1) + segments[i
            - 1].sections_list@.filter(section_spans_vrom(address))
    }
}

/// Where a lookup ended: the positions of the segment, of the section in
/// it and of the symbol in the section, and the offset into the symbol.
pub struct Place {
    pub segment: int,
    pub section: int,
    pub symbol: int,
    pub offset: i64,
}

impl MapFile {
    /// The sections of the type `section_type`, under their segments. A
    /// segment without such a section is left out.
    pub fn filter_by_section_type(&self, section_type: &str) -> (r: Self)
        ensures
            r@ == filtered_segments(self@, of_type(section_type@), self@.len() as int),
    {
        let mut new_map_file = MapFile { segments_list: Vec::new() };
        let mut i: usize = 0;
        assert(new_map_file@ =~= filtered_segments(self@, of_type(section_type@), 0));
        while i < self.segments_list.len()
            invariant
                i <= self.segments_list.len(),
                new_map_file@ == filtered_segments(self@, of_type(section_type@), i as int),
            decreases self.segments_list.len() - i,
        {
            let new_segment = self.segments_list[i].filter_by_section_type(section_type);
            if new_segment.sections_list.len() > 0 {
                let ghost listed = new_map_file.segments_list@;
                new_map_file.segments_list.push(new_segment);
                assert(new_map_file@ =~= segments_view(listed).push(new_segment@));
            }
            i += 1;
        }
        new_map_file
    }

    /// The sections of any type but `section_type`, under their segments. A
    /// segment without such a section is left out.
    pub fn get_every_section_except_section_type(&self, section_type: &str) -> (r: Self)
        ensures
            r@ == filtered_segments(self@, not_of_type(section_type@), self@.len() as int),
    {
        let mut new_map_file = MapFile { segments_list: Vec::new() };
        let mut i: usize = 0;
        assert(new_map_file@ =~= filtered_segments(self@, not_of_type(section_type@), 0));
        while i < self.segments_list.len()
            invariant
                i <= self.segments_list.len(),
                new_map_file@ == filtered_segments(self@, not_of_type(section_type@), i as int),
            decreases self.segments_list.len() - i,
        {
            let new_segment = self.segments_list[i].get_every_section_except_section_type(
                section_type,
            );
            if new_segment.sections_list.len() > 0 {
                let ghost listed = new_map_file.segments_list@;
                new_map_file.segments_list.push(new_segment);
                assert(new_map_file@ =~= segments_view(listed).push(new_segment@));
            }
            i += 1;
        }
        new_map_file
    }

    /// The older name of [`MapFile::get_every_section_except_section_type`].
    pub fn get_every_file_except_section_type(&self, section_type: &str) -> (r: Self)
        ensures
            r@ == filtered_segments(self@, not_of_type(section_type@), self@.len() as int),
    {
        self.get_every_section_except_section_type(section_type)
    }

    /// Where the first symbol named `name` stands, in the order of the map.
    pub open spec fn locate_name(&self, name: Seq<char>) -> Option<Place> {
        match first_index(self.segments_list@, segment_has_name(name)) {
            Some(i) => {
                let hit = self.segments_list@[i].locate_name(name)->0;
                Some(Place { segment: i, section: hit.0, symbol: hit.1, offset: 0 })
            },
            None => None,
        }
    }

    /// Where a lookup by virtual address ends: in the first segment in which
    /// it finds a symbol.
    pub open spec fn locate_vram(&self, address: u64) -> Option<Place> {
        match first_index(self.segments_list@, segment_has_vram(address)) {
            Some(i) => {
                let hit = self.segments_list@[i].locate_vram(address)->0;
                Some(Place { segment: i, section: hit.0, symbol: hit.1, offset: hit.2 })
            },
            None => None,
        }
    }

    /// Where a lookup by image offset ends: in the first segment in which it
    /// finds a symbol.
    pub open spec fn locate_vrom(&self, address: u64) -> Option<Place> {
        match first_index(self.segments_list@, segment_has_vrom(address)) {
            Some(i) => {
                let hit = self.segments_list@[i].locate_vrom(address)->0;
                Some(Place { segment: i, section: hit.0, symbol: hit.1, offset: hit.2 })
            },
            None => None,
        }
    }

    /// What was found is the symbol at `place`, with its section and the
    /// offset.
    pub open spec fn found_at(&self, info: FoundSymbolInfo, place: Place) -> bool {
        let section = self.segments_list@[place.segment].sections_list@[place.section];
        &&& *info.section == section
        &&& *info.symbol == section.symbols@[place.symbol]
        &&& info.offset == place.offset
    }

    /// The first symbol named `sym_name`, in the order of the map.
    pub fn find_symbol_by_name(&self, sym_name: &str) -> (r: Option<FoundSymbolInfo>)
        ensures
            match (r, self.locate_name(sym_name@)) {
                (Some(info), Some(place)) => self.found_at(info, place),
                (None, None) => true,
                _ => false,
            },
    {
        let mut i: usize = 0;
        while i < self.segments_list.len()
            invariant
                i <= self.segments_list.len(),
                forall|j: int|
                    0 <= j < i ==> !segment_has_name(sym_name@)(#[trigger] self.segments_list@[j]),
            decreases self.segments_list.len() - i,
        {
            if let Some(info) = self.segments_list[i].find_symbol_by_name(sym_name) {
                proof {
                    lemma_first_index_is(
                        self.segments_list@,
                        segment_has_name(sym_name@),
                        i as int,
                    );
                }
                return Some(info);
            }
            i += 1;
        }
        proof {
            lemma_first_index_none(self.segments_list@, segment_has_name(sym_name@));
        }
        None
    }

    /// The symbol that holds the virtual address `address`. Where none does,
    /// the second part of the result lists the sections whose address range
    /// holds it.
    pub fn find_symbol_by_vram(&self, address: u64) -> (r: (
        Option<FoundSymbolInfo>,
        Vec<&Section>,
    ))
        ensures
            match (r.0, self.locate_vram(address)) {
                (Some(info), Some(place)) => self.found_at(info, place) && r.1@.len() == 0,
                (None, None) => referents(r.1@) == spanning_sections(
                    self.segments_list@,
                    address,
                    self.segments_list@.len() as int,
                ),
                _ => false,
            },
    {
        let mut possible_sections: Vec<&Section> = Vec::new();
        let mut i: usize = 0;
        assert(referents(possible_sections@) =~= spanning_sections(
            self.segments_list@,
            address,
            0,
        ));
        while i < self.segments_list.len()
            invariant
                i <= self.segments_list.len(),
                forall|j: int|
                    0 <= j < i ==> !segment_has_vram(address)(#[trigger] self.segments_list@[j]),
                referents(possible_sections@) == spanning_sections(
                    self.segments_list@,
                    address,
                    i as int,
                ),
            decreases self.segments_list.len() - i,
        {
            let (maybe_info, mut possible_sections_aux) = self.segments_list[i].find_symbol_by_vram(
                address,
            );
            if let Some(info) = maybe_info {
                proof {
                    lemma_first_index_is(
                        self.segments_list@,
                        segment_has_vram(address),
                        i as int,
                    );
                }
                return (Some(info), Vec::new());
            }
            let ghost listed = possible_sections@;
            let ghost added = possible_sections_aux@;
            possible_sections.append(&mut possible_sections_aux);
            assert(referents(possible_sections@) =~= referents(listed) + referents(added));
            i += 1;
        }
        proof {
            lemma_first_index_none(self.segments_list@, segment_has_vram(address));
        }
        (None, possible_sections)
    }

    /// The symbol that holds the image offset `address`. Where none does,
    /// the second part of the result lists the sections whose range of image
    /// offsets holds it.
    pub fn find_symbol_by_vrom(&self, address: u64) -> (r: (
        Option<FoundSymbolInfo>,
        Vec<&Section>,
    ))
        ensures
            match (r.0, self.locate_vrom(address)) {
                (Some(info), Some(place)) => self.found_at(info, place) && r.1@.len() == 0,
                (None, None) => referents(r.1@) == spanning_sections_vrom(
                    self.segments_list@,
                    address,
                    self.segments_list@.len() as int,
                ),
                _ => false,
            },
    {
        let mut possible_sections: Vec<&Section> = Vec::new();
        let mut i: usize = 0;
        assert(referents(possible_sections@) =~= spanning_sections_vrom(
            self.segments_list@,
            address,
            0,
        ));
        while i < self.segments_list.len()
            invariant
                i <= self.segments_list.len(),
                forall|j: int|
                    0 <= j < i ==> !segment_has_vrom(address)(#[trigger] self.segments_list@[j]),
                referents(possible_sections@) == spanning_sections_vrom(
                    self.segments_list@,
                    address,
                    i as int,
                ),
            decreases self.segments_list.len() - i,
        {
            let (maybe_info, mut possible_sections_aux) = self.segments_list[i].find_symbol_by_vrom(
                address,
            );
            if let Some(info) = maybe_info {
                proof {
                    lemma_first_index_is(
                        self.segments_list@,
                        segment_has_vrom(address),
                        i as int,
                    );
                }
                return (Some(info), Vec::new());
            }
            let ghost listed = possible_sections@;
            let ghost added = possible_sections_aux@;
            possible_sections.append(&mut possible_sections_aux);
            assert(referents(possible_sections@) =~= referents(listed) + referents(added));
            i += 1;
        }
        proof {
            lemma_first_index_none(self.segments_list@, segment_has_vrom(address));
        }
        (None, possible_sections)
    }

    /// Pairing placeholders with their symbols is part of reading a map, so
    /// this gives a copy of the model as it is.
    pub fn fixup_non_matching_symbols(&self) -> (r: Self)
        ensures
            r@ == self@,
    {
        self.clone()
    }
}

} // verus!
