//! One output memory region and the sections placed in it.

use vstd::prelude::*;
use crate::found_symbol_info::FoundSymbolInfo;
use crate::search::{first_index, lemma_first_index_is, lemma_first_index_none};
use crate::section::{
    clone_sections, locate_vram, locate_vrom, sections_view, Section, SectionView,
};

verus! {

/// A region of the output image.
#[derive(Debug)]
pub struct Segment {
    pub name: String,
    pub vram: u64,
    pub size: u64,
    pub vrom: Option<u64>,
    pub align: Option<u64>,
    pub sections_list: Vec<Section>,
}

/// The mathematical value of a [`Segment`].
pub struct SegmentView {
    pub name: Seq<char>,
    pub vram: u64,
    pub size: u64,
    pub vrom: Option<u64>,
    pub align: Option<u64>,
    pub sections: Seq<SectionView>,
}

impl View for Segment {
    type V = SegmentView;

    open spec fn view(&self) -> SegmentView {
        SegmentView {
            name: self.name@,
            vram: self.vram,
            size: self.size,
            vrom: self.vrom,
            align: self.align,
            sections: sections_view(self.sections_list@),
        }
    }
}

/// The values of a list of segments, in order.
pub open spec fn segments_view(segments: Seq<Segment>) -> Seq<SegmentView> {
    Seq::new(segments.len(), |i: int| segments[i]@)
}

impl SegmentView {
    /// The segment is the stand-in that a scan starts from: it has the
    /// reserved name and nothing in it but, at most, the stand-in section.
    pub open spec fn is_placeholder(self) -> bool {
        &&& self.name == "$nosegment"@
        &&& self.vram == 0
        &&& self.size == 0
        &&& self.vrom is None
        &&& self.align is None
        &&& (self.sections.len() == 0 || (self.sections.len() == 1
            && self.sections[0].is_placeholder()))
    }

    /// The value of the stand-in segment.
    pub open spec fn placeholder() -> SegmentView {
        SegmentView {
            name: "$nosegment"@,
            vram: 0,
            size: 0,
            vrom: None,
            align: None,
            sections: seq![SectionView::placeholder()],
        }
    }
}

/// The section is of the type `section_type`.
pub open spec fn of_type(section_type: Seq<char>) -> spec_fn(SectionView) -> bool {
    |s: SectionView| s.section_type == section_type
}

/// The section is of another type than `section_type`.
pub open spec fn not_of_type(section_type: Seq<char>) -> spec_fn(SectionView) -> bool {
    |s: SectionView| s.section_type != section_type
}

/// The section holds a symbol named `name`.
pub open spec fn section_has_name(name: Seq<char>) -> spec_fn(Section) -> bool {
    |s: Section| s.index_of_name(name) is Some
}

/// A lookup by virtual address finds a symbol in the section.
pub open spec fn section_has_vram(address: u64) -> spec_fn(Section) -> bool {
    |s: Section| locate_vram(s.symbols@, address) is Some
}

/// A lookup by image offset finds a symbol in the section.
pub open spec fn section_has_vrom(address: u64) -> spec_fn(Section) -> bool {
    |s: Section| locate_vrom(s.symbols@, address) is Some
}

/// The section's range of virtual addresses holds `address`.
pub open spec fn section_spans(address: u64) -> spec_fn(Section) -> bool {
    |s: Section| s.vram <= address && address < s.vram + s.size
}

/// The section's range of image offsets holds `address`.
pub open spec fn section_spans_vrom(address: u64) -> spec_fn(Section) -> bool {
    |s: Section| s.vrom is Some && s.vrom->0 <= address && address < s.vrom->0 + s.size
}

/// The sections that a list of references points to.
pub open spec fn referents(refs: Seq<&Section>) -> Seq<Section> {
    Seq::new(refs.len(), |i: int| *refs[i])
}

impl PartialEq for Segment {
    /// Two segments are the same where they agree in name, address, size and
    /// image offset.
    fn eq(&self, other: &Self) -> (r: bool) {
        self.name == other.name && self.vram == other.vram && self.size == other.size
            && self.vrom == other.vrom
    }
}

impl Eq for Segment {

}

impl vstd::std_specs::cmp::PartialEqSpecImpl for Segment {
    open spec fn obeys_eq_spec() -> bool {
        true
    }

    open spec fn eq_spec(&self, other: &Self) -> bool {
        self.name@ == other.name@ && self.vram == other.vram && self.size == other.size
            && self.vrom == other.vrom
    }
}

impl Clone for Segment {
    fn clone(&self) -> (r: Self)
        ensures
            r@ == self@,
    {
        Segment {
            name: self.name.clone(),
            vram: self.vram,
            size: self.size,
            vrom: self.vrom,
            align: self.align,
            sections_list: clone_sections(&self.sections_list),
        }
    }
}

impl Segment {
    /// A segment without sections.
    pub fn new(name: String, vram: u64, size: u64, vrom: Option<u64>, align: Option<u64>) -> (r:
        Self)
        ensures
            r@ == (SegmentView { name: name@, vram, size, vrom, align, sections: Seq::empty() }),
            r.sections_list@.len() == 0,
    {
        let r = Segment { name, vram, size, vrom, align, sections_list: Vec::new() };
        assert(r@.sections =~= Seq::empty());
        r
    }

    /// A segment of which no alignment is known.
    pub fn new_default(name: String, vram: u64, size: u64, vrom: Option<u64>) -> (r: Self)
        ensures
            r@ == (SegmentView {
                name: name@,
                vram,
                size,
                vrom,
                align: None,
                sections: Seq::empty(),
            }),
            r.sections_list@.len() == 0,
    {
        Self::new(name, vram, size, vrom, None)
    }

    /// The same segment without its sections.
    pub fn clone_no_sectionlist(&self) -> (r: Self)
        ensures
            r@ == (SegmentView { sections: Seq::empty(), ..self@ }),
            r.sections_list@.len() == 0,
    {
        Self::new(self.name.clone(), self.vram, self.size, self.vrom, self.align)
    }

    /// The stand-in that a scan starts from.
    pub fn new_placeholder() -> (r: Self)
        ensures
            r@ == SegmentView::placeholder(),
            r@.is_placeholder(),
            r.sections_list@.len() == 1,
    {
        let mut sections_list: Vec<Section> = Vec::new();
        sections_list.push(Section::new_placeholder());
        let r = Segment {
            name: "$nosegment".to_owned(),
            vram: 0,
            size: 0,
            vrom: None,
            align: None,
            sections_list,
        };
        assert(r@.sections =~= seq![SectionView::placeholder()]);
        r
    }

    /// Whether the segment is the stand-in that a scan starts from.
    pub fn is_placeholder(&self) -> (r: bool)
        ensures
            r == self@.is_placeholder(),
    {
        let reserved = "$nosegment".to_owned();
        if self.name == reserved && self.vram == 0 && self.size == 0 && self.vrom.is_none()
            && self.align.is_none() {
            if self.sections_list.len() == 0 {
                return true;
            }
            if self.sections_list.len() == 1 {
                if self.sections_list[0].is_placeholder() {
                    return true;
                }
            }
        }
        false
    }

    /// The sections of the type `section_type`, under the same segment.
    pub fn filter_by_section_type(&self, section_type: &str) -> (r: Self)
        ensures
            r@ == (SegmentView {
                sections: self@.sections.filter(of_type(section_type@)),
                ..self@
            }),
    {
        let wanted = section_type.to_owned();
        let mut new_segment = self.clone_no_sectionlist();
        let mut i: usize = 0;
        proof {
            reveal(Seq::filter);
            assert(sections_view(self.sections_list@.subrange(0, 0)) =~= Seq::empty());
            assert(new_segment@.sections =~= Seq::empty());
        }
        while i < self.sections_list.len()
            invariant
                i <= self.sections_list.len(),
                wanted@ == section_type@,
                new_segment@ == (SegmentView {
                    sections: sections_view(self.sections_list@.subrange(0, i as int)).filter(
                        of_type(section_type@),
                    ),
                    ..self@
                }),
            decreases self.sections_list.len() - i,
        {
            let ghost before = sections_view(self.sections_list@.subrange(0, i as int));
            let ghost kept = new_segment.sections_list@;
            proof {
                assert(sections_view(self.sections_list@.subrange(0, i + 1)) =~= before.push(
                    self.sections_list@[i as int]@,
                ));
                before.lemma_filter_push(self.sections_list@[i as int]@, of_type(section_type@));
            }
            if self.sections_list[i].section_type == wanted {
                new_segment.sections_list.push(self.sections_list[i].clone());
                assert(sections_view(new_segment.sections_list@) =~= sections_view(kept).push(
                    self.sections_list@[i as int]@,
                ));
            }
            i += 1;
        }
        assert(self.sections_list@.subrange(0, i as int) =~= self.sections_list@);
        new_segment
    }

    /// The sections of any type but `section_type`, under the same segment.
    pub fn get_every_section_except_section_type(&self, section_type: &str) -> (r: Self)
        ensures
            r@ == (SegmentView {
                sections: self@.sections.filter(not_of_type(section_type@)),
                ..self@
            }),
    {
        let wanted = section_type.to_owned();
        let mut new_segment = self.clone_no_sectionlist();
        let mut i: usize = 0;
        proof {
            reveal(Seq::filter);
            assert(sections_view(self.sections_list@.subrange(0, 0)) =~= Seq::empty());
            assert(new_segment@.sections =~= Seq::empty());
        }
        while i < self.sections_list.len()
            invariant
                i <= self.sections_list.len(),
                wanted@ == section_type@,
                new_segment@ == (SegmentView {
                    sections: sections_view(self.sections_list@.subrange(0, i as int)).filter(
                        not_of_type(section_type@),
                    ),
                    ..self@
                }),
            decreases self.sections_list.len() - i,
        {
            let ghost before = sections_view(self.sections_list@.subrange(0, i as int));
            let ghost kept = new_segment.sections_list@;
            proof {
                assert(sections_view(self.sections_list@.subrange(0, i + 1)) =~= before.push(
                    self.sections_list@[i as int]@,
                ));
                before.lemma_filter_push(
                    self.sections_list@[i as int]@,
                    not_of_type(section_type@),
                );
            }
            if !(self.sections_list[i].section_type == wanted) {
                new_segment.sections_list.push(self.sections_list[i].clone());
                assert(sections_view(new_segment.sections_list@) =~= sections_view(kept).push(
                    self.sections_list@[i as int]@,
                ));
            }
            i += 1;
        }
        assert(self.sections_list@.subrange(0, i as int) =~= self.sections_list@);
        new_segment
    }

    /// The older name of [`Segment::get_every_section_except_section_type`].
    pub fn get_every_file_except_section_type(&self, section_type: &str) -> (r: Self)
        ensures
            r@ == (SegmentView {
                sections: self@.sections.filter(not_of_type(section_type@)),
                ..self@
            }),
    {
        self.get_every_section_except_section_type(section_type)
    }

    /// Where the first symbol named `name` stands: the section's position and
    /// the symbol's position in it.
    pub open spec fn locate_name(&self, name: Seq<char>) -> Option<(int, int)> {
        match first_index(self.sections_list@, section_has_name(name)) {
            Some(j) => Some((j, self.sections_list@[j].index_of_name(name)->0)),
            None => None,
        }
    }

    /// Where a lookup by virtual address ends: the first section in which
    /// it finds a symbol, the symbol's position and the offset into it.
    pub open spec fn locate_vram(&self, address: u64) -> Option<(int, int, i64)> {
        match first_index(self.sections_list@, section_has_vram(address)) {
            Some(j) => {
                let hit = locate_vram(self.sections_list@[j].symbols@, address)->0;
                Some((j, hit.0, hit.1))
            },
            None => None,
        }
    }

    /// Where a lookup by image offset ends: the first section in which it
    /// finds a symbol, the symbol's position and the offset into it.
    pub open spec fn locate_vrom(&self, address: u64) -> Option<(int, int, i64)> {
        match first_index(self.sections_list@, section_has_vrom(address)) {
            Some(j) => {
                let hit = locate_vrom(self.sections_list@[j].symbols@, address)->0;
                Some((j, hit.0, hit.1))
            },
            None => None,
        }
    }

    /// The first symbol named `sym_name`, in the order of the sections.
    pub fn find_symbol_by_name(&self, sym_name: &str) -> (r: Option<FoundSymbolInfo>)
        ensures
            match (r, self.locate_name(sym_name@)) {
                (Some(info), Some((j, k))) => *info.section == self.sections_list@[j]
                    && *info.symbol == self.sections_list@[j].symbols@[k] && info.offset == 0,
                (None, None) => true,
                _ => false,
            },
    {
        let mut i: usize = 0;
        while i < self.sections_list.len()
            invariant
                i <= self.sections_list.len(),
                forall|j: int|
                    0 <= j < i ==> !section_has_name(sym_name@)(#[trigger] self.sections_list@[j]),
            decreases self.sections_list.len() - i,
        {
            let section = &self.sections_list[i];
            if let Some(sym) = section.find_symbol_by_name(sym_name) {
                proof {
                    lemma_first_index_is(
                        self.sections_list@,
                        section_has_name(sym_name@),
                        i as int,
                    );
                }
                return Some(FoundSymbolInfo::new_default(section, sym));
            }
            i += 1;
        }
        proof {
            lemma_first_index_none(self.sections_list@, section_has_name(sym_name@));
        }
        None
    }

    /// Looks a virtual address up. Where no symbol holds it, the second part
    /// of the result lists the sections whose address range holds it.
    pub fn find_symbol_by_vram(&self, address: u64) -> (r: (
        Option<FoundSymbolInfo>,
        Vec<&Section>,
    ))
        ensures
            match (r.0, self.locate_vram(address)) {
                (Some(info), Some((j, k, offset))) => *info.section == self.sections_list@[j]
                    && *info.symbol == self.sections_list@[j].symbols@[k] && info.offset
                    == offset && r.1@.len() == 0,
                (None, None) => referents(r.1@) == self.sections_list@.filter(
                    section_spans(address),
                ),
                _ => false,
            },
    {
        let mut possible_sections: Vec<&Section> = Vec::new();
        let mut i: usize = 0;
        proof {
            reveal(Seq::filter);
            assert(referents(possible_sections@) =~= self.sections_list@.subrange(0, 0).filter(
                section_spans(address),
            ));
        }
        while i < self.sections_list.len()
            invariant
                i <= self.sections_list.len(),
                forall|j: int|
                    0 <= j < i ==> !section_has_vram(address)(#[trigger] self.sections_list@[j]),
                referents(possible_sections@) == self.sections_list@.subrange(0, i as int).filter(
                    section_spans(address),
                ),
            decreases self.sections_list.len() - i,
        {
            let section = &self.sections_list[i];
            if let Some((sym, offset)) = section.find_symbol_by_vram(address) {
                proof {
                    lemma_first_index_is(
                        self.sections_list@,
                        section_has_vram(address),
                        i as int,
                    );
                }
                return (Some(FoundSymbolInfo::new(section, sym, offset)), Vec::new());
            }
            let ghost before = self.sections_list@.subrange(0, i as int);
            let ghost listed = possible_sections@;
            proof {
                assert(self.sections_list@.subrange(0, i + 1) =~= before.push(*section));
                before.lemma_filter_push(*section, section_spans(address));
            }
            if address >= section.vram && address - section.vram < section.size {
                possible_sections.push(section);
                assert(referents(possible_sections@) =~= referents(listed).push(*section));
            }
            i += 1;
        }
        proof {
            lemma_first_index_none(self.sections_list@, section_has_vram(address));
            assert(self.sections_list@.subrange(0, i as int) =~= self.sections_list@);
        }
        (None, possible_sections)
    }

    /// Looks an image offset up. Where no symbol holds it, the second part of
    /// the result lists the sections whose range of image offsets holds it.
    pub fn find_symbol_by_vrom(&self, address: u64) -> (r: (
        Option<FoundSymbolInfo>,
        Vec<&Section>,
    ))
        ensures
            match (r.0, self.locate_vrom(address)) {
                (Some(info), Some((j, k, offset))) => *info.section == self.sections_list@[j]
                    && *info.symbol == self.sections_list@[j].symbols@[k] && info.offset
                    == offset && r.1@.len() == 0,
                (None, None) => referents(r.1@) == self.sections_list@.filter(
                    section_spans_vrom(address),
                ),
                _ => false,
            },
    {
        let mut possible_sections: Vec<&Section> = Vec::new();
        let mut i: usize = 0;
        proof {
            reveal(Seq::filter);
            assert(referents(possible_sections@) =~= self.sections_list@.subrange(0, 0).filter(
                section_spans_vrom(address),
            ));
        }
        while i < self.sections_list.len()
            invariant
                i <= self.sections_list.len(),
                forall|j: int|
                    0 <= j < i ==> !section_has_vrom(address)(#[trigger] self.sections_list@[j]),
                referents(possible_sections@) == self.sections_list@.subrange(0, i as int).filter(
                    section_spans_vrom(address),
                ),
            decreases self.sections_list.len() - i,
        {
            let section = &self.sections_list[i];
            if let Some((sym, offset)) = section.find_symbol_by_vrom(address) {
                proof {
                    lemma_first_index_is(
                        self.sections_list@,
                        section_has_vrom(address),
                        i as int,
                    );
                }
                return (Some(FoundSymbolInfo::new(section, sym, offset)), Vec::new());
            }
            let ghost before = self.sections_list@.subrange(0, i as int);
            let ghost listed = possible_sections@;
            proof {
                assert(self.sections_list@.subrange(0, i + 1) =~= before.push(*section));
                before.lemma_filter_push(*section, section_spans_vrom(address));
            }
            let spans = match section.vrom {
                Some(vrom) => address >= vrom && address - vrom < section.size,
                None => false,
            };
            if spans {
                possible_sections.push(section);
                assert(referents(possible_sections@) =~= referents(listed).push(*section));
            }
            i += 1;
        }
        proof {
            lemma_first_index_none(self.sections_list@, section_has_vrom(address));
            assert(self.sections_list@.subrange(0, i as int) =~= self.sections_list@);
        }
        (None, possible_sections)
    }

    /// Pairing placeholders with their symbols is part of reading a map, so
    /// this leaves the segment as it is.
    pub fn fixup_non_matching_symbols(&mut self)
        ensures
            *final(self) == *old(self),
    {
    }
}

/// Copies a list of segments.
pub fn clone_segments(segments: &Vec<Segment>) -> (r: Vec<Segment>)
    ensures
        segments_view(r@) == segments_view(segments@),
{
    let mut out: Vec<Segment> = Vec::new();
    let mut i: usize = 0;
    while i < segments.len()
        invariant
            i <= segments.len(),
            out.len() == i,
            forall|j: int| 0 <= j < i ==> out@[j]@ == segments@[j]@,
        decreases segments.len() - i,
    {
        out.push(segments[i].clone());
        i += 1;
    }
    assert(segments_view(out@) =~= segments_view(segments@));
    out
}

} // verus!
