//! What holding one map against another found.

use vstd::prelude::*;
use crate::section::Section;
use crate::symbol_comparison_info::{ComparedSymbol, SymbolComparisonInfo};

verus! {

/// The result of comparing two maps. A section is listed once, however many
/// of its symbols put it on a list; two sections are the same where they
/// agree in object file and type.
#[derive(Debug)]
pub struct MapsComparisonInfo<'a> {
    /// The sections that hold a symbol whose place differs.
    pub bad_sections: Vec<&'a Section>,
    /// The sections that hold a symbol that the other map does not have.
    pub missing_sections: Vec<&'a Section>,
    /// Every symbol that was looked at.
    pub compared_list: Vec<SymbolComparisonInfo<'a>>,
}

/// The mathematical value of a [`MapsComparisonInfo`].
pub struct Comparison {
    pub bad: Seq<Section>,
    pub missing: Seq<Section>,
    pub compared: Seq<ComparedSymbol>,
}

/// Two sections agree in object file and type.
pub open spec fn same_section(a: Section, b: Section) -> bool {
    a.filepath@ == b.filepath@ && a.section_type@ == b.section_type@
}

/// The list holds a section that is the same as `section`.
pub open spec fn lists_section(list: Seq<Section>, section: Section) -> bool {
    exists|i: int| 0 <= i < list.len() && same_section(#[trigger] list[i], section)
}

/// The list with `section` at its end, unless it holds the section already.
pub open spec fn listed_once(list: Seq<Section>, section: Section) -> Seq<Section> {
    if lists_section(list, section) {
        list
    } else {
        list.push(section)
    }
}

/// The sections that a list of references points to.
pub open spec fn sections_of(refs: Seq<&Section>) -> Seq<Section> {
    Seq::new(refs.len(), |i: int| *refs[i])
}

/// The values of a list of compared symbols.
pub open spec fn compared_view(list: Seq<SymbolComparisonInfo>) -> Seq<ComparedSymbol> {
    Seq::new(list.len(), |i: int| list[i]@)
}

impl<'a> View for MapsComparisonInfo<'a> {
    type V = Comparison;

    open spec fn view(&self) -> Comparison {
        Comparison {
            bad: sections_of(self.bad_sections@),
            missing: sections_of(self.missing_sections@),
            compared: compared_view(self.compared_list@),
        }
    }
}

impl<'a> MapsComparisonInfo<'a> {
    /// A comparison that lists nothing.
    pub fn new() -> (r: Self)
        ensures
            r@ == (Comparison {
                bad: Seq::empty(),
                missing: Seq::empty(),
                compared: Seq::empty(),
            }),
    {
        let r = Self {
            bad_sections: Vec::new(),
            missing_sections: Vec::new(),
            compared_list: Vec::new(),
        };
        assert(r@.bad =~= Seq::empty());
        assert(r@.missing =~= Seq::empty());
        assert(r@.compared =~= Seq::empty());
        r
    }
}

/// Puts a section on a list, unless the list holds it already.
pub fn list_once<'a>(list: &mut Vec<&'a Section>, section: &'a Section)
    ensures
        sections_of(final(list)@) == listed_once(sections_of(old(list)@), *section),
{
    let ghost before = sections_of(list@);
    let mut i: usize = 0;
    while i < list.len()
        invariant
            i <= list.len(),
            list@ == old(list)@,
            before == sections_of(list@),
            forall|j: int| 0 <= j < i ==> !same_section(#[trigger] before[j], *section),
        decreases list.len() - i,
    {
        if list[i].filepath == section.filepath && list[i].section_type == section.section_type {
            assert(same_section(before[i as int], *section));
            return ;
        }
        i += 1;
    }
    list.push(section);
    assert(sections_of(list@) =~= before.push(*section));
}

} // verus!
