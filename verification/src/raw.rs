//! The list of segments that a scan builds, line by line: what is read
//! next goes under what was read last.

use vstd::prelude::*;
use crate::section::{sections_view, Section, SectionView};
use crate::segment::{segments_view, Segment, SegmentView};
use crate::symbol::{symbols_view, Symbol, SymbolView};

verus! {

/// The list with `section` added to its last segment. A list without
/// segments stays as it is.
pub open spec fn with_section(segments: Seq<SegmentView>, section: SectionView) -> Seq<
    SegmentView,
> {
    if segments.len() == 0 {
        segments
    } else {
        let last = segments.last();
        segments.update(
            segments.len() - 1,
            SegmentView { sections: last.sections.push(section), ..last },
        )
    }
}

/// The list with `symbol` added to the last section of its last segment.
/// Where there is no such section, the list stays as it is.
pub open spec fn with_symbol(segments: Seq<SegmentView>, symbol: SymbolView) -> Seq<
    SegmentView,
> {
    if segments.len() == 0 || segments.last().sections.len() == 0 {
        segments
    } else {
        let last = segments.last();
        let section = last.sections.last();
        segments.update(
            segments.len() - 1,
            SegmentView {
                sections: last.sections.update(
                    last.sections.len() - 1,
                    SectionView { symbols: section.symbols.push(symbol), ..section },
                ),
                ..last
            },
        )
    }
}

/// The section that was read last, where the last segment has one.
pub open spec fn current_section(segments: Seq<SegmentView>) -> Option<SectionView> {
    if segments.len() == 0 || segments.last().sections.len() == 0 {
        None
    } else {
        Some(segments.last().sections.last())
    }
}

/// The list that a scan starts from: the stand-in segment alone.
pub open spec fn fresh() -> Seq<SegmentView> {
    seq![SegmentView::placeholder()]
}

/// The section that was read last, with `symbol` added to it.
pub open spec fn grown_section(section: SectionView, symbol: SymbolView) -> SectionView {
    SectionView { symbols: section.symbols.push(symbol), ..section }
}

/// Every section of every segment meets `ok`, given the segment it is in.
pub open spec fn every_placed_section(
    segments: Seq<SegmentView>,
    ok: spec_fn(SegmentView, SectionView) -> bool,
) -> bool {
    forall|i: int, j: int|
        0 <= i < segments.len() && 0 <= j < segments[i].sections.len() ==> ok(
            segments[i],
            #[trigger] segments[i].sections[j],
        )
}

/// What holds of a section, whatever segment it is in.
pub open spec fn placed(ok: spec_fn(SectionView) -> bool) -> spec_fn(
    SegmentView,
    SectionView,
) -> bool {
    |segment: SegmentView, section: SectionView| ok(section)
}

/// Every section of every segment meets `ok`.
pub open spec fn every_section(segments: Seq<SegmentView>, ok: spec_fn(SectionView) -> bool)
    -> bool {
    every_placed_section(segments, placed(ok))
}

/// What holds of a section does not depend on the other sections of its
/// segment.
pub open spec fn ignores_sections(ok: spec_fn(SegmentView, SectionView) -> bool) -> bool {
    forall|segment: SegmentView, sections: Seq<SectionView>, section: SectionView|
        ok(segment, section) == #[trigger] ok(SegmentView { sections, ..segment }, section)
}

/// What holds of every section of a list holds of the list that a scan
/// starts from, where it holds of the stand-in section.
pub proof fn lemma_fresh_keeps(ok: spec_fn(SegmentView, SectionView) -> bool)
    requires
        ok(SegmentView::placeholder(), SectionView::placeholder()),
    ensures
        every_placed_section(fresh(), ok),
{
}

/// A new segment without sections leaves what holds of every section.
pub proof fn lemma_empty_segment_keeps(
    segments: Seq<SegmentView>,
    segment: SegmentView,
    ok: spec_fn(SegmentView, SectionView) -> bool,
)
    requires
        every_placed_section(segments, ok),
        forall|j: int| 0 <= j < segment.sections.len() ==> ok(segment, segment.sections[j]),
    ensures
        every_placed_section(segments.push(segment), ok),
{
    let after = segments.push(segment);
    assert forall|i: int, j: int|
        0 <= i < after.len() && 0 <= j < after[i].sections.len() implies ok(
        after[i],
        #[trigger] after[i].sections[j],
    ) by {
        if i < segments.len() {
            assert(ok(segments[i], segments[i].sections[j]));
        }
    }
}

/// A new section leaves what holds of every section, where it holds of the
/// new one.
pub proof fn lemma_with_section_keeps(
    segments: Seq<SegmentView>,
    section: SectionView,
    ok: spec_fn(SegmentView, SectionView) -> bool,
)
    requires
        every_placed_section(segments, ok),
        ignores_sections(ok),
        segments.len() > 0 ==> ok(segments.last(), section),
    ensures
        every_placed_section(with_section(segments, section), ok),
{
    let after = with_section(segments, section);
    if segments.len() > 0 {
        let last = segments.last();
        assert forall|i: int, j: int|
            0 <= i < after.len() && 0 <= j < after[i].sections.len() implies ok(
            after[i],
            #[trigger] after[i].sections[j],
        ) by {
            if i < segments.len() - 1 {
                assert(ok(segments[i], segments[i].sections[j]));
            } else {
                assert(after[i] == SegmentView { sections: last.sections.push(section), ..last });
                if j < last.sections.len() {
                    assert(ok(segments[i], segments[i].sections[j]));
                    assert(after[i].sections[j] == last.sections[j]);
                } else {
                    assert(after[i].sections[j] == section);
                }
                assert(ok(last, after[i].sections[j]));
            }
        }
    }
}

/// A new symbol leaves what holds of every section, where it holds of the
/// section that the symbol is added to.
pub proof fn lemma_with_symbol_keeps(
    segments: Seq<SegmentView>,
    symbol: SymbolView,
    ok: spec_fn(SegmentView, SectionView) -> bool,
)
    requires
        every_placed_section(segments, ok),
        ignores_sections(ok),
        current_section(segments) is Some ==> ok(
            segments.last(),
            grown_section(current_section(segments)->0, symbol),
        ),
    ensures
        every_placed_section(with_symbol(segments, symbol), ok),
{
    let after = with_symbol(segments, symbol);
    if current_section(segments) is Some {
        let last = segments.last();
        let grown = grown_section(last.sections.last(), symbol);
        let sections = last.sections.update(last.sections.len() - 1, grown);
        assert forall|i: int, j: int|
            0 <= i < after.len() && 0 <= j < after[i].sections.len() implies ok(
            after[i],
            #[trigger] after[i].sections[j],
        ) by {
            if i < segments.len() - 1 {
                assert(ok(segments[i], segments[i].sections[j]));
            } else {
                assert(after[i] == SegmentView { sections, ..last });
                if j < last.sections.len() - 1 {
                    assert(ok(segments[i], segments[i].sections[j]));
                    assert(after[i].sections[j] == last.sections[j]);
                } else {
                    assert(after[i].sections[j] == grown);
                }
                assert(ok(last, after[i].sections[j]));
            }
        }
    }
}

/// The list that a scan starts from.
pub fn new_list() -> (r: Vec<Segment>)
    ensures
        segments_view(r@) == fresh(),
{
    let mut list: Vec<Segment> = Vec::new();
    list.push(Segment::new_placeholder());
    assert(segments_view(list@) =~= fresh());
    list
}

/// Starts a new segment.
pub fn push_segment(segments: &mut Vec<Segment>, segment: Segment)
    ensures
        segments_view(final(segments)@) == segments_view(old(segments)@).push(segment@),
{
    segments.push(segment);
    assert(segments_view(segments@) =~= segments_view(old(segments)@).push(segment@));
}

/// Starts a new section in the last segment.
pub fn push_section(segments: &mut Vec<Segment>, section: Section)
    ensures
        segments_view(final(segments)@) == with_section(segments_view(old(segments)@), section@),
{
    let n: usize = segments.len();
    if n == 0 {
        return ;
    }
    let ghost before = segments@[n - 1].sections_list@;
    segments[n - 1].sections_list.push(section);
    proof {
        assert(sections_view(segments@[n - 1].sections_list@) =~= sections_view(before).push(
            section@,
        ));
        assert(segments_view(segments@) =~= with_section(
            segments_view(old(segments)@),
            section@,
        ));
    }
}

/// Adds a symbol to the section that was read last.
pub fn push_symbol(segments: &mut Vec<Segment>, symbol: Symbol)
    ensures
        segments_view(final(segments)@) == with_symbol(segments_view(old(segments)@), symbol@),
{
    let n: usize = segments.len();
    if n == 0 {
        return ;
    }
    let m: usize = segments[n - 1].sections_list.len();
    if m == 0 {
        assert(segments_view(old(segments)@).last().sections.len() == 0);
        return ;
    }
    let ghost sections_before = segments@[n - 1].sections_list@;
    let ghost symbols_before = segments@[n - 1].sections_list@[m - 1].symbols@;
    segments[n - 1].sections_list[m - 1].symbols.push(symbol);
    proof {
        let sections_after = segments@[n - 1].sections_list@;
        assert(symbols_view(sections_after[m - 1].symbols@) =~= symbols_view(
            symbols_before,
        ).push(symbol@));
        assert(sections_view(sections_after) =~= sections_view(sections_before).update(
            m - 1,
            SectionView {
                symbols: sections_before[m - 1]@.symbols.push(symbol@),
                ..sections_before[m - 1]@
            },
        ));
        assert(segments_view(segments@) =~= with_symbol(segments_view(old(segments)@), symbol@));
    }
}

/// The section that was read last, where the last segment has one.
pub fn last_section(segments: &Vec<Segment>) -> (r: Option<&Section>)
    ensures
        match r {
            Some(section) => current_section(segments_view(segments@)) == Some(section@),
            None => current_section(segments_view(segments@)) is None,
        },
{
    let n: usize = segments.len();
    if n == 0 {
        return None;
    }
    let m: usize = segments[n - 1].sections_list.len();
    if m == 0 {
        return None;
    }
    Some(&segments[n - 1].sections_list[m - 1])
}

} // verus!
