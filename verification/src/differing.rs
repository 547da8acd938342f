//! Finding where a build first departs from the map it was expected to
//! match.

use vstd::prelude::*;
use crate::mapfile::{MapFile, Place};
use crate::section::Section;
use crate::segment::Segment;
use crate::symbol::Symbol;

verus! {

impl MapFile {
    /// The section at a place.
    pub open spec fn section_at(&self, place: Place) -> Section {
        self.segments_list@[place.segment].sections_list@[place.section]
    }

    /// The symbol at a place.
    pub open spec fn symbol_at(&self, place: Place) -> Symbol {
        self.section_at(place).symbols@[place.symbol]
    }
}

/// The map `other` has a symbol of this name, the first of which stands
/// at another address.
pub open spec fn has_moved(symbol: Symbol, other: MapFile) -> bool {
    match other.locate_name(symbol.name@) {
        Some(place) => other.symbol_at(place).vram != symbol.vram,
        None => false,
    }
}

/// The address that a symbol must lie below to be lower than `best`.
pub open spec fn bound_of(map: MapFile, best: Option<Place>) -> u64 {
    match best {
        Some(place) => map.symbol_at(place).vram,
        None => u64::MAX,
    }
}

/// The lowest moved symbol so far, after the symbol at `(i, j, k)` has been
/// looked at: that symbol where it has moved and lies below the bound.
pub open spec fn lower_of(map: MapFile, other: MapFile, best: Option<Place>, i: int, j: int, k: int)
    -> Option<Place> {
    let symbol = map.segments_list@[i].sections_list@[j].symbols@[k];
    if has_moved(symbol, other) && symbol.vram < bound_of(map, best) {
        Some(Place { segment: i, section: j, symbol: k, offset: 0 })
    } else {
        best
    }
}

/// The lowest moved symbol after the first `k` symbols of the section at
/// `(i, j)`.
pub open spec fn lowest_in_symbols(
    map: MapFile,
    other: MapFile,
    best: Option<Place>,
    i: int,
    j: int,
    k: int,
) -> Option<Place>
    decreases k,
{
    if k <= 0 {
        best
    } else {
        lower_of(map, other, lowest_in_symbols(map, other, best, i, j, k - 1), i, j, k - 1)
    }
}

/// The lowest moved symbol after the first `j` sections of the segment at
/// `i`.
pub open spec fn lowest_in_sections(
    map: MapFile,
    other: MapFile,
    best: Option<Place>,
    i: int,
    j: int,
) -> Option<Place>
    decreases j,
{
    if j <= 0 {
        best
    } else {
        lowest_in_symbols(
            map,
            other,
            lowest_in_sections(map, other, best, i, j - 1),
            i,
            j - 1,
            map.segments_list@[i].sections_list@[j - 1].symbols@.len() as int,
        )
    }
}

/// The lowest moved symbol among the first `i` segments.
pub open spec fn lowest_in_segments(map: MapFile, other: MapFile, i: int) -> Option<Place>
    decreases i,
{
    if i <= 0 {
        None
    } else {
        lowest_in_sections(
            map,
            other,
            lowest_in_segments(map, other, i - 1),
            i - 1,
            map.segments_list@[i - 1].sections_list@.len() as int,
        )
    }
}

/// The symbol of `map` with the lowest address among those that `other`
/// has at another address; the first such symbol, in the order of the map,
/// where several share that address.
pub open spec fn lowest_differing(map: MapFile, other: MapFile) -> Option<Place> {
    lowest_in_segments(map, other, map.segments_list@.len() as int)
}

/// The last section with symbols before the section at `(i, j)`, in the
/// order of the map.
pub open spec fn last_filled_before(segments: Seq<Segment>, i: int, j: int) -> Option<(int, int)>
    decreases i, j,
{
    if i < 0 || j < 0 {
        None
    } else if j > 0 {
        if segments[i].sections_list@[j - 1].symbols@.len() > 0 {
            Some((i, j - 1))
        } else {
            last_filled_before(segments, i, j - 1)
        }
    } else if i > 0 {
        last_filled_before(segments, i - 1, segments[i - 1].sections_list@.len() as int)
    } else {
        None
    }
}

/// The symbol that stands before the one at `place`: the one before it in
/// its section, else the last symbol of the last section with symbols
/// before that section.
pub open spec fn previous_symbol(map: MapFile, place: Place) -> Option<Place> {
    if place.symbol > 0 {
        Some(Place { symbol: place.symbol - 1, ..place })
    } else {
        match last_filled_before(map.segments_list@, place.segment, place.section) {
            Some((i, j)) => Some(
                Place {
                    segment: i,
                    section: j,
                    symbol: map.segments_list@[i].sections_list@[j].symbols@.len() - 1,
                    offset: 0,
                },
            ),
            None => None,
        }
    }
}

/// Every position of a place lies inside the map.
pub open spec fn in_map(map: MapFile, place: Place) -> bool {
    &&& 0 <= place.segment < map.segments_list@.len()
    &&& 0 <= place.section < map.segments_list@[place.segment].sections_list@.len()
    &&& 0 <= place.symbol < map.section_at(place).symbols@.len()
}

/// The place `q` comes before the position `(i, j, k)` in the order of the
/// map.
pub open spec fn comes_before(q: Place, i: int, j: int, k: int) -> bool {
    q.segment < i || (q.segment == i && (q.section < j || (q.section == j && q.symbol < k)))
}

/// `best` is the lowest moved symbol among those before the position
/// `(i, j, k)`: it has moved and lies below `u64::MAX`, no moved symbol
/// before the position lies lower, and none before it lies as low. Where
/// `best` is none, no moved symbol before the position lies below
/// `u64::MAX`.
pub open spec fn is_lowest_before(
    map: MapFile,
    other: MapFile,
    best: Option<Place>,
    i: int,
    j: int,
    k: int,
) -> bool {
    match best {
        Some(place) => {
            &&& in_map(map, place)
            &&& comes_before(place, i, j, k)
            &&& has_moved(map.symbol_at(place), other)
            &&& map.symbol_at(place).vram < u64::MAX
            &&& forall|q: Place|
                #[trigger] in_map(map, q) && comes_before(q, i, j, k) && has_moved(
                    map.symbol_at(q),
                    other,
                ) ==> map.symbol_at(place).vram < map.symbol_at(q).vram || (map.symbol_at(
                    place,
                ).vram == map.symbol_at(q).vram && !comes_before(
                    q,
                    place.segment,
                    place.section,
                    place.symbol,
                ))
        },
        None => forall|q: Place|
            #[trigger] in_map(map, q) && comes_before(q, i, j, k) && has_moved(
                map.symbol_at(q),
                other,
            ) ==> map.symbol_at(q).vram == u64::MAX,
    }
}

proof fn lemma_lowest_in_symbols(
    map: MapFile,
    other: MapFile,
    best: Option<Place>,
    i: int,
    j: int,
    k: int,
)
    requires
        0 <= i < map.segments_list@.len(),
        0 <= j < map.segments_list@[i].sections_list@.len(),
        0 <= k <= map.segments_list@[i].sections_list@[j].symbols@.len(),
        is_lowest_before(map, other, best, i, j, 0),
    ensures
        is_lowest_before(map, other, lowest_in_symbols(map, other, best, i, j, k), i, j, k),
    decreases k,
{
    if k > 0 {
        lemma_lowest_in_symbols(map, other, best, i, j, k - 1);
        let before = lowest_in_symbols(map, other, best, i, j, k - 1);
        let after = lowest_in_symbols(map, other, best, i, j, k);
        let here = Place { segment: i, section: j, symbol: k - 1, offset: 0 };
        assert(in_map(map, here));
        assert forall|q: Place|
            #[trigger] in_map(map, q) && comes_before(q, i, j, k) && !comes_before(
                q,
                i,
                j,
                k - 1,
            ) implies map.symbol_at(q) == map.symbol_at(here) by {}
    }
}

proof fn lemma_lowest_in_sections(map: MapFile, other: MapFile, best: Option<Place>, i: int, j: int)
    requires
        0 <= i < map.segments_list@.len(),
        0 <= j <= map.segments_list@[i].sections_list@.len(),
        is_lowest_before(map, other, best, i, 0, 0),
    ensures
        is_lowest_before(map, other, lowest_in_sections(map, other, best, i, j), i, j, 0),
    decreases j,
{
    if j > 0 {
        lemma_lowest_in_sections(map, other, best, i, j - 1);
        let before = lowest_in_sections(map, other, best, i, j - 1);
        let count = map.segments_list@[i].sections_list@[j - 1].symbols@.len() as int;
        lemma_lowest_in_symbols(map, other, before, i, j - 1, count);
        assert forall|q: Place| #[trigger] in_map(map, q) implies (comes_before(q, i, j, 0)
            <==> comes_before(q, i, j - 1, count)) by {}
    }
}

proof fn lemma_lowest_in_segments(map: MapFile, other: MapFile, i: int)
    requires
        0 <= i <= map.segments_list@.len(),
    ensures
        is_lowest_before(map, other, lowest_in_segments(map, other, i), i, 0, 0),
    decreases i,
{
    if i > 0 {
        lemma_lowest_in_segments(map, other, i - 1);
        let before = lowest_in_segments(map, other, i - 1);
        let count = map.segments_list@[i - 1].sections_list@.len() as int;
        lemma_lowest_in_sections(map, other, before, i - 1, count);
        assert forall|q: Place| #[trigger] in_map(map, q) implies (comes_before(q, i, 0, 0)
            <==> comes_before(q, i - 1, count, 0)) by {}
    }
}

/// What is found is a moved symbol below `u64::MAX`; no moved symbol of the
/// map lies lower, and none before it in the map lies as low. Where
/// nothing is found, no moved symbol lies below `u64::MAX`.
pub proof fn lemma_lowest_differing_is_lowest(map: MapFile, other: MapFile)
    ensures
        match lowest_differing(map, other) {
            Some(place) => {
                &&& in_map(map, place)
                &&& has_moved(map.symbol_at(place), other)
                &&& map.symbol_at(place).vram < u64::MAX
                &&& forall|q: Place|
                    #[trigger] in_map(map, q) && has_moved(map.symbol_at(q), other)
                        ==> map.symbol_at(place).vram <= map.symbol_at(q).vram
                &&& forall|q: Place|
                    #[trigger] in_map(map, q) && has_moved(map.symbol_at(q), other)
                        && comes_before(q, place.segment, place.section, place.symbol)
                        ==> map.symbol_at(place).vram < map.symbol_at(q).vram
            },
            None => forall|q: Place|
                #[trigger] in_map(map, q) && has_moved(map.symbol_at(q), other) ==> map.symbol_at(
                    q,
                ).vram == u64::MAX,
        },
{
    let n = map.segments_list@.len() as int;
    lemma_lowest_in_segments(map, other, n);
    assert forall|q: Place| #[trigger] in_map(map, q) implies comes_before(q, n, 0, 0) by {}
}

fn last_symbol_before<'a>(map: &'a MapFile, from_segment: usize, from_section: usize) -> (r:
    Option<&'a Symbol>)
    requires
        from_segment < map.segments_list@.len(),
        from_section <= map.segments_list@[from_segment as int].sections_list@.len(),
    ensures
        match (r, last_filled_before(map.segments_list@, from_segment as int, from_section as int)) {
            (Some(symbol), Some((i, j))) => 0 <= i < map.segments_list@.len() && 0 <= j
                < map.segments_list@[i].sections_list@.len()
                && map.segments_list@[i].sections_list@[j].symbols@.len() > 0 && *symbol
                == map.segments_list@[i].sections_list@[j].symbols@.last(),
            (None, None) => true,
            _ => false,
        },
{
    let mut i: usize = from_segment;
    let mut j: usize = from_section;
    loop
        invariant
            i < map.segments_list@.len(),
            j <= map.segments_list@[i as int].sections_list@.len(),
            last_filled_before(map.segments_list@, from_segment as int, from_section as int)
                == last_filled_before(map.segments_list@, i as int, j as int),
        decreases i, j,
    {
        if j > 0 {
            let section = &map.segments_list[i].sections_list[j - 1];
            if section.symbols.len() > 0 {
                return Some(&section.symbols[section.symbols.len() - 1]);
            }
            j -= 1;
        } else if i > 0 {
            i -= 1;
            j = map.segments_list[i].sections_list.len();
        } else {
            return None;
        }
    }
}

impl MapFile {
    /// Finds the symbol with the lowest address among those that the other
    /// map has at another address, with its section and the symbol that
    /// stands before it.
    pub fn find_lowest_differing_symbol(&self, other_map_file: &Self) -> (r: Option<
        (&Symbol, &Section, Option<&Symbol>),
    >)
        ensures
            match (r, lowest_differing(*self, *other_map_file)) {
                (Some((symbol, section, previous)), Some(place)) => {
                    &&& in_map(*self, place)
                    &&& *symbol == self.symbol_at(place)
                    &&& *section == self.section_at(place)
                    &&& match (previous, previous_symbol(*self, place)) {
                        (Some(symbol), Some(before)) => *symbol == self.symbol_at(before),
                        (None, None) => true,
                        _ => false,
                    }
                },
                (None, None) => true,
                _ => false,
            },
    {
        let mut min_vram: u64 = u64::MAX;
        let mut found: Option<(usize, usize, usize)> = None;
        let ghost mut best: Option<Place> = None;
        let mut i: usize = 0;
        while i < self.segments_list.len()
            invariant
                i <= self.segments_list.len(),
                best == lowest_in_segments(*self, *other_map_file, i as int),
                min_vram == bound_of(*self, best),
                match (found, best) {
                    (Some((a, b, c)), Some(place)) => place == (Place {
                        segment: a as int,
                        section: b as int,
                        symbol: c as int,
                        offset: 0,
                    }) && in_map(*self, place),
                    (None, None) => true,
                    _ => false,
                },
            decreases self.segments_list.len() - i,
        {
            let ghost segment_start = best;
            let mut j: usize = 0;
            while j < self.segments_list[i].sections_list.len()
                invariant
                    i < self.segments_list.len(),
                    j <= self.segments_list@[i as int].sections_list@.len(),
                    best == lowest_in_sections(
                        *self,
                        *other_map_file,
                        segment_start,
                        i as int,
                        j as int,
                    ),
                    min_vram == bound_of(*self, best),
                    match (found, best) {
                        (Some((a, b, c)), Some(place)) => place == (Place {
                            segment: a as int,
                            section: b as int,
                            symbol: c as int,
                            offset: 0,
                        }) && in_map(*self, place),
                        (None, None) => true,
                        _ => false,
                    },
                decreases self.segments_list@[i as int].sections_list@.len() - j,
            {
                let ghost section_start = best;
                let built_file = &self.segments_list[i].sections_list[j];
                let mut k: usize = 0;
                while k < built_file.symbols.len()
                    invariant
                        i < self.segments_list.len(),
                        j < self.segments_list@[i as int].sections_list@.len(),
                        *built_file == self.segments_list@[i as int].sections_list@[j as int],
                        k <= built_file.symbols@.len(),
                        best == lowest_in_symbols(
                            *self,
                            *other_map_file,
                            section_start,
                            i as int,
                            j as int,
                            k as int,
                        ),
                        min_vram == bound_of(*self, best),
                        match (found, best) {
                            (Some((a, b, c)), Some(place)) => place == (Place {
                                segment: a as int,
                                section: b as int,
                                symbol: c as int,
                                offset: 0,
                            }) && in_map(*self, place),
                            (None, None) => true,
                            _ => false,
                        },
                    decreases built_file.symbols@.len() - k,
                {
                    let built_sym = &built_file.symbols[k];
                    if let Some(expected) = other_map_file.find_symbol_by_name(
                        built_sym.name.as_str(),
                    ) {
                        if built_sym.vram != expected.symbol.vram && built_sym.vram < min_vram {
                            min_vram = built_sym.vram;
                            found = Some((i, j, k));
                            proof {
                                best = Some(
                                    Place {
                                        segment: i as int,
                                        section: j as int,
                                        symbol: k as int,
                                        offset: 0,
                                    },
                                );
                            }
                        }
                    }
                    k += 1;
                }
                j += 1;
            }
            i += 1;
        }
        match found {
            Some((a, b, c)) => {
                let section = &self.segments_list[a].sections_list[b];
                let symbol = &section.symbols[c];
                let previous = if c > 0 {
                    Some(&section.symbols[c - 1])
                } else {
                    last_symbol_before(self, a, b)
                };
                Some((symbol, section, previous))
            },
            None => None,
        }
    }
}

} // verus!
