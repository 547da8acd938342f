//! A progress report in the shape that object-diffing tools read: one unit
//! per object file, with what it holds and how much of it is matched.
//!
//! The report holds the counts and sizes of each unit. The percentages that
//! a reader of the report expects follow from them, and they and the sums
//! over all units are left for the caller to work out.

use vstd::prelude::*;
use vstd::string::StringExecFns;
use crate::decomp::{settings_view, PathDecompSettings, PathDecompSettingsView};
use crate::format::{hex_text, to_hex};
use crate::mapfile::MapFile;
use crate::progress::section_states;
use crate::search::{first_index, lemma_first_index, lemma_first_index_is, lemma_first_index_none};
use crate::section::Section;
use crate::segment::Segment;
use crate::symbol_decomp_state::SymbolDecompState;
use crate::text::{
    chars_of, find_from, first_occurrence, has_prefix, lemma_first_occurrence, same_text,
    starts_with, texts_of,
};

verus! {

/// What a unit, or a set of units, amounts to. The sums saturate.
#[derive(Debug, Clone, Copy, PartialEq, Eq, Structural)]
pub struct Measures {
    pub total_code: u64,
    pub matched_code: u64,
    pub total_data: u64,
    pub matched_data: u64,
    pub total_functions: u32,
    pub matched_functions: u32,
    pub total_units: u32,
}

/// How much of an item is matched.
#[derive(Debug, Clone, Copy, PartialEq, Eq, Structural)]
pub enum MatchLevel {
    /// Nothing of it.
    Nothing,
    /// All of it.
    Full,
    /// `matched` bytes out of `total`, with `total` above zero.
    Part { matched: u64, total: u64 },
}

/// A section or a function of a unit.
#[derive(Debug)]
pub struct ReportItem {
    pub name: String,
    pub size: u64,
    pub matching: MatchLevel,
    pub virtual_address: u64,
}

/// The mathematical value of a [`ReportItem`].
pub struct ReportItemView {
    pub name: Seq<char>,
    pub size: u64,
    pub matching: MatchLevel,
    pub virtual_address: u64,
}

impl View for ReportItem {
    type V = ReportItemView;

    open spec fn view(&self) -> ReportItemView {
        ReportItemView {
            name: self.name@,
            size: self.size,
            matching: self.matching,
            virtual_address: self.virtual_address,
        }
    }
}

/// The values of a list of items.
pub open spec fn items_view(items: Seq<ReportItem>) -> Seq<ReportItemView> {
    Seq::new(items.len(), |i: int| items[i]@)
}

/// Where a unit comes from and what it counts towards.
#[derive(Debug)]
pub struct ReportUnitMetadata {
    /// The name of the segment.
    pub module_name: String,
    /// The position of the segment in the map, cut to 32 bits.
    pub module_id: u32,
    /// The identifiers of the categories that the unit counts towards.
    pub progress_categories: Vec<String>,
}

/// The mathematical value of a [`ReportUnitMetadata`].
pub struct ReportUnitMetadataView {
    pub module_name: Seq<char>,
    pub module_id: u32,
    pub progress_categories: Seq<Seq<char>>,
}

impl View for ReportUnitMetadata {
    type V = ReportUnitMetadataView;

    open spec fn view(&self) -> ReportUnitMetadataView {
        ReportUnitMetadataView {
            module_name: self.module_name@,
            module_id: self.module_id,
            progress_categories: texts_of(self.progress_categories@),
        }
    }
}

/// One unit of a report.
#[derive(Debug)]
pub struct ReportUnit {
    pub name: String,
    pub measures: Option<Measures>,
    pub sections: Vec<ReportItem>,
    pub functions: Vec<ReportItem>,
    pub metadata: Option<ReportUnitMetadata>,
}

/// The mathematical value of a [`ReportUnit`].
pub struct ReportUnitView {
    pub name: Seq<char>,
    pub measures: Option<Measures>,
    pub sections: Seq<ReportItemView>,
    pub functions: Seq<ReportItemView>,
    pub metadata: Option<ReportUnitMetadataView>,
}

impl View for ReportUnit {
    type V = ReportUnitView;

    open spec fn view(&self) -> ReportUnitView {
        ReportUnitView {
            name: self.name@,
            measures: self.measures,
            sections: items_view(self.sections@),
            functions: items_view(self.functions@),
            metadata: match self.metadata {
                Some(metadata) => Some(metadata@),
                None => None,
            },
        }
    }
}

/// The values of a list of units.
pub open spec fn units_view(units: Seq<ReportUnit>) -> Seq<ReportUnitView> {
    Seq::new(units.len(), |i: int| units[i]@)
}

/// A category of a report: sections whose unit name starts with one of the
/// paths count towards it.
#[derive(Debug)]
pub struct ReportCategoryEntry {
    id: String,
    name: String,
    paths: Vec<String>,
}

/// The mathematical value of a [`ReportCategoryEntry`].
pub struct ReportCategoryEntryView {
    pub id: Seq<char>,
    pub name: Seq<char>,
    pub paths: Seq<Seq<char>>,
}

impl View for ReportCategoryEntry {
    type V = ReportCategoryEntryView;

    closed spec fn view(&self) -> ReportCategoryEntryView {
        ReportCategoryEntryView { id: self.id@, name: self.name@, paths: texts_of(self.paths@) }
    }
}

/// The categories of a report, in the order in which they were added.
#[derive(Debug)]
pub struct ReportCategories {
    categories: Vec<ReportCategoryEntry>,
}

impl View for ReportCategories {
    type V = Seq<ReportCategoryEntryView>;

    closed spec fn view(&self) -> Seq<ReportCategoryEntryView> {
        Seq::new(self.categories@.len(), |i: int| self.categories@[i]@)
    }
}

/// A whole report: its units, and its categories by identifier and name.
#[derive(Debug)]
pub struct Report {
    pub units: Vec<ReportUnit>,
    pub categories: Vec<(String, String)>,
}

/// The mathematical value of a [`Report`].
pub struct ReportView {
    pub units: Seq<ReportUnitView>,
    pub categories: Seq<(Seq<char>, Seq<char>)>,
}

impl View for Report {
    type V = ReportView;

    open spec fn view(&self) -> ReportView {
        ReportView {
            units: units_view(self.units@),
            categories: Seq::new(
                self.categories@.len(),
                |i: int| (self.categories@[i].0@, self.categories@[i].1@),
            ),
        }
    }
}

/// The sum of two measures. A merged unit still counts as one unit.
pub open spec fn merged_measures(a: Option<Measures>, b: Option<Measures>) -> Option<Measures> {
    match (a, b) {
        (None, None) => None,
        (None, Some(b)) => Some(b),
        (Some(a), None) => Some(a),
        (Some(a), Some(b)) => Some(
            Measures {
                total_code: a.total_code.saturating_add(b.total_code),
                matched_code: a.matched_code.saturating_add(b.matched_code),
                total_data: a.total_data.saturating_add(b.total_data),
                matched_data: a.matched_data.saturating_add(b.matched_data),
                total_functions: a.total_functions.saturating_add(b.total_functions),
                matched_functions: a.matched_functions.saturating_add(b.matched_functions),
                total_units: 1,
            },
        ),
    }
}

/// Adds up the measures of two parts of one unit.
pub fn merge_measures(a: Option<Measures>, b: Option<Measures>) -> (r: Option<Measures>)
    ensures
        r == merged_measures(a, b),
{
    match (a, b) {
        (None, None) => None,
        (None, Some(b)) => Some(b),
        (Some(a), None) => Some(a),
        (Some(a), Some(b)) => Some(
            Measures {
                total_code: a.total_code.saturating_add(b.total_code),
                matched_code: a.matched_code.saturating_add(b.matched_code),
                total_data: a.total_data.saturating_add(b.total_data),
                matched_data: a.matched_data.saturating_add(b.matched_data),
                total_functions: a.total_functions.saturating_add(b.total_functions),
                matched_functions: a.matched_functions.saturating_add(b.matched_functions),
                total_units: 1,
            },
        ),
    }
}

/// The section types that hold no part of the program: notes, comments and
/// debugging data.
pub open spec fn banned_section_type(name: Seq<char>) -> bool {
    ||| name == ".note"@
    ||| name == ".comment"@
    ||| name == ".pdr"@
    ||| name == ".mdebug"@
    ||| name == ".mdebug.abi32"@
    ||| name == ".debug"@
    ||| name == ".line"@
    ||| name == ".debug_srcinfo"@
    ||| name == ".debug_sfnames"@
    ||| name == ".debug_aranges"@
    ||| name == ".debug_pubnames"@
    ||| name == ".debug_info"@
    ||| name == ".debug_abbrev"@
    ||| name == ".debug_line"@
    ||| name == ".debug_line_end"@
    ||| name == ".debug_frame"@
    ||| name == ".debug_str"@
    ||| name == ".debug_loc"@
    ||| name == ".debug_macinfo"@
    ||| name == ".debug_weaknames"@
    ||| name == ".debug_funcnames"@
    ||| name == ".debug_typenames"@
    ||| name == ".debug_varnames"@
    ||| name == ".debug_pubtypes"@
    ||| name == ".debug_ranges"@
    ||| name == ".debug_addr"@
    ||| name == ".debug_line_str"@
    ||| name == ".debug_loclists"@
    ||| name == ".debug_macro"@
    ||| name == ".debug_names"@
    ||| name == ".debug_rnglists"@
    ||| name == ".debug_str_offsets"@
    ||| name == ".debug_sup"@
    ||| name == ".gnu.attributes"@
}

/// Whether a section of this type holds no part of the program.
pub fn is_banned_section_type(name: &str) -> (r: bool)
    ensures
        r == banned_section_type(name@),
{
    same_text(name, ".note") || same_text(name, ".comment") || same_text(name, ".pdr")
        || same_text(name, ".mdebug") || same_text(name, ".mdebug.abi32") || same_text(
        name,
        ".debug",
    ) || same_text(name, ".line") || same_text(name, ".debug_srcinfo") || same_text(
        name,
        ".debug_sfnames",
    ) || same_text(name, ".debug_aranges") || same_text(name, ".debug_pubnames") || same_text(
        name,
        ".debug_info",
    ) || same_text(name, ".debug_abbrev") || same_text(name, ".debug_line") || same_text(
        name,
        ".debug_line_end",
    ) || same_text(name, ".debug_frame") || same_text(name, ".debug_str") || same_text(
        name,
        ".debug_loc",
    ) || same_text(name, ".debug_macinfo") || same_text(name, ".debug_weaknames") || same_text(
        name,
        ".debug_funcnames",
    ) || same_text(name, ".debug_typenames") || same_text(name, ".debug_varnames") || same_text(
        name,
        ".debug_pubtypes",
    ) || same_text(name, ".debug_ranges") || same_text(name, ".debug_addr") || same_text(
        name,
        ".debug_line_str",
    ) || same_text(name, ".debug_loclists") || same_text(name, ".debug_macro") || same_text(
        name,
        ".debug_names",
    ) || same_text(name, ".debug_rnglists") || same_text(name, ".debug_str_offsets")
        || same_text(name, ".debug_sup") || same_text(name, ".gnu.attributes")
}

/// A section of this type holds code.
pub open spec fn code_section_type(name: Seq<char>) -> bool {
    has_prefix(name, ".text"@) || has_prefix(name, ".start"@) || has_prefix(name, ".init"@)
}

/// Whether a section of this type holds code.
pub fn is_code_section_type(name: &str) -> (r: bool)
    ensures
        r == code_section_type(name@),
{
    starts_with(name, ".text") || starts_with(name, ".start") || starts_with(name, ".init")
}

/// The category carries the identifier `id`.
pub open spec fn has_id(id: Seq<char>) -> spec_fn(ReportCategoryEntryView) -> bool {
    |entry: ReportCategoryEntryView| entry.id == id
}

/// The categories after one has been added: a category whose identifier is
/// listed already gets the new paths after its own, and keeps its name; any
/// other is added at the end.
pub open spec fn pushed(
    categories: Seq<ReportCategoryEntryView>,
    id: Seq<char>,
    name: Seq<char>,
    paths: Seq<Seq<char>>,
) -> Seq<ReportCategoryEntryView> {
    match first_index(categories, has_id(id)) {
        Some(k) => categories.update(
            k,
            ReportCategoryEntryView { paths: categories[k].paths + paths, ..categories[k] },
        ),
        None => categories.push(ReportCategoryEntryView { id, name, paths }),
    }
}

/// The position of the category `id` after it has been added.
pub open spec fn pushed_at(categories: Seq<ReportCategoryEntryView>, id: Seq<char>) -> int {
    match first_index(categories, has_id(id)) {
        Some(k) => k,
        None => categories.len() as int,
    }
}

/// The unit name `section_name` starts with one of the first `n` paths.
pub open spec fn starts_with_any(section_name: Seq<char>, paths: Seq<Seq<char>>, n: int) -> bool
    decreases n,
{
    n > 0 && (starts_with_any(section_name, paths, n - 1) || has_prefix(
        section_name,
        paths[n - 1],
    ))
}

/// The unit named `section_name` counts towards the category.
pub open spec fn covers(entry: ReportCategoryEntryView, section_name: Seq<char>) -> bool {
    starts_with_any(section_name, entry.paths, entry.paths.len() as int)
}

/// The identifiers of those among the first `k` categories that the unit
/// named `section_name` counts towards.
pub open spec fn covering_ids(
    categories: Seq<ReportCategoryEntryView>,
    section_name: Seq<char>,
    k: int,
) -> Seq<Seq<char>>
    decreases k,
{
    if k <= 0 {
        Seq::empty()
    } else {
        let done = covering_ids(categories, section_name, k - 1);
        if covers(categories[k - 1], section_name) {
            done.push(categories[k - 1].id)
        } else {
            done
        }
    }
}

/// What stands before the first `/` of a name, or the whole name where it
/// holds none.
pub open spec fn first_component(name: Seq<char>) -> Seq<char> {
    match first_occurrence(name, "/"@, 0) {
        Some(k) => name.subrange(0, k),
        None => name,
    }
}

/// The identifiers of the categories that the unit named `section_name`
/// counts towards. Where no category covers it, it counts towards one named
/// after the first component of its name.
pub open spec fn category_ids(categories: Seq<ReportCategoryEntryView>, section_name: Seq<char>)
    -> Seq<Seq<char>> {
    let ids = covering_ids(categories, section_name, categories.len() as int);
    if ids.len() > 0 {
        ids
    } else {
        seq![first_component(section_name)]
    }
}

/// The categories after those of the unit named `section_name` have been
/// looked up: where none covered it, the one named after the first component
/// of its name has been added.
pub open spec fn categories_after(
    categories: Seq<ReportCategoryEntryView>,
    section_name: Seq<char>,
) -> Seq<ReportCategoryEntryView> {
    if covering_ids(categories, section_name, categories.len() as int).len() > 0 {
        categories
    } else {
        let first = first_component(section_name);
        pushed(categories, first, first, seq![first])
    }
}

impl ReportCategoryEntry {
    /// The identifier of the category.
    pub fn id(&self) -> (r: &str)
        ensures
            r@ == self@.id,
    {
        self.id.as_str()
    }

    /// The name of the category.
    pub fn name(&self) -> (r: &str)
        ensures
            r@ == self@.name,
    {
        self.name.as_str()
    }

    /// The paths that the category covers.
    pub fn paths(&self) -> (r: &[String])
        ensures
            texts_of(r@) == self@.paths,
    {
        self.paths.as_slice()
    }

    fn check_path(&self, section_name: &str) -> (r: bool)
        ensures
            r == covers(self@, section_name@),
    {
        let ghost paths = texts_of(self.paths@);
        let mut i: usize = 0;
        while i < self.paths.len()
            invariant
                i <= self.paths.len(),
                paths == texts_of(self.paths@),
                !starts_with_any(section_name@, paths, i as int),
            decreases self.paths.len() - i,
        {
            if starts_with(section_name, self.paths[i].as_str()) {
                proof {
                    lemma_starts_with_any(section_name@, paths, i as int, paths.len() as int);
                }
                return true;
            }
            i += 1;
        }
        false
    }
}

proof fn lemma_starts_with_any(
    section_name: Seq<char>,
    paths: Seq<Seq<char>>,
    at: int,
    n: int,
)
    requires
        0 <= at < n,
        has_prefix(section_name, paths[at]),
    ensures
        starts_with_any(section_name, paths, n),
    decreases n,
{
    if at < n - 1 {
        lemma_starts_with_any(section_name, paths, at, n - 1);
    }
}

/// What stands before the first `/` of a name.
pub fn first_component_of(name: &str) -> (r: String)
    ensures
        r@ == first_component(name@),
{
    let chars = chars_of(name);
    let slash = chars_of("/");
    match find_from(&chars, &slash, 0) {
        Some(k) => {
            proof {
                lemma_first_occurrence(name@, "/"@, 0);
            }
            name.substring_char(0, k).to_owned()
        },
        None => name.to_owned(),
    }
}

impl ReportCategories {
    /// No categories.
    pub fn new() -> (r: Self)
        ensures
            r@ == Seq::<ReportCategoryEntryView>::empty(),
    {
        let r = Self { categories: Vec::new() };
        assert(r@ =~= Seq::<ReportCategoryEntryView>::empty());
        r
    }

    /// The number of categories.
    pub fn len(&self) -> (r: usize)
        ensures
            r == self@.len(),
    {
        self.categories.len()
    }

    /// The category at position `index`.
    pub fn get(&self, index: usize) -> (r: Option<&ReportCategoryEntry>)
        ensures
            match r {
                Some(entry) => index < self@.len() && entry@ == self@[index as int],
                None => index >= self@.len(),
            },
    {
        if index < self.categories.len() {
            Some(&self.categories[index])
        } else {
            None
        }
    }

    fn position_of(&self, id: &String) -> (r: Option<usize>)
        ensures
            match r {
                Some(k) => first_index(self@, has_id(id@)) == Some(k as int) && k < self@.len(),
                None => first_index(self@, has_id(id@)) is None,
            },
    {
        let mut i: usize = 0;
        while i < self.categories.len()
            invariant
                i <= self.categories.len(),
                forall|j: int| 0 <= j < i ==> !has_id(id@)(#[trigger] self@[j]),
            decreases self.categories.len() - i,
        {
            if self.categories[i].id == *id {
                proof {
                    lemma_first_index_is(self@, has_id(id@), i as int);
                }
                return Some(i);
            }
            i += 1;
        }
        proof {
            lemma_first_index_none(self@, has_id(id@));
        }
        None
    }

    /// Adds a category. Where the identifier is listed already, the paths
    /// are added to that category instead. Returns the category.
    pub fn push(&mut self, id: String, name: String, paths: Vec<String>) -> (r:
        &ReportCategoryEntry)
        ensures
            final(self)@ == pushed(old(self)@, id@, name@, texts_of(paths@)),
            0 <= pushed_at(old(self)@, id@) < final(self)@.len(),
            r@ == final(self)@[pushed_at(old(self)@, id@)],
    {
        let ghost before = self@;
        let mut paths = paths;
        match self.position_of(&id) {
            Some(index) => {
                let ghost own = self.categories@[index as int].paths@;
                let ghost added = paths@;
                self.categories[index].paths.append(&mut paths);
                proof {
                    assert(texts_of(self.categories@[index as int].paths@) =~= texts_of(own)
                        + texts_of(added));
                    assert(self@ =~= pushed(before, id@, name@, texts_of(added)));
                }
                &self.categories[index]
            },
            None => {
                let ghost added = paths@;
                self.categories.push(ReportCategoryEntry { id, name, paths });
                proof {
                    assert(self@ =~= pushed(before, id@, name@, texts_of(added)));
                }
                &self.categories[self.categories.len() - 1]
            },
        }
    }

    /// The identifiers of the categories that a unit counts towards, by its
    /// name. Where no category covers the unit, one is made for it.
    pub fn get_categories(&mut self, section_name: &str, segment_name: &str) -> (r: Vec<String>)
        ensures
            texts_of(r@) == category_ids(old(self)@, section_name@),
            final(self)@ == categories_after(old(self)@, section_name@),
    {
        let mut ids: Vec<String> = Vec::new();
        let mut i: usize = 0;
        assert(texts_of(ids@) =~= covering_ids(self@, section_name@, 0));
        while i < self.categories.len()
            invariant
                i <= self.categories.len(),
                *self == *old(self),
                texts_of(ids@) == covering_ids(self@, section_name@, i as int),
            decreases self.categories.len() - i,
        {
            if self.categories[i].check_path(section_name) {
                let ghost listed = ids@;
                ids.push(self.categories[i].id.clone());
                assert(texts_of(ids@) =~= texts_of(listed).push(self@[i as int].id));
            }
            i += 1;
        }
        if ids.len() == 0 {
            let first = first_component_of(section_name);
            let mut paths: Vec<String> = Vec::new();
            paths.push(first.clone());
            assert(texts_of(paths@) =~= seq![first@]);
            let entry = self.push(first.clone(), first.clone(), paths);
            proof {
                lemma_first_index(old(self)@, has_id(first@));
            }
            ids.push(entry.id.clone());
            assert(texts_of(ids@) =~= seq![first@]);
        }
        ids
    }
}

impl Default for ReportCategories {
    fn default() -> (r: Self)
        ensures
            r@ == Seq::<ReportCategoryEntryView>::empty(),
    {
        Self::new()
    }
}

/// The bytes between the start of a section and the first of its symbols
/// that shows in the states, where that symbol stands past the start.
pub open spec fn static_gap(section: Section, states: Seq<SymbolDecompState>) -> Option<u64> {
    if states.len() > 0 && states[0].symbol().vram > section.vram {
        Some((states[0].symbol().vram - section.vram) as u64)
    } else {
        None
    }
}

/// How much of a symbol in this state is matched.
pub open spec fn match_of(state: SymbolDecompState) -> MatchLevel {
    match state {
        SymbolDecompState::Decomped(_) => MatchLevel::Full,
        SymbolDecompState::Undecomped(_) => MatchLevel::Nothing,
    }
}

/// The item that stands for a symbol.
pub open spec fn function_item(state: SymbolDecompState) -> ReportItemView {
    ReportItemView {
        name: state.symbol().name@,
        size: state.symbol().size,
        matching: match_of(state),
        virtual_address: state.symbol().vram,
    }
}

/// The name of the item that stands for the bytes before the first symbol
/// of a section.
pub open spec fn static_name(section: Section) -> Seq<char> {
    "$_static_symbol_"@ + hex_text(section.vram, 8) + "_"@ + section.filepath@
}

/// The item that stands for the bytes before the first symbol of a
/// section. They count as matched where that symbol does.
pub open spec fn static_item(section: Section, first: SymbolDecompState, gap: u64)
    -> ReportItemView {
    ReportItemView {
        name: static_name(section),
        size: gap,
        matching: match_of(first),
        virtual_address: section.vram,
    }
}

/// The items of the first `n` states of a section of code: one for each
/// symbol and, after the first symbol, one for the bytes before it, where
/// there are any.
pub open spec fn function_items(section: Section, states: Seq<SymbolDecompState>, n: int) -> Seq<
    ReportItemView,
>
    decreases n,
{
    if n <= 0 {
        Seq::empty()
    } else {
        let listed = function_items(section, states, n - 1).push(function_item(states[n - 1]));
        match static_gap(section, states) {
            Some(gap) => if n == 1 {
                listed.push(static_item(section, states[0], gap))
            } else {
                listed
            },
            None => listed,
        }
    }
}

/// The measures with one more function of `size` bytes counted.
pub open spec fn with_function(measures: Measures, size: u64, matched: bool) -> Measures {
    Measures {
        total_code: measures.total_code.saturating_add(size),
        total_functions: measures.total_functions.saturating_add(1),
        matched_code: if matched {
            measures.matched_code.saturating_add(size)
        } else {
            measures.matched_code
        },
        matched_functions: if matched {
            measures.matched_functions.saturating_add(1)
        } else {
            measures.matched_functions
        },
        ..measures
    }
}

/// The measures of a unit in which nothing is counted yet.
pub open spec fn empty_unit_measures() -> Measures {
    Measures {
        total_code: 0,
        matched_code: 0,
        total_data: 0,
        matched_data: 0,
        total_functions: 0,
        matched_functions: 0,
        total_units: 1,
    }
}

/// The measures of the first `n` states of a section of code.
pub open spec fn code_measures(section: Section, states: Seq<SymbolDecompState>, n: int)
    -> Measures
    decreases n,
{
    if n <= 0 {
        empty_unit_measures()
    } else {
        let matched = states[n - 1] is Decomped;
        let counted = with_function(
            code_measures(section, states, n - 1),
            states[n - 1].symbol().size,
            matched,
        );
        match static_gap(section, states) {
            Some(gap) => if n == 1 {
                with_function(counted, gap, matched)
            } else {
                counted
            },
            None => counted,
        }
    }
}

/// How much of a whole section is matched: the matched bytes out of all
/// that were counted, or nothing where none were.
pub open spec fn section_match(measures: Measures) -> MatchLevel {
    let total = measures.total_code.saturating_add(measures.total_data);
    if total > 0 {
        MatchLevel::Part {
            matched: measures.matched_code.saturating_add(measures.matched_data),
            total,
        }
    } else {
        MatchLevel::Nothing
    }
}

/// The unit that a section makes under the name `name`. Padding and
/// sections of a banned type make none. The symbols of a section of code
/// count as functions; those of any other section are not counted.
pub open spec fn unit_of_section(
    section: Section,
    name: Seq<char>,
    settings: Option<PathDecompSettingsView>,
) -> Option<ReportUnitView> {
    if section.is_fill || banned_section_type(section.section_type@) {
        None
    } else {
        let states = section_states(&section, settings);
        let is_code = code_section_type(section.section_type@);
        let measures = if is_code {
            code_measures(section, states, states.len() as int)
        } else {
            empty_unit_measures()
        };
        Some(
            ReportUnitView {
                name,
                measures: Some(measures),
                sections: seq![
                    ReportItemView {
                        name: section.section_type@,
                        size: section.size,
                        matching: section_match(measures),
                        virtual_address: section.vram,
                    },
                ],
                functions: if is_code {
                    function_items(section, states, states.len() as int)
                } else {
                    Seq::empty()
                },
                metadata: None,
            },
        )
    }
}

fn count_function(measures: &mut Measures, size: u64, matched: bool)
    ensures
        *final(measures) == with_function(*old(measures), size, matched),
{
    measures.total_code = measures.total_code.saturating_add(size);
    measures.total_functions = measures.total_functions.saturating_add(1);
    if matched {
        measures.matched_code = measures.matched_code.saturating_add(size);
        measures.matched_functions = measures.matched_functions.saturating_add(1);
    }
}

fn static_name_of(section: &Section) -> (r: String)
    ensures
        r@ == static_name(*section),
{
    let mut name = "$_static_symbol_".to_owned();
    name.append(to_hex(section.vram, 8).as_str());
    name.append("_");
    name.append(section.filepath.as_str());
    name
}

/// Makes the unit of a section.
pub fn report_from_section(
    section: &Section,
    section_name: String,
    path_decomp_settings: Option<&PathDecompSettings>,
) -> (r: Option<ReportUnit>)
    ensures
        match r {
            Some(unit) => unit_of_section(
                *section,
                section_name@,
                settings_view(path_decomp_settings),
            ) == Some(unit@),
            None => unit_of_section(*section, section_name@, settings_view(path_decomp_settings))
                is None,
        },
{
    if section.is_fill || is_banned_section_type(section.section_type.as_str()) {
        return None;
    }
    let ghost states = section_states(section, settings_view(path_decomp_settings));
    let is_text = is_code_section_type(section.section_type.as_str());
    let mut measures = Measures {
        total_code: 0,
        matched_code: 0,
        total_data: 0,
        matched_data: 0,
        total_functions: 0,
        matched_functions: 0,
        total_units: 1,
    };
    let mut functions: Vec<ReportItem> = Vec::new();
    assert(items_view(functions@) =~= Seq::empty());
    if is_text {
        let mut states_iter = section.symbol_match_state_iter(path_decomp_settings);
        let mut first = true;
        let ghost mut n: int = 0;
        assert(states.skip(0) =~= states);
        loop
            invariant
                0 <= n <= states.len(),
                first == (n == 0),
                states_iter.upcoming() == states.skip(n),
                measures == code_measures(*section, states, n),
                items_view(functions@) == function_items(*section, states, n),
            ensures
                measures == code_measures(*section, states, states.len() as int),
                items_view(functions@) == function_items(*section, states, states.len() as int),
            decreases states.len() - n,
        {
            let state = match states_iter.next() {
                Some(state) => state,
                None => {
                    break ;
                },
            };
            proof {
                assert(state == states[n]);
                assert(states.skip(n).drop_first() =~= states.skip(n + 1));
            }
            let (sym, matched) = match state {
                SymbolDecompState::Decomped(sym) => (sym, true),
                SymbolDecompState::Undecomped(sym) => (sym, false),
            };
            let matching = if matched {
                MatchLevel::Full
            } else {
                MatchLevel::Nothing
            };
            count_function(&mut measures, sym.size, matched);
            let ghost listed = functions@;
            functions.push(
                ReportItem {
                    name: sym.name.clone(),
                    size: sym.size,
                    matching,
                    virtual_address: sym.vram,
                },
            );
            assert(items_view(functions@) =~= items_view(listed).push(function_item(state)));
            if first && sym.vram > section.vram {
                let static_size: u64 = sym.vram - section.vram;
                count_function(&mut measures, static_size, matched);
                let ghost listed = functions@;
                functions.push(
                    ReportItem {
                        name: static_name_of(section),
                        size: static_size,
                        matching,
                        virtual_address: section.vram,
                    },
                );
                assert(items_view(functions@) =~= items_view(listed).push(
                    static_item(*section, state, static_size),
                ));
            }
            first = false;
            proof {
                n = n + 1;
            }
        }
    }
    let total: u64 = measures.total_code.saturating_add(measures.total_data);
    let matching = if total > 0 {
        MatchLevel::Part {
            matched: measures.matched_code.saturating_add(measures.matched_data),
            total,
        }
    } else {
        MatchLevel::Nothing
    };
    let mut sections: Vec<ReportItem> = Vec::new();
    sections.push(
        ReportItem {
            name: section.section_type.clone(),
            size: section.size,
            matching,
            virtual_address: section.vram,
        },
    );
    let unit = ReportUnit {
        name: section_name,
        measures: Some(measures),
        sections,
        functions,
        metadata: None,
    };
    proof {
        assert(unit@.sections =~= seq![
            ReportItemView {
                name: section.section_type@,
                size: section.size,
                matching: section_match(measures),
                virtual_address: section.vram,
            },
        ]);
    }
    Some(unit)
}

/// The units and the categories of a report that is being made.
pub struct ReportState {
    pub units: Seq<ReportUnitView>,
    pub categories: Seq<ReportCategoryEntryView>,
}

/// The unit carries the name `name`.
pub open spec fn unit_named(name: Seq<char>) -> spec_fn(ReportUnitView) -> bool {
    |unit: ReportUnitView| unit.name == name
}

/// A unit with one more section of the same name merged into it.
pub open spec fn merged_unit(unit: ReportUnitView, part: ReportUnitView) -> ReportUnitView {
    ReportUnitView {
        measures: merged_measures(unit.measures, part.measures),
        sections: unit.sections + part.sections,
        functions: unit.functions + part.functions,
        ..unit
    }
}

/// The names of the units of the sections, one list for each segment.
pub open spec fn names_view(names: Seq<Vec<String>>) -> Seq<Seq<Seq<char>>> {
    Seq::new(names.len(), |i: int| texts_of(names[i]@))
}

/// The name of the unit of the section at `(i, j)`, where one is given.
pub open spec fn name_at(names: Seq<Seq<Seq<char>>>, i: int, j: int) -> Option<Seq<char>> {
    if 0 <= i < names.len() && 0 <= j < names[i].len() {
        Some(names[i][j])
    } else {
        None
    }
}

/// The report after one more section. A section without a name, and one
/// that makes no unit, leave it as it is. A section whose unit is listed
/// already is merged into that unit. Any other makes a new unit, which
/// counts towards the categories that its name falls under.
pub open spec fn report_with_section(
    acc: ReportState,
    segment_index: int,
    segment: Segment,
    section: Section,
    name: Option<Seq<char>>,
    settings: Option<PathDecompSettingsView>,
) -> ReportState {
    match name {
        Some(name) => match unit_of_section(section, name, settings) {
            Some(unit) => match first_index(acc.units, unit_named(name)) {
                Some(k) => ReportState {
                    units: acc.units.update(k, merged_unit(acc.units[k], unit)),
                    categories: acc.categories,
                },
                None => ReportState {
                    units: acc.units.push(
                        ReportUnitView {
                            metadata: Some(
                                ReportUnitMetadataView {
                                    module_name: segment.name@,
                                    module_id: segment_index as u32,
                                    progress_categories: category_ids(acc.categories, name),
                                },
                            ),
                            ..unit
                        },
                    ),
                    categories: categories_after(acc.categories, name),
                },
            },
            None => acc,
        },
        None => acc,
    }
}

/// The report after the first `j` sections of the segment at `i`.
pub open spec fn report_with_sections(
    acc: ReportState,
    i: int,
    segment: Segment,
    names: Seq<Seq<Seq<char>>>,
    settings: Option<PathDecompSettingsView>,
    j: int,
) -> ReportState
    decreases j,
{
    if j <= 0 {
        acc
    } else {
        report_with_section(
            report_with_sections(acc, i, segment, names, settings, j - 1),
            i,
            segment,
            segment.sections_list@[j - 1],
            name_at(names, i, j - 1),
            settings,
        )
    }
}

/// The report after the first `i` segments.
pub open spec fn report_with_segments(
    acc: ReportState,
    segments: Seq<Segment>,
    names: Seq<Seq<Seq<char>>>,
    settings: Option<PathDecompSettingsView>,
    i: int,
) -> ReportState
    decreases i,
{
    if i <= 0 {
        acc
    } else {
        report_with_sections(
            report_with_segments(acc, segments, names, settings, i - 1),
            i - 1,
            segments[i - 1],
            names,
            settings,
            segments[i - 1].sections_list@.len() as int,
        )
    }
}

/// The identifier and the name of each category.
pub open spec fn category_names(categories: Seq<ReportCategoryEntryView>) -> Seq<
    (Seq<char>, Seq<char>),
> {
    Seq::new(categories.len(), |i: int| (categories[i].id, categories[i].name))
}

/// The report of a map: its sections in the order of the map, each under
/// the unit name that `names` gives it, starting from the categories
/// `categories`.
pub open spec fn report_of(
    map: MapFile,
    categories: Seq<ReportCategoryEntryView>,
    names: Seq<Seq<Seq<char>>>,
    settings: Option<PathDecompSettingsView>,
) -> ReportView {
    let end = report_with_segments(
        ReportState { units: Seq::empty(), categories },
        map.segments_list@,
        names,
        settings,
        map.segments_list@.len() as int,
    );
    ReportView { units: end.units, categories: category_names(end.categories) }
}

fn unit_position(units: &Vec<ReportUnit>, name: &String) -> (r: Option<usize>)
    ensures
        match r {
            Some(k) => first_index(units_view(units@), unit_named(name@)) == Some(k as int) && k
                < units@.len(),
            None => first_index(units_view(units@), unit_named(name@)) is None,
        },
{
    let ghost views = units_view(units@);
    let mut i: usize = 0;
    while i < units.len()
        invariant
            i <= units.len(),
            views == units_view(units@),
            forall|j: int| 0 <= j < i ==> !unit_named(name@)(#[trigger] views[j]),
        decreases units.len() - i,
    {
        if units[i].name == *name {
            proof {
                lemma_first_index_is(views, unit_named(name@), i as int);
            }
            return Some(i);
        }
        i += 1;
    }
    proof {
        lemma_first_index_none(views, unit_named(name@));
    }
    None
}

fn add_section_unit(
    units: &mut Vec<ReportUnit>,
    report_categories: &mut ReportCategories,
    segment_index: usize,
    segment: &Segment,
    section: &Section,
    section_name: &String,
    path_decomp_settings: Option<&PathDecompSettings>,
)
    ensures
        (ReportState { units: units_view(final(units)@), categories: final(report_categories)@ })
            == report_with_section(
            ReportState { units: units_view(old(units)@), categories: old(report_categories)@ },
            segment_index as int,
            *segment,
            *section,
            Some(section_name@),
            settings_view(path_decomp_settings),
        ),
{
    let ghost before = units_view(units@);
    let mut new_report_unit = match report_from_section(
        section,
        section_name.clone(),
        path_decomp_settings,
    ) {
        Some(unit) => unit,
        None => {
            return ;
        },
    };
    let ghost part = new_report_unit@;
    match unit_position(units, section_name) {
        Some(k) => {
            let merged = merge_measures(units[k].measures, new_report_unit.measures);
            units[k].measures = merged;
            units[k].sections.append(&mut new_report_unit.sections);
            units[k].functions.append(&mut new_report_unit.functions);
            proof {
                assert(units@[k as int]@.sections =~= before[k as int].sections + part.sections);
                assert(units@[k as int]@.functions =~= before[k as int].functions
                    + part.functions);
                assert(units_view(units@) =~= before.update(
                    k as int,
                    merged_unit(before[k as int], part),
                ));
            }
        },
        None => {
            let cats = report_categories.get_categories(
                section_name.as_str(),
                segment.name.as_str(),
            );
            new_report_unit.metadata = Some(
                ReportUnitMetadata {
                    module_name: segment.name.clone(),
                    module_id: #[verifier::truncate]
                    (segment_index as u32),
                    progress_categories: cats,
                },
            );
            units.push(new_report_unit);
            proof {
                assert(units_view(units@) =~= before.push(new_report_unit@));
            }
        },
    }
}

impl MapFile {
    /// Makes the report of the map. `unit_names` gives, for each segment, the
    /// names of the units of its sections, in order; a section for which it
    /// gives none is left out.
    pub fn report_with_unit_names(
        &self,
        report_categories: ReportCategories,
        path_decomp_settings: Option<&PathDecompSettings>,
        unit_names: &Vec<Vec<String>>,
    ) -> (r: Report)
        ensures
            r@ == report_of(
                *self,
                report_categories@,
                names_view(unit_names@),
                settings_view(path_decomp_settings),
            ),
    {
        let mut report_categories = report_categories;
        let mut units: Vec<ReportUnit> = Vec::new();
        let ghost names = names_view(unit_names@);
        let ghost settings = settings_view(path_decomp_settings);
        let ghost start = ReportState { units: Seq::empty(), categories: report_categories@ };
        assert(units_view(units@) =~= Seq::empty());
        let mut i: usize = 0;
        while i < self.segments_list.len()
            invariant
                i <= self.segments_list.len(),
                names == names_view(unit_names@),
                settings == settings_view(path_decomp_settings),
                (ReportState { units: units_view(units@), categories: report_categories@ })
                    == report_with_segments(start, self.segments_list@, names, settings, i as int),
            decreases self.segments_list.len() - i,
        {
            let segment = &self.segments_list[i];
            let ghost segment_start = ReportState {
                units: units_view(units@),
                categories: report_categories@,
            };
            let mut j: usize = 0;
            while j < segment.sections_list.len()
                invariant
                    i < self.segments_list.len(),
                    j <= segment.sections_list.len(),
                    names == names_view(unit_names@),
                    settings == settings_view(path_decomp_settings),
                    (ReportState { units: units_view(units@), categories: report_categories@ })
                        == report_with_sections(
                        segment_start,
                        i as int,
                        *segment,
                        names,
                        settings,
                        j as int,
                    ),
                decreases segment.sections_list.len() - j,
            {
                if i < unit_names.len() && j < unit_names[i].len() {
                    add_section_unit(
                        &mut units,
                        &mut report_categories,
                        i,
                        segment,
                        &segment.sections_list[j],
                        &unit_names[i][j],
                        path_decomp_settings,
                    );
                }
                j += 1;
            }
            i += 1;
        }
        let mut categories: Vec<(String, String)> = Vec::new();
        let mut k: usize = 0;
        while k < report_categories.categories.len()
            invariant
                k <= report_categories.categories.len(),
                categories@.len() == k,
                forall|n: int|
                    0 <= n < k ==> (#[trigger] categories@[n]).0@ == report_categories@[n].id
                        && categories@[n].1@ == report_categories@[n].name,
            decreases report_categories.categories.len() - k,
        {
            let entry = &report_categories.categories[k];
            categories.push((entry.id.clone(), entry.name.clone()));
            k += 1;
        }
        let report = Report { units, categories };
        assert(report@.categories =~= category_names(report_categories@));
        report
    }
}

/// `names` holds, for each section of the map, a name that `to_name`
/// gives for it.
pub open spec fn names_come_from<F: Fn(&Section) -> String>(
    to_name: F,
    map: MapFile,
    names: Vec<Vec<String>>,
) -> bool {
    &&& names@.len() == map.segments_list@.len()
    &&& forall|i: int|
        0 <= i < names@.len() ==> (#[trigger] names@[i])@.len()
            == map.segments_list@[i].sections_list@.len()
    &&& forall|i: int, j: int|
        0 <= i < names@.len() && 0 <= j < names@[i]@.len() ==> call_ensures(
            to_name,
            (&map.segments_list@[i].sections_list@[j],),
            #[trigger] names@[i]@[j],
        )
}

impl MapFile {
    /// Makes the report of the map, with each section under the unit that
    /// `object_to_unit_name` names for it. The report is the one that
    /// [`MapFile::report_with_unit_names`] makes of the names that the
    /// function gave.
    pub fn get_objdiff_report<F>(
        &self,
        report_categories: ReportCategories,
        path_decomp_settings: Option<&PathDecompSettings>,
        object_to_unit_name: F,
    ) -> (r: Report) where F: Fn(&Section) -> String
        requires
            forall|section: &Section| call_requires(object_to_unit_name, (section,)),
        ensures
            exists|names: Vec<Vec<String>>|
                names_come_from(object_to_unit_name, *self, names) && r@ == report_of(
                    *self,
                    report_categories@,
                    names_view(names@),
                    settings_view(path_decomp_settings),
                ),
    {
        let mut names: Vec<Vec<String>> = Vec::new();
        let mut i: usize = 0;
        while i < self.segments_list.len()
            invariant
                i <= self.segments_list.len(),
                forall|section: &Section| call_requires(object_to_unit_name, (section,)),
                names@.len() == i,
                forall|a: int|
                    0 <= a < i ==> (#[trigger] names@[a])@.len()
                        == self.segments_list@[a].sections_list@.len(),
                forall|a: int, b: int|
                    0 <= a < i && 0 <= b < names@[a]@.len() ==> call_ensures(
                        object_to_unit_name,
                        (&self.segments_list@[a].sections_list@[b],),
                        #[trigger] names@[a]@[b],
                    ),
            decreases self.segments_list.len() - i,
        {
            let segment = &self.segments_list[i];
            let mut row: Vec<String> = Vec::new();
            let mut j: usize = 0;
            while j < segment.sections_list.len()
                invariant
                    j <= segment.sections_list.len(),
                    forall|section: &Section| call_requires(object_to_unit_name, (section,)),
                    row@.len() == j,
                    forall|b: int|
                        0 <= b < j ==> call_ensures(
                            object_to_unit_name,
                            (&segment.sections_list@[b],),
                            #[trigger] row@[b],
                        ),
                decreases segment.sections_list.len() - j,
            {
                row.push(object_to_unit_name(&segment.sections_list[j]));
                j += 1;
            }
            names.push(row);
            i += 1;
        }
        let report = self.report_with_unit_names(report_categories, path_decomp_settings, &names);
        assert(names_come_from(object_to_unit_name, *self, names));
        report
    }
}

} // verus!
