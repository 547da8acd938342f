//! Adding up, over a whole map, how much is decompiled: in all, and for
//! each folder of the source tree.

use vstd::prelude::*;
use crate::decomp::{
    settings_view, undecomped_functions, whole_file_undecomped, PathDecompSettings,
    PathDecompSettingsView,
};
use crate::mapfile::MapFile;
use crate::paths::{components, components_of};
use crate::progress_stats::ProgressStats;
use crate::search::{first_index, lemma_first_index_is, lemma_first_index_none};
use crate::section::Section;
use crate::segment::Segment;
use crate::symbol_decomp_state::{states_of, SymbolDecompState};
use crate::text::texts_of;

verus! {

/// The stats with one more symbol counted.
pub open spec fn count_state(stats: ProgressStats, state: SymbolDecompState) -> ProgressStats {
    match state {
        SymbolDecompState::Decomped(symbol) => stats.with_decomped(symbol.size),
        SymbolDecompState::Undecomped(symbol) => stats.with_undecomped(symbol.size),
    }
}

/// The stats with every symbol of `states` counted, in order.
pub open spec fn tally(stats: ProgressStats, states: Seq<SymbolDecompState>) -> ProgressStats
    decreases states.len(),
{
    if states.len() == 0 {
        stats
    } else {
        tally(count_state(stats, states[0]), states.drop_first())
    }
}

/// The position of the component that names a section's folder: the one
/// that the settings give, else the last.
pub open spec fn folder_index(parts: Seq<Seq<char>>, settings: Option<PathDecompSettingsView>)
    -> nat {
    match settings {
        Some(settings) => settings.path_index,
        None => if parts.len() > 0 {
            (parts.len() - 1) as nat
        } else {
            0
        },
    }
}

/// The name of a section's folder: the component of its path at
/// `folder_index`; the last component where the path is too short for that;
/// empty where the path has no component.
pub open spec fn folder_of(parts: Seq<Seq<char>>, settings: Option<PathDecompSettingsView>) -> Seq<
    char,
> {
    let index = folder_index(parts, settings);
    if index < parts.len() {
        parts[index as int]
    } else if parts.len() > 0 {
        parts.last()
    } else {
        Seq::empty()
    }
}

/// The values of a list of pairs of names.
pub open spec fn aliases_view(aliases: Seq<(String, String)>) -> Seq<(Seq<char>, Seq<char>)> {
    Seq::new(aliases.len(), |i: int| (aliases[i].0@, aliases[i].1@))
}

/// The values of a list of folders with their stats.
pub open spec fn folders_view(folders: Seq<(String, ProgressStats)>) -> Seq<
    (Seq<char>, ProgressStats),
> {
    Seq::new(folders.len(), |i: int| (folders[i].0@, folders[i].1))
}

/// The pair renames the folder `name`.
pub open spec fn renames(name: Seq<char>) -> spec_fn((Seq<char>, Seq<char>)) -> bool {
    |pair: (Seq<char>, Seq<char>)| pair.0 == name
}

/// The entry is that of the folder `name`.
pub open spec fn is_folder(name: Seq<char>) -> spec_fn((Seq<char>, ProgressStats)) -> bool {
    |entry: (Seq<char>, ProgressStats)| entry.0 == name
}

/// The name under which the folder `name` is counted: what the first pair
/// that renames it gives, else the name itself.
pub open spec fn alias_of(aliases: Seq<(Seq<char>, Seq<char>)>, name: Seq<char>) -> Seq<char> {
    match first_index(aliases, renames(name)) {
        Some(k) => aliases[k].1,
        None => name,
    }
}

/// The folders with the symbols of `states` counted under `name`. A folder
/// that was not listed yet is added at the end.
pub open spec fn with_folder(
    folders: Seq<(Seq<char>, ProgressStats)>,
    name: Seq<char>,
    states: Seq<SymbolDecompState>,
) -> Seq<(Seq<char>, ProgressStats)> {
    match first_index(folders, is_folder(name)) {
        Some(k) => folders.update(k, (name, tally(folders[k].1, states))),
        None => folders.push(
            (name, tally(ProgressStats { undecomped_size: 0, decomped_size: 0 }, states)),
        ),
    }
}

/// The progress of a map: in all, and for each folder in the order in
/// which the map first reaches it.
pub struct Progress {
    pub total: ProgressStats,
    pub folders: Seq<(Seq<char>, ProgressStats)>,
}

/// The states of a section's symbols under the settings.
pub open spec fn section_states<'a>(section: &'a Section, settings: Option<PathDecompSettingsView>)
    -> Seq<SymbolDecompState<'a>> {
    states_of(
        section,
        whole_file_undecomped(settings, section.filepath@),
        undecomped_functions(settings, *section, section.symbols@.len() as int),
    )
}

/// The progress with one more section counted. A section without symbols
/// counts for nothing and adds no folder.
pub open spec fn progress_with_section(
    acc: Progress,
    section: Section,
    settings: Option<PathDecompSettingsView>,
    aliases: Seq<(Seq<char>, Seq<char>)>,
) -> Progress {
    if section.symbols@.len() == 0 {
        acc
    } else {
        let states = section_states(&section, settings);
        let folder = alias_of(aliases, folder_of(components_of(section.filepath@), settings));
        Progress {
            total: tally(acc.total, states),
            folders: with_folder(acc.folders, folder, states),
        }
    }
}

/// The progress with the first `j` sections of a segment counted.
pub open spec fn progress_with_sections(
    acc: Progress,
    segment: Segment,
    settings: Option<PathDecompSettingsView>,
    aliases: Seq<(Seq<char>, Seq<char>)>,
    j: int,
) -> Progress
    decreases j,
{
    if j <= 0 {
        acc
    } else {
        progress_with_section(
            progress_with_sections(acc, segment, settings, aliases, j - 1),
            segment.sections_list@[j - 1],
            settings,
            aliases,
        )
    }
}

/// The progress with the first `i` segments counted.
pub open spec fn progress_with_segments(
    acc: Progress,
    segments: Seq<Segment>,
    settings: Option<PathDecompSettingsView>,
    aliases: Seq<(Seq<char>, Seq<char>)>,
    i: int,
) -> Progress
    decreases i,
{
    if i <= 0 {
        acc
    } else {
        progress_with_sections(
            progress_with_segments(acc, segments, settings, aliases, i - 1),
            segments[i - 1],
            settings,
            aliases,
            segments[i - 1].sections_list@.len() as int,
        )
    }
}

/// The progress of a whole map.
pub open spec fn progress_of(
    map: MapFile,
    settings: Option<PathDecompSettingsView>,
    aliases: Seq<(Seq<char>, Seq<char>)>,
) -> Progress {
    progress_with_segments(
        Progress {
            total: ProgressStats { undecomped_size: 0, decomped_size: 0 },
            folders: Seq::empty(),
        },
        map.segments_list@,
        settings,
        aliases,
        map.segments_list@.len() as int,
    )
}

/// The name of a section's folder, given the components of its path.
pub fn folder_among(parts: &Vec<String>, path_decomp_settings: Option<&PathDecompSettings>) -> (r:
    String)
    ensures
        r@ == folder_of(texts_of(parts@), settings_view(path_decomp_settings)),
{
    let index: usize = match path_decomp_settings {
        Some(settings) => settings.path_index,
        None => if parts.len() > 0 {
            parts.len() - 1
        } else {
            0
        },
    };
    if index < parts.len() {
        parts[index].clone()
    } else if parts.len() > 0 {
        parts[parts.len() - 1].clone()
    } else {
        String::new()
    }
}

/// The name of a section's folder.
pub fn folder_name(filepath: &str, path_decomp_settings: Option<&PathDecompSettings>) -> (r: String)
    ensures
        r@ == folder_of(components_of(filepath@), settings_view(path_decomp_settings)),
{
    let parts = components(filepath);
    folder_among(&parts, path_decomp_settings)
}

/// The name under which a folder is counted.
pub fn alias_name(aliases: &Vec<(String, String)>, name: String) -> (r: String)
    ensures
        r@ == alias_of(aliases_view(aliases@), name@),
{
    let ghost pairs = aliases_view(aliases@);
    let mut i: usize = 0;
    while i < aliases.len()
        invariant
            i <= aliases.len(),
            pairs == aliases_view(aliases@),
            forall|j: int| 0 <= j < i ==> !renames(name@)(#[trigger] pairs[j]),
        decreases aliases.len() - i,
    {
        if aliases[i].0 == name {
            proof {
                lemma_first_index_is(pairs, renames(name@), i as int);
            }
            return aliases[i].1.clone();
        }
        i += 1;
    }
    proof {
        lemma_first_index_none(pairs, renames(name@));
    }
    name
}

fn folder_position(folders: &mut Vec<(String, ProgressStats)>, name: String) -> (r: usize)
    ensures
        r < final(folders)@.len(),
        final(folders)@[r as int].0@ == name@,
        match first_index(folders_view(old(folders)@), is_folder(name@)) {
            Some(k) => r == k && final(folders)@ == old(folders)@,
            None => r == old(folders)@.len() && folders_view(final(folders)@) == folders_view(
                old(folders)@,
            ).push((name@, ProgressStats { undecomped_size: 0, decomped_size: 0 })),
        },
{
    let ghost entries = folders_view(folders@);
    let mut i: usize = 0;
    while i < folders.len()
        invariant
            i <= folders.len(),
            folders@ == old(folders)@,
            entries == folders_view(folders@),
            forall|j: int| 0 <= j < i ==> !is_folder(name@)(#[trigger] entries[j]),
        decreases folders.len() - i,
    {
        if folders[i].0 == name {
            proof {
                lemma_first_index_is(entries, is_folder(name@), i as int);
            }
            return i;
        }
        i += 1;
    }
    proof {
        lemma_first_index_none(entries, is_folder(name@));
    }
    let entry = (name, ProgressStats::new());
    folders.push(entry);
    assert(folders_view(folders@) =~= entries.push(
        (name@, ProgressStats { undecomped_size: 0, decomped_size: 0 }),
    ));
    i
}

fn count_section(
    total_stats: &mut ProgressStats,
    folders: &mut Vec<(String, ProgressStats)>,
    section: &Section,
    path_decomp_settings: Option<&PathDecompSettings>,
    aliases: &Vec<(String, String)>,
)
    ensures
        (Progress { total: *final(total_stats), folders: folders_view(final(folders)@) })
            == progress_with_section(
            Progress { total: *old(total_stats), folders: folders_view(old(folders)@) },
            *section,
            settings_view(path_decomp_settings),
            aliases_view(aliases@),
        ),
{
    if section.symbols.len() == 0 {
        return ;
    }
    let ghost settings = settings_view(path_decomp_settings);
    let ghost states = section_states(section, settings);
    let folder = alias_name(
        aliases,
        folder_name(section.filepath.as_str(), path_decomp_settings),
    );
    let ghost name = folder@;
    let ghost listed = folders_view(folders@);
    let at = folder_position(folders, folder);
    let ghost opened = folders_view(folders@);
    let ghost start = folders@[at as int].1;
    let mut total: ProgressStats = *total_stats;
    let mut folder_stats: ProgressStats = folders[at].1;
    let mut states_iter = section.symbol_match_state_iter(path_decomp_settings);
    loop
        invariant
            tally(total, states_iter.upcoming()) == tally(*old(total_stats), states),
            tally(folder_stats, states_iter.upcoming()) == tally(start, states),
        ensures
            total == tally(*old(total_stats), states),
            folder_stats == tally(start, states),
        decreases states_iter.upcoming().len(),
    {
        match states_iter.next() {
            Some(SymbolDecompState::Decomped(sym)) => {
                total.add_decomped(sym.size);
                folder_stats.add_decomped(sym.size);
            },
            Some(SymbolDecompState::Undecomped(sym)) => {
                total.add_undecomped(sym.size);
                folder_stats.add_undecomped(sym.size);
            },
            None => {
                break ;
            },
        }
    }
    *total_stats = total;
    folders[at].1 = folder_stats;
    proof {
        crate::search::lemma_first_index(listed, is_folder(name));
        assert(opened[at as int].1 == start);
        assert(folders_view(folders@) =~= opened.update(at as int, (name, folder_stats)));
        match first_index(listed, is_folder(name)) {
            Some(k) => {
                assert(opened == listed);
                assert(k == at);
            },
            None => {
                assert(opened.update(at as int, (name, folder_stats)) =~= listed.push(
                    (name, folder_stats),
                ));
            },
        }
        assert(folders_view(folders@) == with_folder(listed, name, states));
    }
}

impl MapFile {
    /// Adds up the sizes of the decompiled symbols and of the others: in
    /// all, and for each folder, in the order in which the map first
    /// reaches the folders. `aliases` gives, for a folder's name, the name
    /// to count it under.
    pub fn get_progress(
        &self,
        path_decomp_settings: Option<&PathDecompSettings>,
        aliases: &Vec<(String, String)>,
    ) -> (r: (ProgressStats, Vec<(String, ProgressStats)>))
        ensures
            (Progress { total: r.0, folders: folders_view(r.1@) }) == progress_of(
                *self,
                settings_view(path_decomp_settings),
                aliases_view(aliases@),
            ),
    {
        let mut total_stats = ProgressStats::new();
        let mut progress_per_folder: Vec<(String, ProgressStats)> = Vec::new();
        let ghost settings = settings_view(path_decomp_settings);
        let ghost renamed = aliases_view(aliases@);
        let ghost nothing = Progress {
            total: ProgressStats { undecomped_size: 0, decomped_size: 0 },
            folders: Seq::empty(),
        };
        assert(folders_view(progress_per_folder@) =~= Seq::empty());
        let mut i: usize = 0;
        while i < self.segments_list.len()
            invariant
                i <= self.segments_list.len(),
                settings == settings_view(path_decomp_settings),
                renamed == aliases_view(aliases@),
                (Progress { total: total_stats, folders: folders_view(progress_per_folder@) })
                    == progress_with_segments(
                    nothing,
                    self.segments_list@,
                    settings,
                    renamed,
                    i as int,
                ),
            decreases self.segments_list.len() - i,
        {
            let segment = &self.segments_list[i];
            let ghost start = Progress {
                total: total_stats,
                folders: folders_view(progress_per_folder@),
            };
            let mut j: usize = 0;
            while j < segment.sections_list.len()
                invariant
                    j <= segment.sections_list.len(),
                    settings == settings_view(path_decomp_settings),
                    renamed == aliases_view(aliases@),
                    (Progress { total: total_stats, folders: folders_view(progress_per_folder@) })
                        == progress_with_sections(start, *segment, settings, renamed, j as int),
                decreases segment.sections_list.len() - j,
            {
                count_section(
                    &mut total_stats,
                    &mut progress_per_folder,
                    &segment.sections_list[j],
                    path_decomp_settings,
                    aliases,
                );

                j += 1;
            }
            i += 1;
        }
        (total_stats, progress_per_folder)
    }
}

} // verus!
