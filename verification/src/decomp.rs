//! Telling from the layout of an assembly tree which symbols of a section
//! are decompiled.
//!
//! A project keeps the assembly of what is not decompiled yet in files: one
//! per object file that is still whole, under `asm_path`, and one per
//! function that is not matched, under `nonmatchings`. Whether such a file
//! exists is for the caller to find out; the settings carry the paths of the
//! files that do.

use vstd::prelude::*;
use vstd::string::StringExecFns;
use crate::paths::{
    bare_path, components, components_of, from_components, join, joined_path, path_of_components,
    skip_parts, strip_extensions, with_extension, with_extension_of,
};
use crate::section::Section;
use crate::symbol_decomp_state::{states_of, SymbolDecompStateIter};
use crate::text::texts_of;

verus! {

/// Where the assembly of a project lies.
#[derive(Debug)]
pub struct PathDecompSettings {
    /// The directory of the assembly files of whole object files.
    pub asm_path: String,
    /// How many leading components of a section's path do not belong to the
    /// path of its assembly file.
    pub path_index: usize,
    /// The directory of the assembly files of single functions.
    pub nonmatchings: Option<String>,
    /// The paths of the assembly files that exist.
    pub existing_files: Vec<String>,
}

/// The mathematical value of a [`PathDecompSettings`].
pub struct PathDecompSettingsView {
    pub asm_path: Seq<char>,
    pub path_index: nat,
    pub nonmatchings: Option<Seq<char>>,
    pub existing_files: Seq<Seq<char>>,
}

impl View for PathDecompSettings {
    type V = PathDecompSettingsView;

    open spec fn view(&self) -> PathDecompSettingsView {
        PathDecompSettingsView {
            asm_path: self.asm_path@,
            path_index: self.path_index as nat,
            nonmatchings: match self.nonmatchings {
                Some(path) => Some(path@),
                None => None,
            },
            existing_files: texts_of(self.existing_files@),
        }
    }
}

/// The components of a path from position `from` on.
pub open spec fn parts_from(parts: Seq<Seq<char>>, from: nat) -> Seq<Seq<char>> {
    if from <= parts.len() {
        parts.subrange(from as int, parts.len() as int)
    } else {
        Seq::empty()
    }
}

/// The path of a section inside the assembly tree: the section's path
/// without its first `path_index` components and without extensions.
pub open spec fn tree_path(filepath: Seq<char>, path_index: nat) -> Seq<char> {
    bare_path(path_of_components(parts_from(components_of(filepath), path_index)))
}

/// The assembly file of a section's whole object file.
pub open spec fn whole_file_asm(settings: PathDecompSettingsView, filepath: Seq<char>) -> Seq<
    char,
> {
    joined_path(
        settings.asm_path,
        with_extension_of(tree_path(filepath, settings.path_index), "s"@),
    )
}

/// The directory of the assembly files of a section's functions, where the
/// project keeps such files.
pub open spec fn functions_folder(settings: PathDecompSettingsView, filepath: Seq<char>)
    -> Option<Seq<char>> {
    match settings.nonmatchings {
        Some(base) => Some(joined_path(base, tree_path(filepath, settings.path_index))),
        None => None,
    }
}

/// The assembly file of the function `name` in the directory `folder`.
pub open spec fn function_asm(folder: Seq<char>, name: Seq<char>) -> Seq<char> {
    joined_path(folder, name + ".s"@)
}

/// The section's whole object file is still built from assembly.
pub open spec fn whole_file_undecomped(settings: Option<PathDecompSettingsView>, filepath: Seq<char>)
    -> bool {
    match settings {
        Some(settings) => settings.existing_files.contains(whole_file_asm(settings, filepath)),
        None => false,
    }
}

/// The function `name` of the section has an assembly file of its own.
pub open spec fn function_undecomped(
    settings: Option<PathDecompSettingsView>,
    filepath: Seq<char>,
    name: Seq<char>,
) -> bool {
    match settings {
        Some(settings) => match functions_folder(settings, filepath) {
            Some(folder) => settings.existing_files.contains(function_asm(folder, name)),
            None => false,
        },
        None => false,
    }
}

/// The names, among those of the first `k` symbols of the section, of the
/// functions that have an assembly file of their own; in the order of the
/// symbols.
pub open spec fn undecomped_functions(
    settings: Option<PathDecompSettingsView>,
    section: Section,
    k: int,
) -> Seq<Seq<char>>
    decreases k,
{
    if k <= 0 {
        Seq::empty()
    } else {
        let done = undecomped_functions(settings, section, k - 1);
        let name = section.symbols@[k - 1].name@;
        if function_undecomped(settings, section.filepath@, name) {
            done.push(name)
        } else {
            done
        }
    }
}

/// A symbol of the section is among the listed names exactly where its
/// function has an assembly file of its own.
pub proof fn lemma_undecomped_functions(
    settings: Option<PathDecompSettingsView>,
    section: Section,
    k: int,
    name: Seq<char>,
)
    requires
        0 <= k <= section.symbols@.len(),
    ensures
        undecomped_functions(settings, section, k).contains(name) <==> (function_undecomped(
            settings,
            section.filepath@,
            name,
        ) && exists|i: int| 0 <= i < k && section.symbols@[i].name@ == name),
    decreases k,
{
    if k > 0 {
        lemma_undecomped_functions(settings, section, k - 1, name);
        let done = undecomped_functions(settings, section, k - 1);
        let last = section.symbols@[k - 1].name@;
        let all = undecomped_functions(settings, section, k);
        if function_undecomped(settings, section.filepath@, last) {
            assert(all == done.push(last));
            if done.contains(name) {
                let at = choose|n: int| 0 <= n < done.len() && done[n] == name;
                assert(all[at] == name);
            }
            if last == name {
                assert(all[done.len() as int] == name);
            }
            if all.contains(name) {
                let at = choose|n: int| 0 <= n < all.len() && all[n] == name;
                if at < done.len() {
                    assert(done[at] == name);
                }
            }
        }
    }
}

/// Whether `wanted` is among `paths`.
pub fn lists_path(paths: &Vec<String>, wanted: &String) -> (r: bool)
    ensures
        r == texts_of(paths@).contains(wanted@),
{
    let ghost texts = texts_of(paths@);
    let mut i: usize = 0;
    while i < paths.len()
        invariant
            i <= paths.len(),
            texts == texts_of(paths@),
            forall|j: int| 0 <= j < i ==> texts[j] != wanted@,
        decreases paths.len() - i,
    {
        if paths[i] == *wanted {
            assert(texts[i as int] == wanted@);
            return true;
        }
        i += 1;
    }
    false
}

impl PathDecompSettings {
    /// The path of a section inside the assembly tree.
    pub fn tree_path_of(&self, filepath: &str) -> (r: String)
        ensures
            r@ == tree_path(filepath@, self@.path_index),
    {
        let parts = components(filepath);
        let rest = skip_parts(&parts, self.path_index);
        let inner_path = from_components(&rest);
        strip_extensions(inner_path.as_str())
    }

    /// The path of the assembly file of a section's whole object file.
    pub fn whole_file_asm_of(&self, filepath: &str) -> (r: String)
        ensures
            r@ == whole_file_asm(self@, filepath@),
    {
        let stripped = self.tree_path_of(filepath);
        proof {
            reveal_strlit("s");
        }
        let file = with_extension(stripped.as_str(), "s");
        join(self.asm_path.as_str(), file.as_str())
    }

    /// The directory of the assembly files of a section's functions.
    pub fn functions_folder_of(&self, filepath: &str) -> (r: Option<String>)
        ensures
            match r {
                Some(folder) => functions_folder(self@, filepath@) == Some(folder@),
                None => functions_folder(self@, filepath@) is None,
            },
    {
        match &self.nonmatchings {
            Some(base) => {
                let stripped = self.tree_path_of(filepath);
                Some(join(base.as_str(), stripped.as_str()))
            },
            None => None,
        }
    }
}

/// The path of the assembly file of the function `name` in the directory
/// `folder`.
pub fn function_asm_of(folder: &str, name: &String) -> (r: String)
    ensures
        r@ == function_asm(folder@, name@),
{
    let mut file = name.clone();
    file.append(".s");
    join(folder, file.as_str())
}

impl Section {
    /// The paths of the assembly files that decide the states of this
    /// section's symbols: that of the whole object file, and, where the
    /// project keeps files of single functions, that of each symbol. A
    /// caller that probes these has all that
    /// [`PathDecompSettings::existing_files`] needs for this section.
    pub fn asm_candidates(&self, settings: &PathDecompSettings) -> (r: Vec<String>)
        ensures
            r@.len() >= 1,
            r@[0]@ == whole_file_asm(settings@, self.filepath@),
            match functions_folder(settings@, self.filepath@) {
                Some(folder) => r@.len() == 1 + self.symbols@.len() && forall|k: int|
                    0 <= k < self.symbols@.len() ==> (#[trigger] r@[k + 1])@ == function_asm(
                        folder,
                        self.symbols@[k].name@,
                    ),
                None => r@.len() == 1,
            },
    {
        let mut out: Vec<String> = Vec::new();
        out.push(settings.whole_file_asm_of(self.filepath.as_str()));
        if let Some(folder) = settings.functions_folder_of(self.filepath.as_str()) {
            let mut k: usize = 0;
            while k < self.symbols.len()
                invariant
                    k <= self.symbols.len(),
                    out@.len() == 1 + k,
                    out@[0]@ == whole_file_asm(settings@, self.filepath@),
                    forall|j: int|
                        0 <= j < k ==> (#[trigger] out@[j + 1])@ == function_asm(
                            folder@,
                            self.symbols@[j].name@,
                        ),
                decreases self.symbols.len() - k,
            {
                out.push(function_asm_of(folder.as_str(), &self.symbols[k].name));
                k += 1;
            }
        }
        out
    }

    /// Whether the section's whole object file is still built from
    /// assembly, and the names of its symbols whose functions have an
    /// assembly file of their own.
    pub fn decomp_evidence(&self, path_decomp_settings: Option<&PathDecompSettings>) -> (r: (
        bool,
        Vec<String>,
    ))
        ensures
            r.0 == whole_file_undecomped(settings_view(path_decomp_settings), self.filepath@),
            texts_of(r.1@) == undecomped_functions(
                settings_view(path_decomp_settings),
                *self,
                self.symbols@.len() as int,
            ),
    {
        let mut names: Vec<String> = Vec::new();
        let ghost settings = settings_view(path_decomp_settings);
        assert(texts_of(names@) =~= undecomped_functions(settings, *self, 0));
        let path_decomp_settings = match path_decomp_settings {
            Some(path_decomp_settings) => path_decomp_settings,
            None => {
                assert forall|k: int| 0 <= k <= self.symbols@.len() implies undecomped_functions(
                    settings,
                    *self,
                    k,
                ) =~= Seq::empty() by {
                    lemma_no_settings_no_functions(*self, k);
                }
                return (false, names);
            },
        };
        let whole_file = path_decomp_settings.whole_file_asm_of(self.filepath.as_str());
        let whole_file_is_undecomped = lists_path(&path_decomp_settings.existing_files, &whole_file);
        let folder = path_decomp_settings.functions_folder_of(self.filepath.as_str());
        let mut k: usize = 0;
        while k < self.symbols.len()
            invariant
                k <= self.symbols.len(),
                settings == Some(path_decomp_settings@),
                match folder {
                    Some(folder) => functions_folder(path_decomp_settings@, self.filepath@)
                        == Some(folder@),
                    None => functions_folder(path_decomp_settings@, self.filepath@) is None,
                },
                texts_of(names@) == undecomped_functions(settings, *self, k as int),
            decreases self.symbols.len() - k,
        {
            let has_file = match &folder {
                Some(folder) => {
                    let file = function_asm_of(folder.as_str(), &self.symbols[k].name);
                    lists_path(&path_decomp_settings.existing_files, &file)
                },
                None => false,
            };
            if has_file {
                let ghost listed = names@;
                names.push(self.symbols[k].name.clone());
                assert(texts_of(names@) =~= texts_of(listed).push(self.symbols@[k as int].name@));
            }
            k += 1;
        }
        (whole_file_is_undecomped, names)
    }

    /// Walks the symbols of the section and tells which are decompiled.
    /// Without settings, only the symbols that have a placeholder count as
    /// not decompiled.
    pub fn symbol_match_state_iter(&self, path_decomp_settings: Option<&PathDecompSettings>) -> (r:
        SymbolDecompStateIter)
        ensures
            r.upcoming() == states_of(
                self,
                whole_file_undecomped(settings_view(path_decomp_settings), self.filepath@),
                undecomped_functions(
                    settings_view(path_decomp_settings),
                    *self,
                    self.symbols@.len() as int,
                ),
            ),
    {
        let (whole_file_is_undecomped, names) = self.decomp_evidence(path_decomp_settings);
        SymbolDecompStateIter::new(self, whole_file_is_undecomped, names)
    }
}

/// The value of the settings, where there are any.
pub open spec fn settings_view(settings: Option<&PathDecompSettings>) -> Option<
    PathDecompSettingsView,
> {
    match settings {
        Some(settings) => Some(settings@),
        None => None,
    }
}

proof fn lemma_no_settings_no_functions(section: Section, k: int)
    ensures
        undecomped_functions(None, section, k) =~= Seq::empty(),
    decreases k,
{
    if k > 0 {
        lemma_no_settings_no_functions(section, k - 1);
    }
}

} // verus!
