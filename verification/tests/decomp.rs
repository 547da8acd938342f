use mapfile_parser::fixup::pair_non_matching_symbols;
use mapfile_parser::{
    MapFile, PathDecompSettings, ProgressStats, Section, Segment, Symbol, SymbolDecompState,
    SymbolDecompStateIter,
};

fn symbol(name: &str, vram: u64, size: u64) -> Symbol {
    Symbol::new(name.to_string(), vram, size, None, None)
}

fn section(path: &str, section_type: &str, symbols: Vec<Symbol>) -> Section {
    let mut section = Section::new(path.to_string(), 0x1000, 0x100, section_type, None, None);
    section.symbols = symbols;
    section
}

fn states(iter: &mut SymbolDecompStateIter) -> Vec<(bool, String)> {
    let mut out = Vec::new();
    while let Some(state) = iter.next() {
        out.push(match state {
            SymbolDecompState::Decomped(sym) => (true, sym.name.clone()),
            SymbolDecompState::Undecomped(sym) => (false, sym.name.clone()),
        });
    }
    out
}

fn settings(existing: &[&str]) -> PathDecompSettings {
    PathDecompSettings {
        asm_path: "asm".to_string(),
        path_index: 2,
        nonmatchings: Some("asm/nonmatchings".to_string()),
        existing_files: existing.iter().map(|path| path.to_string()).collect(),
    }
}

#[test]
fn pairing_moves_the_size_to_the_symbol() {
    let mut own = section(
        "a.o",
        ".text",
        vec![
            symbol("foo", 0x1000, 0),
            symbol("foo.NON_MATCHING", 0x1000, 0x40),
            symbol("bar.NON_MATCHING", 0x1040, 0),
            symbol("bar", 0x1040, 0x20),
            symbol("lone.NON_MATCHING", 0x1060, 0x8),
            symbol("plain", 0x1068, 0x4),
        ],
    );
    pair_non_matching_symbols(&mut own);
    let got: Vec<(u64, bool)> = own.symbols.iter().map(|s| (s.size, s.nonmatching_sym_exists)).collect();
    assert_eq!(got, vec![(0x40, true), (0, false), (0, false), (0x20, true), (8, false), (4, false)]);
    let shown = states(&mut own.symbol_match_state_iter(None));
    assert_eq!(
        shown,
        vec![(false, "foo".to_string()), (false, "bar".to_string()), (true, "plain".to_string())]
    );
}

#[test]
fn pairing_takes_the_largest_of_several_placeholders() {
    let mut own = section(
        "a.o",
        ".text",
        vec![
            symbol("f.NON_MATCHING", 0, 0x30),
            symbol("f", 0, 0x10),
            symbol("f.NON_MATCHING", 0, 0x20),
            symbol("f", 0, 0x50),
        ],
    );
    pair_non_matching_symbols(&mut own);
    let sizes: Vec<u64> = own.symbols.iter().map(|s| s.size).collect();
    assert_eq!(sizes, vec![0, 0x30, 0, 0x50]);
    assert!(own.symbols[1].nonmatching_sym_exists);
    assert!(!own.symbols[3].nonmatching_sym_exists);
}

#[test]
fn pairing_goes_through_the_list_in_order() {
    let mut chained = section(
        "a.o",
        ".text",
        vec![
            symbol("a", 0, 0),
            symbol("a.NON_MATCHING", 0, 0),
            symbol("a.NON_MATCHING.NON_MATCHING", 0, 0x40),
        ],
    );
    pair_non_matching_symbols(&mut chained);
    let got: Vec<(u64, bool)> =
        chained.symbols.iter().map(|s| (s.size, s.nonmatching_sym_exists)).collect();
    assert_eq!(got, vec![(0, true), (0x40, true), (0, false)]);
    let mut turned = section(
        "a.o",
        ".text",
        vec![
            symbol("a.NON_MATCHING.NON_MATCHING", 0, 0x40),
            symbol("a.NON_MATCHING", 0, 0),
            symbol("a", 0, 0),
        ],
    );
    pair_non_matching_symbols(&mut turned);
    let got: Vec<(u64, bool)> =
        turned.symbols.iter().map(|s| (s.size, s.nonmatching_sym_exists)).collect();
    assert_eq!(got, vec![(0, false), (0, true), (0x40, true)]);
    let mut both = section(
        "a.o",
        ".text",
        vec![symbol("f", 0, 0x10), symbol("f.NON_MATCHING", 0x10, 0x30)],
    );
    pair_non_matching_symbols(&mut both);
    let sizes: Vec<u64> = both.symbols.iter().map(|s| s.size).collect();
    assert_eq!(sizes, vec![0x30, 0]);
}

#[test]
fn chained_placeholders_keep_the_size_of_the_section() {
    let mut text = String::new();
    text.push_str(".text           0x0000000080000000       0x40 load address 0x0000000000001000\n");
    text.push_str(" .text          0x0000000080000000       0x40 foo.o\n");
    text.push_str("                0x0000000080000000                a\n");
    text.push_str("                0x0000000080000000                a.NON_MATCHING\n");
    text.push_str("                0x0000000080000000                a.NON_MATCHING.NON_MATCHING\n");
    let map = MapFile::new_from_map_str(&text);
    let own = &map.segments_list[0].sections_list[0];
    let sizes: Vec<u64> = own.symbols.iter().map(|sym| sym.size).collect();
    assert_eq!(sizes, vec![0, 0x40, 0]);
    assert_eq!(sizes.iter().sum::<u64>() + (own.symbols[0].vram - own.vram), own.size);
}

#[test]
fn placeholder_pair_shows_once_after_parsing() {
    let mut text = String::new();
    text.push_str(".text           0x0000000080000000       0x40 load address 0x0000000000001000\n");
    text.push_str(" .text          0x0000000080000000       0x40 foo.o\n");
    text.push_str("                0x0000000080000000                foo\n");
    text.push_str("                0x0000000080000000                foo.NON_MATCHING\n");
    let map = MapFile::new_from_map_str(&text);
    let own = &map.segments_list[0].sections_list[0];
    assert_eq!(own.symbols[0].size, 0x40);
    assert!(own.symbols[0].nonmatching_sym_exists);
    assert_eq!(own.symbols[1].size, 0);
    let shown = states(&mut own.symbol_match_state_iter(None));
    assert_eq!(shown, vec![(false, "foo".to_string())]);
}

#[test]
fn iterator_takes_the_evidence_as_given() {
    let own = section("a.o", ".text", vec![symbol("f", 0, 4), symbol("g", 4, 4)]);
    let mut all = SymbolDecompStateIter::new(&own, true, vec![]);
    assert_eq!(states(&mut all), vec![(false, "f".to_string()), (false, "g".to_string())]);
    assert!(all.next().is_none());
    let mut some = SymbolDecompStateIter::new(&own, false, vec!["g".to_string()]);
    assert_eq!(states(&mut some), vec![(true, "f".to_string()), (false, "g".to_string())]);
    let empty = section("a.o", ".text", vec![]);
    assert!(SymbolDecompStateIter::new(&empty, false, vec![]).next().is_none());
}

#[test]
fn assembly_files_decide_the_states() {
    let own = section("build/src/code/a.c.o", ".text", vec![symbol("f", 0, 4), symbol("g", 4, 4)]);
    let nothing = settings(&[]);
    assert_eq!(nothing.tree_path_of("build/src/code/a.c.o"), "code/a");
    assert_eq!(nothing.whole_file_asm_of("build/src/code/a.c.o"), "asm/code/a.s");
    assert_eq!(
        nothing.functions_folder_of("build/src/code/a.c.o"),
        Some("asm/nonmatchings/code/a".to_string())
    );
    assert_eq!(
        own.asm_candidates(&nothing),
        vec![
            "asm/code/a.s".to_string(),
            "asm/nonmatchings/code/a/f.s".to_string(),
            "asm/nonmatchings/code/a/g.s".to_string(),
        ]
    );
    assert_eq!(
        states(&mut own.symbol_match_state_iter(Some(&nothing))),
        vec![(true, "f".to_string()), (true, "g".to_string())]
    );
    let one = settings(&["asm/nonmatchings/code/a/g.s"]);
    assert_eq!(own.decomp_evidence(Some(&one)), (false, vec!["g".to_string()]));
    assert_eq!(
        states(&mut own.symbol_match_state_iter(Some(&one))),
        vec![(true, "f".to_string()), (false, "g".to_string())]
    );
    let whole = settings(&["asm/code/a.s"]);
    assert_eq!(own.decomp_evidence(Some(&whole)), (true, vec![]));
    assert_eq!(
        states(&mut own.symbol_match_state_iter(Some(&whole))),
        vec![(false, "f".to_string()), (false, "g".to_string())]
    );
    let mut no_functions = settings(&["asm/nonmatchings/code/a/g.s"]);
    no_functions.nonmatchings = None;
    assert_eq!(own.asm_candidates(&no_functions), vec!["asm/code/a.s".to_string()]);
    assert_eq!(own.decomp_evidence(Some(&no_functions)), (false, vec![]));
    assert_eq!(own.decomp_evidence(None), (false, vec![]));
}

fn progress_map() -> MapFile {
    let mut segment = Segment::new(".main".to_string(), 0, 0, None, None);
    let mut first = section(
        "build/src/code/a.o",
        ".text",
        vec![symbol("f", 0, 0x10), symbol("g", 0x10, 0x20), symbol("g.NON_MATCHING", 0x10, 0)],
    );
    first.symbols[1].nonmatching_sym_exists = true;
    segment.sections_list.push(first);
    segment.sections_list.push(section("build/src/lib/b.o", ".text", vec![symbol("h", 0x30, 0x8)]));
    segment.sections_list.push(section("build/src/gone/c.o", ".text", vec![]));
    segment.sections_list.push(section("build/src/code/d.o", ".data", vec![symbol("t", 0x40, 0x4)]));
    let mut map = MapFile::new();
    map.segments_list.push(segment);
    map
}

#[test]
fn progress_is_added_up_in_all_and_by_folder() {
    let map = progress_map();
    let with = settings(&["asm/lib/b.s"]);
    let (total, folders) = map.get_progress(Some(&with), &vec![]);
    assert_eq!(total, ProgressStats { undecomped_size: 0x28, decomped_size: 0x14 });
    assert_eq!(folders.len(), 2);
    assert_eq!(folders[0].0, "code");
    assert_eq!(folders[0].1, ProgressStats { undecomped_size: 0x20, decomped_size: 0x14 });
    assert_eq!(folders[1].0, "lib");
    assert_eq!(folders[1].1, ProgressStats { undecomped_size: 0x8, decomped_size: 0 });
    assert_eq!(total.total(), 0x3C);
}

#[test]
fn progress_without_settings_goes_by_the_file_name() {
    let map = progress_map();
    let aliases = vec![
        ("a.o".to_string(), "first".to_string()),
        ("d.o".to_string(), "first".to_string()),
        ("a.o".to_string(), "never".to_string()),
    ];
    let (total, folders) = map.get_progress(None, &aliases);
    assert_eq!(total, ProgressStats { undecomped_size: 0x20, decomped_size: 0x1C });
    let names: Vec<&str> = folders.iter().map(|entry| entry.0.as_str()).collect();
    assert_eq!(names, vec!["first", "b.o"]);
    assert_eq!(folders[0].1, ProgressStats { undecomped_size: 0x20, decomped_size: 0x14 });
    assert_eq!(folders[1].1, ProgressStats { undecomped_size: 0, decomped_size: 0x8 });
    let (total, folders) = MapFile::new().get_progress(None, &vec![]);
    assert_eq!(total, ProgressStats::new());
    assert!(folders.is_empty());
}

#[test]
fn progress_stats_add_up_and_saturate() {
    let mut stats = ProgressStats::default();
    stats.add_decomped(5);
    stats.add_undecomped(7);
    assert_eq!(stats, ProgressStats { undecomped_size: 7, decomped_size: 5 });
    assert_eq!(stats.total(), 12);
    stats.add_decomped(u64::MAX);
    assert_eq!(stats.decomped_size, usize::MAX);
    assert_eq!(stats.total(), usize::MAX);
    let small = ProgressStats { undecomped_size: 3, decomped_size: 4 };
    assert_eq!(
        small.get_as_frogress_entry("code"),
        vec![("code".to_string(), 4), ("code/total".to_string(), 7)]
    );
}

#[test]
fn progress_table_heading_is_padded_to_the_column() {
    let tail = ": DecompedSize /    Total   OfFolder%  (             OfTotal%)";
    assert_eq!(ProgressStats::get_header_as_str(10), format!("Category  {}", tail));
    assert_eq!(ProgressStats::get_header_as_str(8), format!("Category{}", tail));
    assert_eq!(ProgressStats::get_header_as_str(0), format!("Category{}", tail));
    assert_eq!(
        ProgressStats::get_header_as_str(28),
        format!(
            "{:<28}: {:>12} / {:>8} {:>10}%  ({:>20}%)",
            "Category", "DecompedSize", "Total", "OfFolder", "OfTotal"
        )
    );
}
