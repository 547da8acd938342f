use mapfile_parser::report::{
    first_component_of, is_banned_section_type, is_code_section_type, merge_measures,
    report_from_section, MatchLevel, Measures, ReportCategories,
};
use mapfile_parser::{MapFile, PathDecompSettings, Section, Segment, Symbol};

fn symbol(name: &str, vram: u64, size: u64) -> Symbol {
    Symbol::new(name.to_string(), vram, size, None, None)
}

fn section(path: &str, section_type: &str, vram: u64, size: u64, symbols: Vec<Symbol>) -> Section {
    let mut section = Section::new(path.to_string(), vram, size, section_type, None, None);
    section.symbols = symbols;
    section
}

fn measures(code: (u64, u64), functions: (u32, u32)) -> Measures {
    Measures {
        total_code: code.0,
        matched_code: code.1,
        total_data: 0,
        matched_data: 0,
        total_functions: functions.0,
        matched_functions: functions.1,
        total_units: 1,
    }
}

#[test]
fn unit_of_a_code_section_counts_its_functions() {
    let mut own = section(
        "build/src/a.o",
        ".text",
        0x1000,
        0x40,
        vec![symbol("f", 0x1000, 0x10), symbol("g", 0x1010, 0x30), symbol("g.NON_MATCHING", 0x1010, 0)],
    );
    own.symbols[1].nonmatching_sym_exists = true;
    let unit = report_from_section(&own, "src/a".to_string(), None).unwrap();
    assert_eq!(unit.name, "src/a");
    assert_eq!(unit.measures, Some(measures((0x40, 0x10), (2, 1))));
    assert!(unit.metadata.is_none());
    assert_eq!(unit.sections.len(), 1);
    assert_eq!(unit.sections[0].name, ".text");
    assert_eq!(unit.sections[0].size, 0x40);
    assert_eq!(unit.sections[0].virtual_address, 0x1000);
    assert_eq!(unit.sections[0].matching, MatchLevel::Part { matched: 0x10, total: 0x40 });
    assert_eq!(unit.functions.len(), 2);
    assert_eq!(unit.functions[0].name, "f");
    assert_eq!(unit.functions[0].size, 0x10);
    assert_eq!(unit.functions[0].matching, MatchLevel::Full);
    assert_eq!(unit.functions[0].virtual_address, 0x1000);
    assert_eq!(unit.functions[1].name, "g");
    assert_eq!(unit.functions[1].matching, MatchLevel::Nothing);
}

#[test]
fn bytes_before_the_first_symbol_make_an_item_of_their_own() {
    let own = section(
        "build/src/a.o",
        ".text",
        0x80001000,
        0x30,
        vec![symbol("f", 0x80001008, 0x8), symbol("g", 0x80001010, 0x20)],
    );
    let unit = report_from_section(&own, "a".to_string(), None).unwrap();
    assert_eq!(unit.measures, Some(measures((0x30, 0x30), (3, 3))));
    assert_eq!(unit.functions.len(), 3);
    assert_eq!(unit.functions[0].name, "f");
    assert_eq!(unit.functions[1].name, "$_static_symbol_80001000_build/src/a.o");
    assert_eq!(unit.functions[1].size, 8);
    assert_eq!(unit.functions[1].virtual_address, 0x80001000);
    assert_eq!(unit.functions[1].matching, MatchLevel::Full);
    assert_eq!(unit.functions[2].name, "g");
    let settings = PathDecompSettings {
        asm_path: "asm".to_string(),
        path_index: 1,
        nonmatchings: None,
        existing_files: vec!["asm/src/a.s".to_string()],
    };
    let unit = report_from_section(&own, "a".to_string(), Some(&settings)).unwrap();
    assert_eq!(unit.measures, Some(measures((0x30, 0), (3, 0))));
    assert_eq!(unit.functions[1].matching, MatchLevel::Nothing);
    assert_eq!(unit.sections[0].matching, MatchLevel::Part { matched: 0, total: 0x30 });
}

#[test]
fn data_fill_and_banned_sections() {
    let data = section("a.o", ".data", 0x2000, 0x10, vec![symbol("t", 0x2004, 0xC)]);
    let unit = report_from_section(&data, "a".to_string(), None).unwrap();
    assert_eq!(unit.measures, Some(measures((0, 0), (0, 0))));
    assert!(unit.functions.is_empty());
    assert_eq!(unit.sections[0].matching, MatchLevel::Nothing);
    let mut fill = section("a.o__fill__", ".text", 0x2000, 0x10, vec![]);
    fill.is_fill = true;
    assert!(report_from_section(&fill, "a".to_string(), None).is_none());
    let debug = section("a.o", ".debug_info", 0, 0x10, vec![symbol("d", 0, 0x10)]);
    assert!(report_from_section(&debug, "a".to_string(), None).is_none());
    assert!(is_banned_section_type(".comment"));
    assert!(is_banned_section_type(".gnu.attributes"));
    assert!(is_banned_section_type(".mdebug.abi32"));
    assert!(!is_banned_section_type(".text"));
    assert!(!is_banned_section_type(".debug_other"));
    assert!(is_code_section_type(".text"));
    assert!(is_code_section_type(".text.unlikely"));
    assert!(is_code_section_type(".start"));
    assert!(is_code_section_type(".init"));
    assert!(!is_code_section_type(".data"));
    assert!(!is_code_section_type("text"));
}

#[test]
fn measures_are_added_and_saturate() {
    let a = measures((0x10, 0x8), (2, 1));
    let b = measures((0x20, 0x20), (3, 3));
    assert_eq!(merge_measures(Some(a), Some(b)), Some(measures((0x30, 0x28), (5, 4))));
    assert_eq!(merge_measures(Some(a), None), Some(a));
    assert_eq!(merge_measures(None, Some(b)), Some(b));
    assert_eq!(merge_measures(None, None), None);
    let huge = measures((u64::MAX, 1), (u32::MAX, 0));
    assert_eq!(merge_measures(Some(huge), Some(b)), Some(measures((u64::MAX, 0x21), (u32::MAX, 3))));
}

#[test]
fn categories_gather_paths_by_identifier() {
    let mut categories = ReportCategories::new();
    assert_eq!(categories.len(), 0);
    {
        let entry = categories.push("game".to_string(), "Game".to_string(), vec!["src/game".to_string()]);
        assert_eq!(entry.id(), "game");
        assert_eq!(entry.name(), "Game");
        assert_eq!(entry.paths(), vec!["src/game".to_string()]);
    }
    categories.push("lib".to_string(), "Library".to_string(), vec!["src/lib".to_string()]);
    {
        let entry = categories.push("game".to_string(), "Other".to_string(), vec!["src/menu".to_string()]);
        assert_eq!(entry.name(), "Game");
        assert_eq!(entry.paths(), vec!["src/game".to_string(), "src/menu".to_string()]);
    }
    assert_eq!(categories.len(), 2);
    assert_eq!(categories.get(1).unwrap().id(), "lib");
    assert!(categories.get(2).is_none());
    categories.push("all".to_string(), "All".to_string(), vec!["src".to_string()]);
    assert_eq!(
        categories.get_categories("src/menu/main", ".text"),
        vec!["game".to_string(), "all".to_string()]
    );
    assert_eq!(categories.len(), 3);
    assert_eq!(categories.get_categories("tools/x/y", ".text"), vec!["tools".to_string()]);
    assert_eq!(categories.len(), 4);
    assert_eq!(categories.get(3).unwrap().name(), "tools");
    assert_eq!(categories.get(3).unwrap().paths(), vec!["tools".to_string()]);
    assert_eq!(categories.get_categories("tools/z", ".text"), vec!["tools".to_string()]);
    assert_eq!(categories.len(), 4);
    assert_eq!(first_component_of("a/b/c"), "a");
    assert_eq!(first_component_of("plain"), "plain");
    assert_eq!(first_component_of("/rooted"), "");
    assert_eq!(ReportCategories::default().len(), 0);
}

fn report_map() -> MapFile {
    let mut main = Segment::new("main".to_string(), 0x1000, 0x100, Some(0), None);
    main.sections_list.push(section("build/src/a.o", ".text", 0x1000, 0x10, vec![symbol("f", 0x1000, 0x10)]));
    main.sections_list.push(section("build/src/a.o", ".data", 0x1100, 0x10, vec![symbol("t", 0x1100, 0x10)]));
    main.sections_list.push(section("build/lib/b.o", ".text", 0x1010, 0x20, vec![symbol("g", 0x1010, 0x20)]));
    main.sections_list.push(section("build/lib/b.o", ".comment", 0, 0x20, vec![]));
    let mut overlay = Segment::new("overlay".to_string(), 0x2000, 0x100, Some(0x100), None);
    overlay.sections_list.push(section("build/src/a.o", ".text", 0x2000, 0x8, vec![symbol("h", 0x2000, 0x8)]));
    let mut map = MapFile::new();
    map.segments_list.push(main);
    map.segments_list.push(overlay);
    map
}

fn unit_name(section: &Section) -> String {
    section.filepath.trim_start_matches("build/").trim_end_matches(".o").to_string()
}

#[test]
fn report_merges_the_sections_of_a_unit() {
    let map = report_map();
    let mut categories = ReportCategories::new();
    categories.push("library".to_string(), "Library".to_string(), vec!["lib".to_string()]);
    let report = map.get_objdiff_report(categories, None, unit_name);
    assert_eq!(report.units.len(), 2);
    let first = &report.units[0];
    assert_eq!(first.name, "src/a");
    assert_eq!(first.measures, Some(measures((0x18, 0x18), (2, 2))));
    let kinds: Vec<&str> = first.sections.iter().map(|item| item.name.as_str()).collect();
    assert_eq!(kinds, vec![".text", ".data", ".text"]);
    let names: Vec<&str> = first.functions.iter().map(|item| item.name.as_str()).collect();
    assert_eq!(names, vec!["f", "h"]);
    let metadata = first.metadata.as_ref().unwrap();
    assert_eq!(metadata.module_name, "main");
    assert_eq!(metadata.module_id, 0);
    assert_eq!(metadata.progress_categories, vec!["src".to_string()]);
    let second = &report.units[1];
    assert_eq!(second.name, "lib/b");
    assert_eq!(second.measures, Some(measures((0x20, 0x20), (1, 1))));
    assert_eq!(second.metadata.as_ref().unwrap().progress_categories, vec!["library".to_string()]);
    assert_eq!(
        report.categories,
        vec![("library".to_string(), "Library".to_string()), ("src".to_string(), "src".to_string())]
    );
}

#[test]
fn report_takes_the_names_it_is_given() {
    let map = report_map();
    let names = vec![
        vec!["one".to_string(), "one".to_string(), "two".to_string()],
        vec!["three".to_string()],
    ];
    let report = map.report_with_unit_names(ReportCategories::new(), None, &names);
    let listed: Vec<&str> = report.units.iter().map(|unit| unit.name.as_str()).collect();
    assert_eq!(listed, vec!["one", "two", "three"]);
    assert_eq!(report.units[2].metadata.as_ref().unwrap().module_name, "overlay");
    assert_eq!(report.units[2].metadata.as_ref().unwrap().module_id, 1);
    assert_eq!(report.categories.len(), 3);
    let none = map.report_with_unit_names(ReportCategories::new(), None, &vec![]);
    assert!(none.units.is_empty());
    assert!(none.categories.is_empty());
}
