use mapfile_parser::{MapFile, MapsComparisonInfo, Section, Segment, Symbol, SymbolComparisonInfo};

fn symbol(name: &str, vram: u64) -> Symbol {
    Symbol::new(name.to_string(), vram, 0x10, None, None)
}

fn section(path: &str, section_type: &str, vram: u64, symbols: Vec<Symbol>) -> Section {
    let mut section = Section::new(path.to_string(), vram, 0x100, section_type, None, None);
    section.symbols = symbols;
    section
}

fn map_of(sections: Vec<Vec<Section>>) -> MapFile {
    let mut map = MapFile::new();
    for (index, list) in sections.into_iter().enumerate() {
        let mut segment = Segment::new(format!("seg{}", index), 0, 0, None, None);
        segment.sections_list = list;
        map.segments_list.push(segment);
    }
    map
}

fn build() -> MapFile {
    map_of(vec![vec![
        section("a.o", ".text", 0x80000000, vec![symbol("funcA", 0x80000000), symbol("funcB", 0x80000010)]),
        section("b.o", ".text", 0x80000100, vec![symbol("funcC", 0x80000100)]),
    ]])
}

fn expected() -> MapFile {
    map_of(vec![vec![
        section("a.o", ".text", 0x80000000, vec![symbol("funcA", 0x80000000), symbol("funcB", 0x80000014)]),
        section("b.o", ".text", 0x80000100, vec![symbol("funcC", 0x80000100)]),
    ]])
}

#[test]
fn lowest_differing_symbol_comes_with_the_one_before_it() {
    let a = build();
    let b = expected();
    let (symbol, section, previous) = a.find_lowest_differing_symbol(&b).unwrap();
    assert_eq!(symbol.name, "funcB");
    assert_eq!(symbol.vram, 0x80000010);
    assert_eq!(section.filepath, "a.o");
    assert_eq!(previous.unwrap().name, "funcA");
    assert!(a.find_lowest_differing_symbol(&a).is_none());
    assert!(a.find_lowest_differing_symbol(&MapFile::new()).is_none());
}

#[test]
fn lowest_differing_symbol_looks_back_over_empty_sections() {
    let a = map_of(vec![
        vec![
            section("a.o", ".text", 0x100, vec![symbol("last_of_a", 0x100)]),
            section("empty.o", ".text", 0x200, vec![]),
        ],
        vec![],
        vec![
            section("void.o", ".text", 0x300, vec![]),
            section("b.o", ".text", 0x400, vec![symbol("moved", 0x450), symbol("moved_too", 0x420)]),
        ],
    ]);
    let b = map_of(vec![vec![section(
        "b.o",
        ".text",
        0x400,
        vec![symbol("moved", 0x400), symbol("moved_too", 0x410), symbol("last_of_a", 0x100)],
    )]]);
    let (found, holder, previous) = a.find_lowest_differing_symbol(&b).unwrap();
    assert_eq!(found.name, "moved_too");
    assert_eq!(holder.filepath, "b.o");
    assert_eq!(previous.unwrap().name, "moved");
    let c = map_of(vec![vec![section("b.o", ".text", 0x400, vec![symbol("moved", 0x400)])]]);
    let (found, _, previous) = a.find_lowest_differing_symbol(&c).unwrap();
    assert_eq!(found.name, "moved");
    assert_eq!(previous.unwrap().name, "last_of_a");
    let first = map_of(vec![vec![section("a.o", ".text", 0x100, vec![symbol("moved", 0x100)])]]);
    let (found, _, previous) = first.find_lowest_differing_symbol(&c).unwrap();
    assert_eq!(found.name, "moved");
    assert!(previous.is_none());
}

#[test]
fn map_held_against_itself_is_all_equal() {
    let a = build();
    let info = a.compare_files_and_symbols(&a, true);
    assert!(info.bad_sections.is_empty());
    assert!(info.missing_sections.is_empty());
    assert_eq!(info.compared_list.len(), 3);
    assert!(info.compared_list.iter().all(|entry| entry.diff() == Some(0)));
}

#[test]
fn moved_and_missing_symbols_are_listed() {
    let a = build();
    let mut b = expected();
    b.segments_list[0].sections_list[1].symbols.clear();
    b.segments_list[0].sections_list[1].symbols.push(symbol("only_expected", 0x80000180));
    b.segments_list[0].sections_list[1].symbols.push(symbol("also_expected", 0x80000190));
    let info = a.compare_files_and_symbols(&b, true);
    assert_eq!(info.bad_sections.len(), 1);
    assert_eq!(info.bad_sections[0].filepath, "a.o");
    assert_eq!(info.missing_sections.len(), 1);
    assert_eq!(info.missing_sections[0].filepath, "b.o");
    assert_eq!(info.compared_list.len(), 5);
    assert_eq!(info.compared_list[0].diff(), Some(0));
    assert_eq!(info.compared_list[1].symbol.name, "funcB");
    assert_eq!(info.compared_list[1].build_address, 0x80000010);
    assert_eq!(info.compared_list[1].expected_address, 0x80000014);
    assert_eq!(info.compared_list[1].diff(), Some(-4));
    assert_eq!(info.compared_list[2].symbol.name, "funcC");
    assert_eq!(info.compared_list[2].expected_address, u64::MAX);
    assert!(info.compared_list[2].expected_file.is_none());
    assert_eq!(info.compared_list[2].diff(), None);
    assert_eq!(info.compared_list[3].symbol.name, "only_expected");
    assert_eq!(info.compared_list[3].build_address, u64::MAX);
    assert!(info.compared_list[3].build_file.is_none());
    assert_eq!(info.compared_list[3].expected_address, 0x80000180);
    let one_way = a.compare_files_and_symbols(&b, false);
    assert_eq!(one_way.compared_list.len(), 3);
    assert_eq!(one_way.missing_sections.len(), 1);
}

#[test]
fn shift_of_a_whole_file_does_not_show_in_its_symbols() {
    let a = map_of(vec![vec![section("a.o", ".text", 0x1000, vec![symbol("f", 0x1010)])]]);
    let shifted = map_of(vec![vec![section("a.o", ".text", 0x2000, vec![symbol("f", 0x2010)])]]);
    let info = a.compare_files_and_symbols(&shifted, false);
    assert_eq!(info.compared_list[0].diff(), Some(0));
    assert!(info.bad_sections.is_empty());
    let elsewhere = map_of(vec![vec![section("z.o", ".text", 0x2000, vec![symbol("f", 0x2010)])]]);
    let info = a.compare_files_and_symbols(&elsewhere, false);
    assert_eq!(info.compared_list[0].diff(), Some(-0x1000));
    assert_eq!(info.bad_sections.len(), 1);
}

#[test]
fn difference_is_signed_and_bounded() {
    let own = section("a.o", ".text", 0, vec![]);
    let other = section("b.o", ".text", 0, vec![]);
    let sym = symbol("s", 0);
    let at = |build: u64, expected: u64| {
        SymbolComparisonInfo::new(&sym, build, Some(&own), expected, Some(&other)).diff()
    };
    assert_eq!(at(10, 4), Some(6));
    assert_eq!(at(4, 10), Some(-6));
    assert_eq!(at(u64::MAX - 1, 0), Some(i64::MAX));
    assert_eq!(at(0, u64::MAX - 1), Some(i64::MIN));
    assert_eq!(at(u64::MAX, 0), None);
    assert_eq!(at(0, u64::MAX), None);
    let below = section("a.o", ".text", 0x100, vec![]);
    let info = SymbolComparisonInfo::new(&sym, 0x80, Some(&below), 0x180, Some(&below));
    assert_eq!(info.diff(), Some(-0x100));
    let bare = SymbolComparisonInfo::new(&sym, 7, None, 5, None);
    assert_eq!(bare.diff(), Some(2));
}

#[test]
fn section_is_listed_once_however_many_symbols_differ() {
    let a = map_of(vec![vec![
        section("a.o", ".text", 0, vec![symbol("x", 0x10), symbol("y", 0x20)]),
        section("a.o", ".text", 0x100, vec![symbol("z", 0x130)]),
        section("a.o", ".data", 0x200, vec![symbol("w", 0x230)]),
    ]]);
    let b = map_of(vec![vec![section(
        "other.o",
        ".text",
        0,
        vec![symbol("x", 0x14), symbol("y", 0x24), symbol("z", 0x134), symbol("w", 0x234)],
    )]]);
    let info = a.compare_files_and_symbols(&b, false);
    assert_eq!(info.compared_list.len(), 4);
    assert_eq!(info.bad_sections.len(), 2);
    assert_eq!(info.bad_sections[0].section_type, ".text");
    assert_eq!(info.bad_sections[1].section_type, ".data");
    let nothing = MapsComparisonInfo::new();
    assert!(nothing.bad_sections.is_empty() && nothing.compared_list.is_empty());
}
