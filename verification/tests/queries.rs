use mapfile_parser::{File, FoundSymbolInfo, MapFile, Section, Segment, Symbol};

fn symbol(name: &str, vram: u64, size: u64, vrom: Option<u64>) -> Symbol {
    Symbol::new(name.to_string(), vram, size, vrom, None)
}

fn section(path: &str, section_type: &str, vram: u64, size: u64, symbols: Vec<Symbol>) -> Section {
    let mut section = Section::new(path.to_string(), vram, size, section_type, Some(vram & 0xFFFF), None);
    section.symbols = symbols;
    section
}

fn sample() -> MapFile {
    let mut text = Segment::new(".main".to_string(), 0x80000000, 0x100, Some(0), None);
    text.sections_list.push(section(
        "build/src/code/a.o",
        ".text",
        0x80000000,
        0x30,
        vec![
            symbol("func_a", 0x80000000, 0x10, Some(0x0)),
            symbol("func_b", 0x80000010, 0x18, Some(0x10)),
        ],
    ));
    text.sections_list.push(section("build/src/code/empty.o", ".text", 0x80000030, 0x10, vec![]));
    text.sections_list.push(section(
        "build/src/code/b.o",
        ".data",
        0x80000040,
        0x20,
        vec![symbol("table", 0x80000040, 0x20, Some(0x40))],
    ));
    let mut bss = Segment::new(".bss_seg".to_string(), 0x80100000, 0x40, None, None);
    bss.sections_list.push(section(
        "build/src/lib/c.o",
        ".bss",
        0x80100000,
        0x40,
        vec![symbol("buffer", 0x80100000, 0x20, None), symbol("func_a", 0x80100020, 0x20, None)],
    ));
    let mut map = MapFile::new();
    map.segments_list.push(text);
    map.segments_list.push(bss);
    map
}

#[test]
fn symbol_is_found_by_name_in_map_order() {
    let map = sample();
    let found = map.find_symbol_by_name("func_a").unwrap();
    assert_eq!(found.symbol.vram, 0x80000000);
    assert_eq!(found.section.filepath, "build/src/code/a.o");
    assert_eq!(found.offset, 0);
    assert_eq!(map.find_symbol_by_name("table").unwrap().section.section_type, ".data");
    assert!(map.find_symbol_by_name("absent").is_none());
    let segment = &map.segments_list[1];
    assert_eq!(segment.find_symbol_by_name("func_a").unwrap().symbol.vram, 0x80100020);
    let section = &segment.sections_list[0];
    assert_eq!(section.find_symbol_by_name("buffer").unwrap().size, 0x20);
    let (sym, index) = section.find_symbol_and_index_by_name("func_a").unwrap();
    assert_eq!((sym.vram, index), (0x80100020, 1));
    assert!(section.find_symbol_and_index_by_name("table").is_none());
}

#[test]
fn symbol_found_by_name_can_be_changed() {
    let mut map = sample();
    let section = &mut map.segments_list[0].sections_list[0];
    section.find_symbol_by_name_mut("func_b").unwrap().size = 0x20;
    assert!(section.find_symbol_by_name_mut("absent").is_none());
    assert_eq!(section.symbols[1].size, 0x20);
    assert_eq!(section.symbols[0].size, 0x10);
}

#[test]
fn address_is_found_at_start_and_inside() {
    let map = sample();
    let (found, possible) = map.find_symbol_by_vram(0x80000010);
    let found = found.unwrap();
    assert_eq!((found.symbol.name.as_str(), found.offset), ("func_b", 0));
    assert!(possible.is_empty());
    let (found, _) = map.find_symbol_by_vram(0x80000014);
    let found = found.unwrap();
    assert_eq!((found.symbol.name.as_str(), found.offset), ("func_b", 4));
    let (found, _) = map.find_symbol_by_vram(0x8000000F);
    assert_eq!(found.unwrap().offset, 0xF);
    let (found, _) = map.find_symbol_by_vram(0x80100030);
    let found = found.unwrap();
    assert_eq!((found.symbol.name.as_str(), found.offset), ("func_a", 0x10));
    assert_eq!(found.section.section_type, ".bss");
}

#[test]
fn address_in_no_symbol_gives_the_sections_that_span_it() {
    let map = sample();
    let (found, possible) = map.find_symbol_by_vram(0x8000002C);
    assert!(found.is_none());
    assert_eq!(possible.len(), 1);
    assert_eq!(possible[0].filepath, "build/src/code/a.o");
    let (found, possible) = map.find_symbol_by_vram(0x80000038);
    assert!(found.is_none());
    assert_eq!(possible.len(), 1);
    assert_eq!(possible[0].filepath, "build/src/code/empty.o");
    let (found, possible) = map.find_symbol_by_vram(0x90000000);
    assert!(found.is_none());
    assert!(possible.is_empty());
    let (found, possible) = map.segments_list[0].find_symbol_by_vram(0x80100000);
    assert!(found.is_none());
    assert!(possible.is_empty());
}

#[test]
fn image_offset_is_found_where_symbols_have_one() {
    let map = sample();
    let (found, _) = map.find_symbol_by_vrom(0x10);
    assert_eq!(found.unwrap().symbol.name, "func_b");
    let (found, _) = map.find_symbol_by_vrom(0x45);
    let found = found.unwrap();
    assert_eq!((found.symbol.name.as_str(), found.offset), ("table", 5));
    let (found, possible) = map.find_symbol_by_vrom(0x80100000);
    assert!(found.is_none());
    assert!(possible.is_empty());
    let (found, possible) = map.find_symbol_by_vrom(0x38);
    assert!(found.is_none());
    let paths: Vec<&str> = possible.iter().map(|section| section.filepath.as_str()).collect();
    assert_eq!(paths, vec!["build/src/code/empty.o", "build/src/lib/c.o"]);
    let mut unplaced = sample();
    unplaced.segments_list[1].sections_list[0].vrom = None;
    let (_, possible) = unplaced.find_symbol_by_vrom(0x38);
    assert_eq!(possible.len(), 1);
    let section = &map.segments_list[1].sections_list[0];
    assert!(section.find_symbol_by_vrom(0).is_none());
    let (sym, offset) = map.segments_list[0].sections_list[0].find_symbol_by_vrom(0x27).unwrap();
    assert_eq!((sym.name.as_str(), offset), ("func_b", 0x17));
    assert!(map.segments_list[0].sections_list[0].find_symbol_by_vrom(0x28).is_none());
}

#[test]
fn exact_start_wins_over_a_covering_symbol() {
    let own = section(
        "a.o",
        ".text",
        0x100,
        0x40,
        vec![symbol("wide", 0x100, 0x40, Some(0x10)), symbol("inner", 0x110, 0x8, Some(0x20))],
    );
    let (sym, offset) = own.find_symbol_by_vram(0x110).unwrap();
    assert_eq!((sym.name.as_str(), offset), ("inner", 0));
    let (sym, offset) = own.find_symbol_by_vram(0x114).unwrap();
    assert_eq!((sym.name.as_str(), offset), ("inner", 4));
    let (sym, offset) = own.find_symbol_by_vram(0x120).unwrap();
    assert_eq!((sym.name.as_str(), offset), ("wide", 0x20));
    assert!(own.find_symbol_by_vram(0x140).is_none());
    assert!(own.find_symbol_by_vram(0xFF).is_none());
}

#[test]
fn older_lookup_takes_addresses_and_offsets() {
    let map = sample();
    let found = map.find_symbol_by_vram_or_vrom(0x80000014).unwrap();
    assert_eq!((found.symbol.name.as_str(), found.offset), ("func_b", 4));
    let found = map.find_symbol_by_vram_or_vrom(0x12).unwrap();
    assert_eq!((found.symbol.name.as_str(), found.offset), ("func_b", 2));
    let found = map.find_symbol_by_vram_or_vrom(0x40).unwrap();
    assert_eq!((found.symbol.name.as_str(), found.offset), ("table", 0));
    assert!(map.find_symbol_by_vram_or_vrom(0x70).is_none());
    let found = map.segments_list[1].find_symbol_by_vram_or_vrom(0x8010003F).unwrap();
    assert_eq!((found.symbol.name.as_str(), found.offset), ("func_a", 0x1F));
    let own: &File = &map.segments_list[0].sections_list[0];
    let (sym, offset) = own.find_symbol_by_vram_or_vrom(0x8000000C).unwrap();
    assert_eq!((sym.name.as_str(), offset), ("func_a", 0xC));
    assert!(own.find_symbol_by_vram_or_vrom(0x80000028).is_none());
}

#[test]
fn sections_are_kept_or_dropped_by_type() {
    let map = sample();
    let text = map.filter_by_section_type(".text");
    assert_eq!(text.segments_list.len(), 1);
    assert_eq!(text.segments_list[0].name, ".main");
    assert_eq!(text.segments_list[0].sections_list.len(), 2);
    assert!(text.segments_list[0].sections_list.iter().all(|s| s.section_type == ".text"));
    assert_eq!(text.segments_list[0].sections_list[0].symbols.len(), 2);
    let rest = map.get_every_section_except_section_type(".text");
    assert_eq!(rest.segments_list.len(), 2);
    assert_eq!(rest.segments_list[0].sections_list.len(), 1);
    assert_eq!(rest.segments_list[0].sections_list[0].section_type, ".data");
    assert_eq!(rest.segments_list[1].sections_list[0].section_type, ".bss");
    let older = map.get_every_file_except_section_type(".text");
    assert_eq!(older.segments_list.len(), 2);
    assert!(map.filter_by_section_type(".rodata").segments_list.is_empty());
    let segment = map.segments_list[0].filter_by_section_type(".rodata");
    assert_eq!(segment.name, ".main");
    assert!(segment.sections_list.is_empty());
    assert_eq!(map.segments_list[0].get_every_file_except_section_type(".data").sections_list.len(), 2);
}

#[test]
fn sections_of_a_folder_are_folded_into_one() {
    let map = sample();
    let mixed = map.mix_folders();
    assert_eq!(mixed.segments_list.len(), 2);
    let sections = &mixed.segments_list[0].sections_list;
    assert_eq!(sections.len(), 1);
    assert_eq!(sections[0].filepath, "code");
    assert_eq!(sections[0].vram, 0x80000000);
    assert_eq!(sections[0].size, 0x60);
    assert_eq!(sections[0].section_type, ".text");
    assert_eq!(sections[0].vrom, Some(0));
    let names: Vec<&str> = sections[0].symbols.iter().map(|sym| sym.name.as_str()).collect();
    assert_eq!(names, vec!["func_a", "func_b", "table"]);
    assert_eq!(mixed.segments_list[1].sections_list[0].filepath, "lib");
    let mut deep = Segment::new(".s".to_string(), 0, 0, None, None);
    deep.sections_list.push(section("a/b/c/d/e.o", ".text", 0, 4, vec![]));
    deep.sections_list.push(section("x.o", ".text", 4, 4, vec![]));
    deep.sections_list.push(section("a/b/c/d/f.o", ".data", 8, 4, vec![]));
    let folded = deep.mix_folders();
    assert_eq!(folded.sections_list.len(), 2);
    assert_eq!(folded.sections_list[0].filepath, "c/d");
    assert_eq!(folded.sections_list[0].size, 8);
    assert_eq!(folded.sections_list[1].filepath, "");
}

#[test]
fn stand_ins_are_recognised() {
    assert!(Section::new_placeholder().is_placeholder());
    assert!(Segment::new_placeholder().is_placeholder());
    assert!(!sample().segments_list[0].is_placeholder());
    let mut named = Segment::new_placeholder();
    named.name = ".text".to_string();
    assert!(!named.is_placeholder());
    let mut filled = Section::new_placeholder();
    filled.symbols.push(symbol("x", 0, 0, None));
    assert!(!filled.is_placeholder());
    let default = File::new_default("a.o".to_string(), 1, 2, ".text");
    assert_eq!((default.vrom, default.align, default.is_fill), (None, None, false));
    let fill = Section::new_fill("a.o__fill__".to_string(), 1, 2, ".text");
    assert!(fill.is_fill);
    let bare = sample().segments_list[0].sections_list[0].clone_no_symbollist();
    assert!(bare.symbols.is_empty());
    assert_eq!(bare.filepath, "build/src/code/a.o");
    assert_eq!(sample().segments_list[0].clone_no_sectionlist().name, ".main");
}

#[test]
fn model_types_compare_by_identity() {
    assert!(symbol("a", 1, 2, None) == symbol("a", 1, 9, Some(4)));
    assert!(symbol("a", 1, 2, None) != symbol("a", 2, 2, None));
    assert!(section("a.o", ".text", 1, 2, vec![]) == section("a.o", ".text", 5, 6, vec![]));
    assert!(section("a.o", ".text", 1, 2, vec![]) != section("a.o", ".data", 1, 2, vec![]));
    assert!(Segment::new("s".to_string(), 1, 2, Some(3), None) == Segment::new("s".to_string(), 1, 2, Some(3), Some(8)));
    assert!(Segment::new("s".to_string(), 1, 2, Some(3), None) != Segment::new("s".to_string(), 1, 2, None, None));
}

#[test]
fn copies_and_no_ops_keep_the_model() {
    let map = sample();
    let copy = map.fixup_non_matching_symbols();
    assert_eq!(copy.to_csv_symbols(), map.to_csv_symbols());
    let mut section = map.segments_list[0].sections_list[0].clone();
    section.fixup_non_matching_symbols();
    assert_eq!(section.symbols[0].size, 0x10);
    let mut segment = map.segments_list[0].clone();
    segment.fixup_non_matching_symbols();
    assert_eq!(segment.sections_list.len(), 3);
    let info = FoundSymbolInfo::new(&section, &section.symbols[0], 4);
    assert_eq!(info.offset, 4);
    assert_eq!(FoundSymbolInfo::new_default(&section, &section.symbols[0]).offset, 0);
}
