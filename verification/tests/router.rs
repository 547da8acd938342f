use mapfile_parser::parser::{guess_dialect, MapDialect};
use mapfile_parser::{MapFile, Section, Segment, Symbol};

fn gnu_text() -> String {
    let mut text = String::new();
    text.push_str("Linker script and memory map\n");
    text.push_str("\n");
    text.push_str(".text           0x0000000080000000       0x20 load address 0x0000000000001000\n");
    text.push_str(" .text          0x0000000080000000       0x20 foo.o\n");
    text.push_str("                0x0000000080000000                funcA\n");
    text.push_str("                0x0000000080000010                funcB\n");
    text
}

fn lld_text() -> String {
    let mut text = String::new();
    text.push_str("     VMA      LMA     Size Align Out     In      Symbol\n");
    text.push_str("80000000     1000       20    16 .text\n");
    text.push_str("80000000     1000       20    16         foo.o:(.text)\n");
    text.push_str("80000000     1000       10     4                 funcA\n");
    text.push_str("80000010     1010       10     4                 funcB\n");
    text
}

fn mw_text() -> String {
    let mut text = String::new();
    text.push_str(".text section layout\n");
    text.push_str("  00000000 000020 80000000  4 .text \tfoo.o \n");
    text.push_str("  00000000 000010 80000000  4 funcA \tfoo.o \n");
    text.push_str("  00000010 000010 80000010  4 funcB \tfoo.o \n");
    text.push_str("Memory map:\n");
    text.push_str("            .text  80000000 00000020 00001000\n");
    text
}

fn same_symbol(a: &Symbol, b: &Symbol) -> bool {
    a.name == b.name
        && a.vram == b.vram
        && a.size == b.size
        && a.vrom == b.vrom
        && a.align == b.align
        && a.nonmatching_sym_exists == b.nonmatching_sym_exists
}

fn same_section(a: &Section, b: &Section) -> bool {
    a.filepath == b.filepath
        && a.vram == b.vram
        && a.size == b.size
        && a.section_type == b.section_type
        && a.vrom == b.vrom
        && a.align == b.align
        && a.is_fill == b.is_fill
        && a.symbols.len() == b.symbols.len()
        && a.symbols.iter().zip(b.symbols.iter()).all(|(x, y)| same_symbol(x, y))
}

fn same_segment(a: &Segment, b: &Segment) -> bool {
    a.name == b.name
        && a.vram == b.vram
        && a.size == b.size
        && a.vrom == b.vrom
        && a.align == b.align
        && a.sections_list.len() == b.sections_list.len()
        && a.sections_list.iter().zip(b.sections_list.iter()).all(|(x, y)| same_section(x, y))
}

fn same_map(a: &MapFile, b: &MapFile) -> bool {
    a.segments_list.len() == b.segments_list.len()
        && a.segments_list.iter().zip(b.segments_list.iter()).all(|(x, y)| same_segment(x, y))
}

#[test]
fn dialect_is_told_from_the_text() {
    assert_eq!(guess_dialect(&gnu_text()), MapDialect::Gnu);
    assert_eq!(guess_dialect(&lld_text()), MapDialect::Lld);
    assert_eq!(guess_dialect(&mw_text()), MapDialect::Metrowerks);
    assert_eq!(guess_dialect("Link map of main\n"), MapDialect::Metrowerks);
    assert_eq!(guess_dialect(" Link map of main\n"), MapDialect::Gnu);
    assert_eq!(guess_dialect(""), MapDialect::Gnu);
    assert_eq!(
        guess_dialect("Link map of x\n VMA LMA Size Align Out In Symbol\n"),
        MapDialect::Lld
    );
    assert_eq!(guess_dialect("VMA LMA Size Align Out In Symbol\n"), MapDialect::Gnu);
}

#[test]
fn guessed_reading_equals_the_dedicated_one() {
    let gnu = gnu_text();
    assert!(same_map(&MapFile::new_from_map_str(&gnu), &MapFile::new_from_gnu_map_str(&gnu)));
    let lld = lld_text();
    assert!(same_map(&MapFile::new_from_map_str(&lld), &MapFile::new_from_lld_map_str(&lld)));
    let mw = mw_text();
    assert!(same_map(&MapFile::new_from_map_str(&mw), &MapFile::new_from_mw_map_str(&mw)));
    assert_eq!(MapFile::new_from_map_str(&gnu).segments_list.len(), 1);
    assert_eq!(MapFile::new_from_map_str(&lld).segments_list.len(), 1);
    assert_eq!(MapFile::new_from_map_str(&mw).segments_list.len(), 1);
}

#[test]
fn three_dialects_describe_the_same_layout() {
    let gnu = MapFile::new_from_map_str(&gnu_text());
    let lld = MapFile::new_from_map_str(&lld_text());
    let mw = MapFile::new_from_map_str(&mw_text());
    for map in [&gnu, &lld, &mw] {
        let section = &map.segments_list[0].sections_list[0];
        assert_eq!(section.filepath, "foo.o");
        assert_eq!(section.vrom, Some(0x1000));
        let symbols = &section.symbols;
        assert_eq!(symbols.len(), 2);
        assert_eq!((symbols[0].vram, symbols[0].size, symbols[0].vrom), (0x80000000, 0x10, Some(0x1000)));
        assert_eq!((symbols[1].vram, symbols[1].size, symbols[1].vrom), (0x80000010, 0x10, Some(0x1010)));
    }
}

#[test]
fn parse_map_contents_guesses_too() {
    let mut map = MapFile::new();
    map.parse_map_contents(&lld_text());
    assert!(same_map(&map, &MapFile::new_from_lld_map_str(&lld_text())));
    map.parse_map_contents(&mw_text());
    assert!(same_map(&map, &MapFile::new_from_mw_map_str(&mw_text())));
    map.parse_map_contents_lld(&lld_text());
    assert!(same_map(&map, &MapFile::new_from_lld_map_str(&lld_text())));
    map.parse_map_contents_mw(&mw_text());
    assert!(same_map(&map, &MapFile::new_from_mw_map_str(&mw_text())));
    map.parse_map_contents(&gnu_text());
    assert!(same_map(&map, &MapFile::new_from_gnu_map_str(&gnu_text())));
}
