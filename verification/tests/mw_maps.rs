use mapfile_parser::mw::{
    classify_mw_line, lookup_memory_map, mw_memory_map_part, mw_relevant, parse_memory_map_mw,
    post_process_segments_mw, read_mw_line, read_mw_memory_line, tell_mw_line, MwEntry, MwLine,
    MwMatches, MwRow,
};
use mapfile_parser::{MapFile, Section, Segment, Symbol};

fn mw_text() -> String {
    let mut text = String::new();
    text.push_str("Link map of __start\n");
    text.push_str(" 1] __start (func,weak) found in os.a __start.c\n");
    text.push_str("\n");
    text.push_str(".text section layout\n");
    text.push_str("  Starting        Virtual\n");
    text.push_str("  address  Size   address\n");
    text.push_str("  -----------------------\n");
    text.push_str("  00000000 000010 80003100  4 .text \tfoo.o \n");
    text.push_str("  00000000 000010 80003100  4 func \tfoo.o \n");
    text.push_str("  00000010 000008 80003110  4 lbl_80003110 \tfoo.o \n");
    text.push_str("  00000018 000008 80003118  0 tail \tfoo.o \n");
    text.push_str("  00000020 000000 80003120  4 .text \tempty.o \n");
    text.push_str("\n");
    text.push_str(".bss section layout\n");
    text.push_str("  Starting        Virtual\n");
    text.push_str("  address  Size   address\n");
    text.push_str("  -----------------------\n");
    text.push_str("  00000000 000020 80100000  8 .bss \tfoo.o \n");
    text.push_str("  00000000 000020 80100000  8 buffer \tfoo.o \n");
    text.push_str("\n");
    text.push_str(".extra section layout\n");
    text.push_str("  00000000 000004 80200000  4 .data \tbar.o \n");
    text.push_str("  00000000 000004 80200000  4 value \tbar.o \n");
    text.push_str("\n");
    text.push_str("Memory map:\n");
    text.push_str("                   Starting Size     File\n");
    text.push_str("                   address           Offset\n");
    text.push_str("            .text  80003100 00020000 00000100\n");
    text.push_str("             .bss  80100000 00000020 00020100\n");
    text.push_str("\n");
    text.push_str("Linker generated symbols:\n");
    text.push_str("           _f_text 80003100 00000000 00000000\n");
    text
}

#[test]
fn mw_segment_from_memory_map() {
    let map = MapFile::new_from_map_str(&mw_text());
    assert_eq!(map.segments_list.len(), 3);
    let segment = &map.segments_list[0];
    assert_eq!(segment.name, ".text");
    assert_eq!(segment.vram, 0x80003100);
    assert_eq!(segment.size, 0x20000);
    assert_eq!(segment.vrom, Some(0x100));
    assert_eq!(segment.sections_list.len(), 1);
    let section = &segment.sections_list[0];
    assert_eq!(section.filepath, "foo.o");
    assert_eq!(section.section_type, ".text");
    assert_eq!(section.vram, 0x80003100);
    assert_eq!(section.vrom, Some(0x100));
    assert_eq!(section.symbols.len(), 2);
    assert_eq!(section.symbols[0].name, "func");
    assert_eq!(section.symbols[0].vram, 0x80003100);
    assert_eq!(section.symbols[0].vrom, Some(0x100));
    assert_eq!(section.symbols[0].size, 0x10);
    assert_eq!(section.symbols[0].align, Some(4));
    assert_eq!(section.symbols[1].name, "tail");
    assert_eq!(section.symbols[1].vrom, Some(0x118));
    assert_eq!(section.symbols[1].align, None);
}

#[test]
fn mw_noload_segment_and_segment_without_entry() {
    let map = MapFile::new_from_mw_map_str(&mw_text());
    let bss = &map.segments_list[1];
    assert_eq!(bss.name, ".bss");
    assert_eq!(bss.vrom, Some(0x20100));
    assert_eq!(bss.sections_list[0].vrom, None);
    assert_eq!(bss.sections_list[0].symbols[0].vrom, None);
    let extra = &map.segments_list[2];
    assert_eq!(extra.name, ".extra");
    assert_eq!(extra.vram, 0);
    assert_eq!(extra.size, 0);
    assert_eq!(extra.vrom, None);
    assert_eq!(extra.sections_list.len(), 1);
    assert_eq!(extra.sections_list[0].filepath, "bar.o");
    assert_eq!(extra.sections_list[0].vrom, None);
    assert_eq!(extra.sections_list[0].symbols[0].name, "value");
    assert_eq!(extra.sections_list[0].symbols[0].vrom, None);
}

#[test]
fn mw_text_is_cut_to_the_layouts() {
    let text = mw_text();
    let relevant = mw_relevant(&text);
    assert!(relevant.starts_with(".text section layout\n"));
    assert!(relevant.ends_with("_f_text 80003100 00000000 00000000\n"));
    assert_eq!(mw_relevant("a section layout\nrest"), "a section layout\nrest");
    assert_eq!(mw_relevant("nothing of the kind"), "nothing of the kind");
    let table = mw_memory_map_part(relevant);
    assert!(table.starts_with("Memory map:\n"));
    assert!(table.ends_with("00020100\n\n"));
    assert_eq!(mw_memory_map_part("x Memory map: y"), "Memory map: y");
    assert_eq!(mw_memory_map_part("no table"), "no table");
}

#[test]
fn mw_memory_map_lookup_takes_the_last_entry() {
    let lines = vec![
        "  .text  80003100 00020000 00000100".to_string(),
        "  not an entry".to_string(),
        "  .data  80030000 00001000 00020100".to_string(),
        "  .text  80004000 00000010 00000200".to_string(),
    ];
    let entries = parse_memory_map_mw(&lines);
    assert_eq!(entries.len(), 3);
    let found = lookup_memory_map(&entries, &".text".to_string()).unwrap();
    assert_eq!(found.starting_address, 0x80004000);
    assert_eq!(found.size, 0x10);
    assert_eq!(found.file_offset, 0x200);
    assert!(lookup_memory_map(&entries, &".bss".to_string()).is_none());
}

#[test]
fn mw_line_reader_follows_the_current_file() {
    let current = "foo.o".to_string();
    match read_mw_line(&current, "  00000000 000010 80003100  4 func \tfoo.o ") {
        MwEntry::Symbol { name, row } => {
            assert_eq!(name, "func");
            assert_eq!(row.starting, 0);
            assert_eq!(row.size, 0x10);
            assert_eq!(row.vram, 0x80003100);
            assert_eq!(row.align, 4);
        }
        other => panic!("{:?}", other),
    }
    match read_mw_line(&current, "  00000000 000010 80003100  4 .text \tbar.o ") {
        MwEntry::File { filename, section_type, .. } => {
            assert_eq!(filename, "bar.o");
            assert_eq!(section_type, ".text");
        }
        other => panic!("{:?}", other),
    }
    assert!(matches!(
        read_mw_line(&current, "  00000010 000008 80003110  4 lbl_80003110 \tfoo.o "),
        MwEntry::Nothing
    ));
    assert!(matches!(
        read_mw_line(&current, "  00000010 000008 80003110  4 gcc2_compiled. \tfoo.o "),
        MwEntry::Nothing
    ));
    match read_mw_line(&current, ".sdata2 section layout") {
        MwEntry::Segment { name } => assert_eq!(name, ".sdata2"),
        other => panic!("{:?}", other),
    }
    assert!(matches!(read_mw_line(&current, "  Starting        Virtual"), MwEntry::Nothing));
}

#[test]
fn mw_post_process_drops_stand_ins_and_empty_segments() {
    let mut section = Section::new("a.o".to_string(), 0x100, 0x30, ".text", Some(0x10), None);
    section.symbols.push(Symbol::new("f".to_string(), 0x100, 0, Some(0x10), None));
    section.symbols.push(Symbol::new("f.NON_MATCHING".to_string(), 0x100, 0x30, Some(0x10), None));
    let mut segment = Segment::new_placeholder();
    segment.name = ".text".to_string();
    segment.sections_list.push(section);
    let empty = Segment::new_default(".empty".to_string(), 0, 0, None);
    let sized = Segment::new_default(".sized".to_string(), 0, 8, None);
    let done = post_process_segments_mw(vec![Segment::new_placeholder(), segment, empty, sized]);
    assert_eq!(done.len(), 2);
    assert_eq!(done[0].sections_list.len(), 1);
    assert_eq!(done[0].sections_list[0].symbols[0].size, 0x30);
    assert!(done[0].sections_list[0].symbols[0].nonmatching_sym_exists);
    assert_eq!(done[0].sections_list[0].symbols[1].size, 0);
    assert_eq!(done[1].name, ".sized");
    let first_without_sections = Segment::new_default(".first".to_string(), 0, 8, None);
    assert!(post_process_segments_mw(vec![first_without_sections]).is_empty());
}

fn captured(parts: &[&str]) -> Vec<Option<String>> {
    parts.iter().map(|part| Some(part.to_string())).collect()
}

#[test]
fn mw_rest_of_a_line_is_told_apart_by_file() {
    let row = MwRow { starting: 0x10, size: 8, vram: 0x100, align: 4 };
    let current = "foo.o".to_string();
    let own = captured(&["func \tfoo.o ", "func", "foo.o"]);
    let other = captured(&[".data \tbar.o ", ".data", "bar.o"]);
    let banned = captured(&["gcc2_compiled. \tfoo.o ", "gcc2_compiled.", "foo.o"]);
    match classify_mw_line(&current, &MwMatches { label: false, symbol: Some(&own) }, row) {
        MwEntry::Symbol { name, row } => {
            assert_eq!(name, "func");
            assert_eq!(row.starting, 0x10);
        }
        other => panic!("{:?}", other),
    }
    match classify_mw_line(&current, &MwMatches { label: false, symbol: Some(&other) }, row) {
        MwEntry::File { filename, section_type, .. } => {
            assert_eq!(filename, "bar.o");
            assert_eq!(section_type, ".data");
        }
        other => panic!("{:?}", other),
    }
    assert!(matches!(
        classify_mw_line(&current, &MwMatches { label: true, symbol: Some(&own) }, row),
        MwEntry::Nothing
    ));
    assert!(matches!(
        classify_mw_line(&current, &MwMatches { label: false, symbol: Some(&banned) }, row),
        MwEntry::Nothing
    ));
    assert!(matches!(
        classify_mw_line(&current, &MwMatches { label: false, symbol: None }, row),
        MwEntry::Nothing
    ));
}

#[test]
fn mw_kind_of_a_line_follows_the_columns() {
    let columns = captured(&["whole", "10", "8", "100", "4", "func \tfoo.o "]);
    let heading = captured(&[".text section layout", ".text"]);
    match tell_mw_line(Some(&columns), Some(&heading)) {
        MwLine::Row { rest, row } => {
            assert_eq!(rest, "func \tfoo.o ");
            assert_eq!((row.starting, row.size, row.vram, row.align), (0x10, 8, 0x100, 4));
        }
        other => panic!("{:?}", other),
    }
    let wide = captured(&["whole", "10", "8", "11111111111111111", "4", "func \tfoo.o "]);
    assert!(matches!(tell_mw_line(Some(&wide), Some(&heading)), MwLine::Other));
    match tell_mw_line(None, Some(&heading)) {
        MwLine::Segment { name } => assert_eq!(name, ".text"),
        other => panic!("{:?}", other),
    }
    assert!(matches!(tell_mw_line(None, None), MwLine::Other));
    let entry = read_mw_memory_line(Some(&captured(&["whole", ".text", "80003100", "20000", "100"]))).unwrap();
    assert_eq!(entry.name, ".text");
    assert_eq!((entry.starting_address, entry.size, entry.file_offset), (0x80003100, 0x20000, 0x100));
    assert!(read_mw_memory_line(None).is_none());
    assert!(read_mw_memory_line(Some(&captured(&["whole", ".text", "x", "20000", "100"]))).is_none());
}

#[test]
fn mw_memory_map_before_the_layouts_is_read() {
    let text = "Memory map:\n  .text 80003100 00020000 00000100\n.text section layout\n  \
                00000000 000010 80003100  4 .text foo.o\n  00000000 000010 80003100  4 func foo.o\n";
    let map = MapFile::new_from_mw_map_str(text);
    assert_eq!(map.segments_list.len(), 1);
    let segment = &map.segments_list[0];
    assert_eq!(segment.name, ".text");
    assert_eq!(segment.vram, 0x80003100);
    assert_eq!(segment.size, 0x20000);
    assert_eq!(segment.vrom, Some(0x100));
    assert_eq!(segment.sections_list.len(), 1);
    let section = &segment.sections_list[0];
    assert_eq!(section.filepath, "foo.o");
    assert_eq!(section.section_type, ".text");
    assert_eq!(section.vrom, Some(0x100));
    assert_eq!(section.symbols.len(), 1);
    assert_eq!(section.symbols[0].name, "func");
    assert_eq!(section.symbols[0].vram, 0x80003100);
    assert_eq!(section.symbols[0].vrom, Some(0x100));
    assert_eq!(section.symbols[0].size, 0x10);
    let guessed = MapFile::new_from_map_str(text);
    assert_eq!(guessed.segments_list[0].vrom, Some(0x100));
}
