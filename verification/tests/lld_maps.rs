use mapfile_parser::lld::{
    classify_lld_line, post_process_segments_lld, read_lld_line, split_lld_line, LldEntry,
    LldMatches, LldRow,
};
use mapfile_parser::{MapFile, Section, Segment, Symbol};

fn lld_text() -> String {
    let mut text = String::new();
    text.push_str("             VMA              LMA     Size Align Out     In      Symbol\n");
    text.push_str("        80000000             1000       28    16 .text\n");
    text.push_str("        80000000             1000       10    16         build/src/a.o:(.text)\n");
    text.push_str("        80000000             1000       10     4                 func_a\n");
    text.push_str("        80000010             1100        8     4         . += 0x8\n");
    text.push_str("        80000018             1018       10    16         build/src/b.o:(.text)\n");
    text.push_str("        80000018             1018        0     4                 func_b\n");
    text.push_str("        8000001c             101c        0     1                 .L8000001C\n");
    text.push_str("        80000020             1020        0     4                 func_c\n");
    text.push_str("        80001000             2000       20    10 .bss\n");
    text.push_str("        80001000             2000       20     8         build/src/a.o:(.bss)\n");
    text.push_str("        80001000             2000       20     8                 buffer\n");
    text.push_str("        80002000             3000        0     8         build/src/c.o:(.data)\n");
    text
}

#[test]
fn lld_fill_between_sections() {
    let map = MapFile::new_from_map_str(&lld_text());
    assert_eq!(map.segments_list.len(), 2);
    let segment = &map.segments_list[0];
    assert_eq!(segment.name, ".text");
    assert_eq!(segment.vram, 0x80000000);
    assert_eq!(segment.vrom, Some(0x1000));
    assert_eq!(segment.size, 0x28);
    assert_eq!(segment.align, Some(0x16));
    assert_eq!(segment.sections_list.len(), 3);
    let fill = &segment.sections_list[1];
    assert!(fill.is_fill);
    assert_eq!(fill.filepath, "build/src/a.o__fill__");
    assert_eq!(fill.size, 0x8);
    assert_eq!(fill.vram, 0x80000010);
    assert_eq!(fill.vrom, Some(0x1100));
    assert_eq!(fill.section_type, ".text");
    assert_eq!(fill.align, None);
    assert!(!segment.sections_list[0].is_fill);
    assert!(!segment.sections_list[2].is_fill);
}

#[test]
fn lld_sizes_left_at_zero_are_worked_out() {
    let map = MapFile::new_from_lld_map_str(&lld_text());
    let first = &map.segments_list[0].sections_list[0];
    assert_eq!(first.align, Some(0x16));
    assert_eq!(first.symbols.len(), 1);
    assert_eq!(first.symbols[0].name, "func_a");
    assert_eq!(first.symbols[0].size, 0x10);
    assert_eq!(first.symbols[0].vrom, Some(0x1000));
    assert_eq!(first.symbols[0].align, Some(4));
    let last = &map.segments_list[0].sections_list[2];
    assert_eq!(last.symbols.len(), 2);
    assert_eq!(last.symbols[0].name, "func_b");
    assert_eq!(last.symbols[0].size, 0x8);
    assert_eq!(last.symbols[1].name, "func_c");
    assert_eq!(last.symbols[1].size, 0x8);
    assert_eq!(last.symbols[1].vrom, Some(0x1020));
}

#[test]
fn lld_noload_section_has_no_image_offsets() {
    let map = MapFile::new_from_lld_map_str(&lld_text());
    let segment = &map.segments_list[1];
    assert_eq!(segment.name, ".bss");
    assert_eq!(segment.vrom, Some(0x2000));
    assert_eq!(segment.sections_list.len(), 1);
    let section = &segment.sections_list[0];
    assert_eq!(section.vrom, None);
    assert_eq!(section.symbols[0].vrom, None);
    assert_eq!(section.symbols[0].size, 0x20);
}

#[test]
fn lld_lines_without_columns_add_nothing() {
    assert!(matches!(read_lld_line("no columns here"), LldEntry::Nothing));
    assert!(matches!(
        read_lld_line("             VMA              LMA     Size Align Out     In      Symbol"),
        LldEntry::Nothing
    ));
    assert!(matches!(
        read_lld_line("11111111111111111 1000 10 4         too_wide:(.text)"),
        LldEntry::Nothing
    ));
    assert!(MapFile::new_from_lld_map_str("").segments_list.is_empty());
}

fn captured(parts: &[&str]) -> Vec<Option<String>> {
    parts.iter().map(|part| Some(part.to_string())).collect()
}

#[test]
fn lld_rest_of_a_line_is_told_apart_by_shape() {
    let row = LldRow { vram: 0x100, vrom: 0x10, size: 4, align: 8 };
    let none = LldMatches { segment: None, fill: false, section: None, label: false, symbol: None };
    assert!(matches!(classify_lld_line(&none, row), LldEntry::Nothing));
    let name = captured(&["        main", "main"]);
    let file = captured(&["        a.o:(.text)", "a.o", ".text"]);
    let every = LldMatches {
        segment: Some(&name),
        fill: true,
        section: Some(&file),
        label: true,
        symbol: Some(&name),
    };
    match classify_lld_line(&every, row) {
        LldEntry::Segment { name, row } => {
            assert_eq!(name, "main");
            assert_eq!(row.align, 8);
        }
        other => panic!("{:?}", other),
    }
    let padding = LldMatches { segment: None, ..every };
    assert!(matches!(classify_lld_line(&padding, row), LldEntry::Fill { .. }));
    let section = LldMatches { fill: false, ..padding };
    match classify_lld_line(&section, row) {
        LldEntry::Section { filepath, section_type, .. } => {
            assert_eq!(filepath, "a.o");
            assert_eq!(section_type, ".text");
        }
        other => panic!("{:?}", other),
    }
    let empty = LldRow { size: 0, ..row };
    assert!(matches!(classify_lld_line(&section, empty), LldEntry::Nothing));
    let label = LldMatches { section: None, ..section };
    assert!(matches!(classify_lld_line(&label, row), LldEntry::Nothing));
    let symbol = LldMatches { label: false, ..label };
    match classify_lld_line(&symbol, empty) {
        LldEntry::Symbol { name, row } => {
            assert_eq!(name, "main");
            assert_eq!(row.size, 0);
        }
        other => panic!("{:?}", other),
    }
    let banned = captured(&["  gcc2_compiled.", "gcc2_compiled."]);
    let unwanted = LldMatches { symbol: Some(&banned), ..symbol };
    assert!(matches!(classify_lld_line(&unwanted, row), LldEntry::Nothing));
    let lone = vec![Some("x".to_string())];
    let short = LldMatches { symbol: Some(&lone), ..symbol };
    assert!(matches!(classify_lld_line(&short, row), LldEntry::Nothing));
}

#[test]
fn lld_lines_are_read_by_their_shape() {
    assert!(matches!(read_lld_line("80000000 1000 28 16 .text"), LldEntry::Segment { .. }));
    assert!(matches!(read_lld_line("80000000 1000 28 16         . += 0x8"), LldEntry::Fill { .. }));
    assert!(matches!(read_lld_line("80000000 1000 28 16         . = ALIGN(8)"), LldEntry::Nothing));
    match read_lld_line("80000000 1000 28 16         lib/libc.a(x.o):(.text.f)") {
        LldEntry::Section { filepath, section_type, row } => {
            assert_eq!(filepath, "lib/libc.a(x.o)");
            assert_eq!(section_type, ".text.f");
            assert_eq!((row.vram, row.vrom, row.size, row.align), (0x80000000, 0x1000, 0x28, 0x16));
        }
        other => panic!("{:?}", other),
    }
    assert!(matches!(read_lld_line("80000000 1000 0 16         a.o:(.text)"), LldEntry::Nothing));
    assert!(matches!(read_lld_line("80000000 1000 4 1                 .L80000010"), LldEntry::Nothing));
    assert!(matches!(read_lld_line("80000000 1000 4 1                 gcc2_compiled."), LldEntry::Nothing));
    match read_lld_line("80000000 1000 4 1                 main") {
        LldEntry::Symbol { name, .. } => assert_eq!(name, "main"),
        other => panic!("{:?}", other),
    }
}

#[test]
fn lld_columns_are_taken_off_the_line() {
    let columns = captured(&["  10 20 30 4 ", "10", "20", "30", "4"]);
    let (rest, row) = split_lld_line("  10 20 30 4   name", Some(&columns)).unwrap();
    assert_eq!(rest, "  name");
    assert_eq!((row.vram, row.vrom, row.size, row.align), (0x10, 0x20, 0x30, 4));
    assert!(split_lld_line("  10 20 30 4   name", None).is_none());
    let bad = captured(&["  10 20 30 4 ", "10", "2g", "30", "4"]);
    assert!(split_lld_line("  10 20 30 4   name", Some(&bad)).is_none());
    let long = captured(&["  10 20 30 4 ", "10", "20", "30", "4"]);
    assert!(split_lld_line("short", Some(&long)).is_none());
    let few = captured(&["  10 20 30 4 ", "10", "20", "30"]);
    assert!(split_lld_line("  10 20 30 4   name", Some(&few)).is_none());
}

#[test]
fn lld_post_process_keeps_the_sizes_that_the_map_gave() {
    let mut section = Section::new("a.o".to_string(), 0x100, 0x30, ".text", Some(0x10), Some(4));
    section.symbols.push(Symbol::new("a".to_string(), 0x100, 4, Some(0x10), None));
    section.symbols.push(Symbol::new("b".to_string(), 0x110, 0, Some(0x20), None));
    section.symbols.push(Symbol::new("c".to_string(), 0x120, 0, Some(0x30), None));
    let mut segment = Segment::new(".text".to_string(), 0x100, 0x30, Some(0x10), Some(4));
    segment.sections_list.push(Section::new_placeholder());
    segment.sections_list.push(section);
    let empty = Segment::new(".empty".to_string(), 0x200, 0, Some(0x40), Some(1));
    let done = post_process_segments_lld(vec![Segment::new_placeholder(), segment, empty]);
    assert_eq!(done.len(), 1);
    assert_eq!(done[0].sections_list.len(), 1);
    let sizes: Vec<u64> = done[0].sections_list[0].symbols.iter().map(|sym| sym.size).collect();
    assert_eq!(sizes, vec![4, 0x10, 0x10]);
    assert_eq!(done[0].sections_list[0].vrom, Some(0x10));
}

#[test]
fn lld_sizes_leave_room_for_the_leading_gap() {
    let mut section = Section::new("a.o".to_string(), 0x100, 0x20, ".text", Some(0x10), Some(4));
    section.symbols.push(Symbol::new("late".to_string(), 0x104, 0, Some(0x14), None));
    let mut segment = Segment::new(".text".to_string(), 0x100, 0x20, Some(0x10), Some(4));
    segment.sections_list.push(section);
    let done = post_process_segments_lld(vec![segment]);
    assert_eq!(done[0].sections_list[0].symbols[0].size, 0x1C);
    let mut section = Section::new("b.o".to_string(), 0x200, 0x40, ".text", Some(0x10), Some(4));
    section.symbols.push(Symbol::new("x".to_string(), 0x208, 0, Some(0x18), None));
    section.symbols.push(Symbol::new("y".to_string(), 0x210, 0, Some(0x20), None));
    section.symbols.push(Symbol::new("y.NON_MATCHING".to_string(), 0x210, 0, Some(0x20), None));
    let mut segment = Segment::new(".text".to_string(), 0x200, 0x40, Some(0x10), Some(4));
    segment.sections_list.push(section);
    let done = post_process_segments_lld(vec![segment]);
    let own = &done[0].sections_list[0];
    let sizes: Vec<u64> = own.symbols.iter().map(|sym| sym.size).collect();
    assert_eq!(sizes, vec![8, 0x30, 0]);
    assert_eq!(sizes.iter().sum::<u64>() + (own.symbols[0].vram - own.vram), own.size);
    let text = "VMA LMA Size Align Out In Symbol\n\
                80000000 1000 20 4 .text\n\
                80000000 1000 20 4         a.o:(.text)\n\
                80000004 1004 0 4                 late\n";
    let map = MapFile::new_from_lld_map_str(text);
    assert_eq!(map.segments_list[0].sections_list[0].symbols[0].size, 0x1C);
}
