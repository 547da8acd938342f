use mapfile_parser::gnu::{
    apply_gnu_entry, classify_gnu_line, post_process_segments_gnu, read_gnu_line, GnuEntry,
    GnuMatches,
};
use mapfile_parser::raw::new_list;
use mapfile_parser::{MapFile, Section, Segment, Symbol};

fn header() -> String {
    let mut text = String::new();
    text.push_str("Archive member included to satisfy reference by file (symbol)\n");
    text.push_str("\n");
    text.push_str(".ignored        0x0000000070000000       0x10 load address 0x0000000000000100\n");
    text.push_str("\n");
    text.push_str("Linker script and memory map\n");
    text.push_str("\n");
    text
}

fn two_symbol_map(first_symbol_address: &str) -> String {
    let mut text = header();
    text.push_str(".text           0x0000000080000000       0x20 load address 0x0000000000001000\n");
    text.push_str(" .text          0x0000000080000000       0x20 foo.o\n");
    text.push_str("                ");
    text.push_str(first_symbol_address);
    text.push_str("                funcA\n");
    text.push_str("                0x0000000080000010                funcB\n");
    text
}

#[test]
fn gnu_two_symbols_in_one_section() {
    let map = MapFile::new_from_gnu_map_str(&two_symbol_map("0x0000000080000000"));
    assert_eq!(map.segments_list.len(), 1);
    let segment = &map.segments_list[0];
    assert_eq!(segment.name, ".text");
    assert_eq!(segment.vram, 0x80000000);
    assert_eq!(segment.size, 0x20);
    assert_eq!(segment.vrom, Some(0x1000));
    assert_eq!(segment.align, None);
    assert_eq!(segment.sections_list.len(), 1);
    let section = &segment.sections_list[0];
    assert_eq!(section.filepath, "foo.o");
    assert_eq!(section.section_type, ".text");
    assert_eq!(section.vram, 0x80000000);
    assert_eq!(section.size, 0x20);
    assert_eq!(section.vrom, Some(0x1000));
    assert!(!section.is_fill);
    assert_eq!(section.symbols.len(), 2);
    assert_eq!(section.symbols[0].name, "funcA");
    assert_eq!(section.symbols[0].vram, 0x80000000);
    assert_eq!(section.symbols[0].size, 0x10);
    assert_eq!(section.symbols[0].vrom, Some(0x1000));
    assert_eq!(section.symbols[1].name, "funcB");
    assert_eq!(section.symbols[1].vram, 0x80000010);
    assert_eq!(section.symbols[1].size, 0x10);
    assert_eq!(section.symbols[1].vrom, Some(0x1010));
}

#[test]
fn gnu_first_symbol_past_section_start() {
    let map = MapFile::new_from_gnu_map_str(&two_symbol_map("0x0000000080000004"));
    let section = &map.segments_list[0].sections_list[0];
    assert_eq!(section.symbols[0].size, 0x0C);
    assert_eq!(section.symbols[0].vrom, Some(0x1004));
    assert_eq!(section.symbols[1].size, 0x10);
    assert_eq!(section.symbols[1].vrom, Some(0x1010));
    let listed: u64 = section.symbols.iter().map(|sym| sym.size).sum();
    assert_eq!(listed + (section.symbols[0].vram - section.vram), 0x20);
}

#[test]
fn gnu_text_before_the_marker_is_left_out() {
    let map = MapFile::new_from_gnu_map_str(&two_symbol_map("0x0000000080000000"));
    assert!(map.segments_list.iter().all(|segment| segment.name != ".ignored"));
}

#[test]
fn gnu_line_after_the_marker_is_left_out_too() {
    let mut text = String::new();
    text.push_str("Memory Configuration\n");
    text.push_str("Linker script and memory map\n");
    text.push_str(".skipped        0x0000000070000000       0x10 load address 0x0000000000000100\n");
    text.push_str(".text           0x0000000080000000       0x20 load address 0x0000000000001000\n");
    let map = MapFile::new_from_gnu_map_str(&text);
    assert_eq!(map.segments_list.len(), 1);
    assert_eq!(map.segments_list[0].name, ".text");
    let unmarked = text.replace("Memory Configuration\n", "");
    assert_eq!(MapFile::new_from_gnu_map_str(&unmarked).segments_list.len(), 2);
    let cut = "x\nLinker script and memory map\n.text 0x80000000 0x20 load address 0x1000";
    assert!(MapFile::new_from_gnu_map_str(cut).segments_list.is_empty());
    let last = "x\nLinker script and memory map";
    assert!(MapFile::new_from_gnu_map_str(last).segments_list.is_empty());
}

#[test]
fn gnu_text_without_the_marker_is_read_whole() {
    let mut text = String::new();
    text.push_str(".data           0x0000000080001000       0x10 load address 0x0000000000002000\n");
    text.push_str(" .data          0x0000000080001000       0x10 build/bar.o\n");
    text.push_str("                0x0000000080001000                var\n");
    let map = MapFile::new_from_gnu_map_str(&text);
    assert_eq!(map.segments_list.len(), 1);
    assert_eq!(map.segments_list[0].sections_list[0].filepath, "build/bar.o");
    assert_eq!(map.segments_list[0].sections_list[0].symbols[0].size, 0x10);
}

#[test]
fn gnu_placeholder_is_paired_with_its_symbol() {
    let mut text = header();
    text.push_str(".text           0x0000000080000000       0x50 load address 0x0000000000001000\n");
    text.push_str(" .text          0x0000000080000000       0x50 foo.o\n");
    text.push_str("                0x0000000080000000                foo\n");
    text.push_str("                0x0000000080000000                foo.NON_MATCHING\n");
    text.push_str("                0x0000000080000040                bar\n");
    let map = MapFile::new_from_gnu_map_str(&text);
    let section = &map.segments_list[0].sections_list[0];
    assert_eq!(section.symbols.len(), 3);
    assert_eq!(section.symbols[0].name, "foo");
    assert_eq!(section.symbols[0].size, 0x40);
    assert!(section.symbols[0].nonmatching_sym_exists);
    assert_eq!(section.symbols[1].name, "foo.NON_MATCHING");
    assert_eq!(section.symbols[1].size, 0);
    assert!(!section.symbols[1].nonmatching_sym_exists);
    assert_eq!(section.symbols[2].size, 0x10);
    assert!(!section.symbols[2].nonmatching_sym_exists);
}

#[test]
fn gnu_fill_follows_the_section_before_it() {
    let mut text = two_symbol_map("0x0000000080000000");
    text.push_str(" *fill*         0x0000000080000020        0x8 \n");
    text.push_str(" .text          0x0000000080000028       0x10 build/src/bar.o\n");
    text.push_str("                0x0000000080000028                funcC\n");
    let map = MapFile::new_from_gnu_map_str(&text);
    let sections = &map.segments_list[0].sections_list;
    assert_eq!(sections.len(), 3);
    assert!(sections[1].is_fill);
    assert_eq!(sections[1].filepath, "foo.o__fill__");
    assert_eq!(sections[1].vram, 0x80000020);
    assert_eq!(sections[1].size, 0x8);
    assert_eq!(sections[1].section_type, ".text");
    assert_eq!(sections[1].vrom, None);
    assert!(sections[1].symbols.is_empty());
    assert_eq!(sections[2].vrom, Some(0x1020));
    assert_eq!(sections[2].symbols[0].vrom, Some(0x1020));
    assert_eq!(sections[2].symbols[0].size, 0x10);
}

#[test]
fn gnu_noload_section_has_no_image_offsets() {
    let mut text = header();
    text.push_str(".bss            0x0000000080002000       0x20\n");
    text.push_str(" .bss           0x0000000080002000       0x20 foo.o\n");
    text.push_str("                0x0000000080002000                buffer\n");
    text.push_str("                0x0000000080002010                counter\n");
    let map = MapFile::new_from_gnu_map_str(&text);
    assert_eq!(map.segments_list.len(), 1);
    let segment = &map.segments_list[0];
    assert_eq!(segment.vrom, Some(0));
    let section = &segment.sections_list[0];
    assert!(section.is_noload_section());
    assert_eq!(section.vrom, None);
    assert_eq!(section.symbols[0].vrom, None);
    assert_eq!(section.symbols[1].vrom, None);
    assert_eq!(section.symbols[0].size, 0x10);
    assert_eq!(section.symbols[1].size, 0x10);
}

#[test]
fn gnu_segment_without_load_address_continues_the_image() {
    let mut text = two_symbol_map("0x0000000080000000");
    text.push_str("\n");
    text.push_str(".rodata         0x0000000080000020       0x10\n");
    text.push_str(" .rodata        0x0000000080000020       0x10 foo.o\n");
    text.push_str("                0x0000000080000020                table\n");
    let map = MapFile::new_from_gnu_map_str(&text);
    assert_eq!(map.segments_list.len(), 2);
    assert_eq!(map.segments_list[1].name, ".rodata");
    assert_eq!(map.segments_list[1].vrom, Some(0x1020));
    assert_eq!(map.segments_list[1].sections_list[0].vrom, Some(0x1020));
    assert_eq!(map.segments_list[1].sections_list[0].symbols[0].vrom, Some(0x1020));
}

#[test]
fn gnu_labels_and_banned_names_are_no_symbols() {
    let mut text = header();
    text.push_str(".text           0x0000000080000000       0x30 load address 0x0000000000001000\n");
    text.push_str(" .text          0x0000000080000000       0x30 foo.o\n");
    text.push_str("                0x0000000080000000                gcc2_compiled.\n");
    text.push_str("                0x0000000080000000                funcA\n");
    text.push_str("                0x0000000080000008                .L80000008\n");
    text.push_str("                0x000000008000000c                L8000000C\n");
    text.push_str("                0x0000000080000010                funcB\n");
    let map = MapFile::new_from_gnu_map_str(&text);
    let symbols = &map.segments_list[0].sections_list[0].symbols;
    assert_eq!(symbols.len(), 2);
    assert_eq!(symbols[0].name, "funcA");
    assert_eq!(symbols[0].size, 0x10);
    assert_eq!(symbols[1].name, "funcB");
    assert_eq!(symbols[1].size, 0x20);
}

#[test]
fn gnu_names_broken_over_two_lines_are_joined() {
    let mut text = header();
    text.push_str(".a_segment_with_a_very_long_name\n");
    text.push_str("                0x0000000080000000       0x20 load address 0x0000000000001000\n");
    text.push_str(" .text.a_section_with_a_very_long_name\n");
    text.push_str("                0x0000000080000000       0x20 foo.o\n");
    text.push_str("                0x0000000080000000                funcA\n");
    let map = MapFile::new_from_gnu_map_str(&text);
    assert_eq!(map.segments_list.len(), 1);
    assert_eq!(map.segments_list[0].name, ".a_segment_with_a_very_long_name");
    assert_eq!(map.segments_list[0].sections_list.len(), 1);
    let section = &map.segments_list[0].sections_list[0];
    assert_eq!(section.section_type, ".text.a_section_with_a_very_long_name");
    assert_eq!(section.filepath, "foo.o");
    assert_eq!(section.symbols.len(), 1);
    assert_eq!(section.symbols[0].size, 0x20);
}

#[test]
fn gnu_sections_of_size_zero_and_empty_segments_are_dropped() {
    let mut text = header();
    text.push_str(".empty          0x0000000080000000        0x0 load address 0x0000000000001000\n");
    text.push_str(" .text          0x0000000080000000        0x0 foo.o\n");
    text.push_str(".text           0x0000000080000000       0x10 load address 0x0000000000001000\n");
    text.push_str(" .text          0x0000000080000000       0x10 bar.o\n");
    let map = MapFile::new_from_gnu_map_str(&text);
    assert_eq!(map.segments_list.len(), 1);
    assert_eq!(map.segments_list[0].name, ".text");
    assert_eq!(map.segments_list[0].sections_list.len(), 1);
    assert_eq!(map.segments_list[0].sections_list[0].filepath, "bar.o");
}

#[test]
fn gnu_line_with_a_bad_number_is_passed_over() {
    let mut text = header();
    text.push_str(".text           0x0000000080000000       0x20 load address 0x0000000000001000\n");
    text.push_str(" .text          0x0000000080000000       0x20 foo.o\n");
    text.push_str("                0x0000000080000000                funcA\n");
    text.push_str("                0xnot_a_number                    funcX\n");
    text.push_str("                0x0000000080000010                funcB\n");
    let map = MapFile::new_from_gnu_map_str(&text);
    let symbols = &map.segments_list[0].sections_list[0].symbols;
    assert_eq!(symbols.len(), 2);
    assert_eq!(symbols[1].name, "funcB");
}

#[test]
fn gnu_empty_text_gives_an_empty_model() {
    assert!(MapFile::new_from_gnu_map_str("").segments_list.is_empty());
    assert!(MapFile::new().segments_list.is_empty());
}

#[test]
fn gnu_parse_map_contents_replaces_the_model() {
    let mut map = MapFile::new();
    map.parse_map_contents_gnu(&two_symbol_map("0x0000000080000000"));
    assert_eq!(map.segments_list.len(), 1);
    map.parse_map_contents_gnu("");
    assert!(map.segments_list.is_empty());
}

#[test]
fn gnu_line_reader_tells_the_kinds_apart() {
    match read_gnu_line(false, "", " .text          0x0000000080000000       0x20 foo.o") {
        GnuEntry::Section { filepath, vram, size, section_type } => {
            assert_eq!(filepath, "foo.o");
            assert_eq!(vram, 0x80000000);
            assert_eq!(size, 0x20);
            assert_eq!(section_type, ".text");
        }
        other => panic!("{:?}", other),
    }
    match read_gnu_line(true, "", "                0x0000000080000010                funcB") {
        GnuEntry::Symbol { name, vram } => {
            assert_eq!(name, "funcB");
            assert_eq!(vram, 0x80000010);
        }
        other => panic!("{:?}", other),
    }
    match read_gnu_line(false, "", ".text 0x80000000 0x20 load address 0x1000") {
        GnuEntry::Segment { name, vram, size, vrom } => {
            assert_eq!(name, ".text");
            assert_eq!(vram, 0x80000000);
            assert_eq!(size, 0x20);
            assert_eq!(vrom, Some(0x1000));
        }
        other => panic!("{:?}", other),
    }
    match read_gnu_line(false, "", ".bss 0x80000000 0x20") {
        GnuEntry::Segment { vrom, .. } => assert_eq!(vrom, None),
        other => panic!("{:?}", other),
    }
    match read_gnu_line(false, "", " *fill*         0x0000000080000020        0x8 ") {
        GnuEntry::Fill { size } => assert_eq!(size, 8),
        other => panic!("{:?}", other),
    }
    assert!(matches!(read_gnu_line(false, "", "OUTPUT(build/rom.elf elf32-tradbigmips)"), GnuEntry::Nothing));
    assert!(matches!(
        read_gnu_line(false, "", "                0x0000000080000010                funcB"),
        GnuEntry::Nothing
    ));
}

#[test]
fn gnu_entries_go_under_what_was_read_last() {
    let mut segments = new_list();
    apply_gnu_entry(
        &mut segments,
        GnuEntry::Symbol { name: "early".to_string(), vram: 4 },
    );
    assert_eq!(segments.len(), 1);
    assert_eq!(segments[0].sections_list[0].symbols.len(), 1);
    apply_gnu_entry(
        &mut segments,
        GnuEntry::Segment { name: ".text".to_string(), vram: 0x100, size: 0x20, vrom: None },
    );
    apply_gnu_entry(&mut segments, GnuEntry::Symbol { name: "lost".to_string(), vram: 0x100 });
    assert_eq!(segments.len(), 2);
    assert!(segments[1].sections_list.is_empty());
    apply_gnu_entry(&mut segments, GnuEntry::Fill { size: 8 });
    assert_eq!(segments[1].sections_list.len(), 1);
    assert!(segments[1].sections_list[0].is_fill);
    assert_eq!(segments[1].sections_list[0].filepath, "");
    assert_eq!(segments[1].sections_list[0].vram, 0);
    apply_gnu_entry(
        &mut segments,
        GnuEntry::Section {
            filepath: "a/b.o".to_string(),
            vram: 0x100,
            size: 0x20,
            section_type: ".text".to_string(),
        },
    );
    apply_gnu_entry(&mut segments, GnuEntry::Symbol { name: "kept".to_string(), vram: 0x100 });
    apply_gnu_entry(&mut segments, GnuEntry::Nothing);
    assert_eq!(segments[1].sections_list.len(), 2);
    assert_eq!(segments[1].sections_list[1].symbols[0].name, "kept");
    apply_gnu_entry(&mut segments, GnuEntry::Fill { size: 0x10 });
    assert_eq!(segments[1].sections_list[2].filepath, "a/b.o__fill__");
    assert_eq!(segments[1].sections_list[2].vram, 0x120);
    assert_eq!(segments[1].sections_list[2].section_type, ".text");
}

fn raw_section(vram: u64, size: u64, section_type: &str, addresses: &[u64]) -> Section {
    let mut section = Section::new("src/a.o".to_string(), vram, size, section_type, None, None);
    for (index, address) in addresses.iter().enumerate() {
        section.symbols.push(Symbol::new_default(format!("sym{}", index), *address));
    }
    section
}

#[test]
fn gnu_post_process_lays_sections_out_one_after_another() {
    let mut first = Segment::new_default(".main".to_string(), 0x1000, 0x60, Some(0x400));
    first.sections_list.push(Section::new_placeholder());
    first.sections_list.push(raw_section(0x1000, 0x20, ".text", &[0x1000, 0x1008]));
    first.sections_list.push(raw_section(0x1020, 0x20, ".bss", &[0x1020]));
    first.sections_list.push(raw_section(0x1040, 0x20, ".data", &[0x1044]));
    let second = {
        let mut segment = Segment::new_default(".next".to_string(), 0x2000, 0x10, None);
        segment.sections_list.push(raw_section(0x2000, 0x10, ".text", &[]));
        segment
    };
    let raw = vec![Segment::new_placeholder(), first, second];
    let done = post_process_segments_gnu(raw);
    assert_eq!(done.len(), 2);
    assert_eq!(done[0].vrom, Some(0x400));
    let sections = &done[0].sections_list;
    assert_eq!(sections.len(), 3);
    assert_eq!(sections[0].vrom, Some(0x400));
    assert_eq!(sections[0].symbols[0].size, 8);
    assert_eq!(sections[0].symbols[0].vrom, Some(0x400));
    assert_eq!(sections[0].symbols[1].size, 0x18);
    assert_eq!(sections[0].symbols[1].vrom, Some(0x408));
    assert_eq!(sections[1].vrom, None);
    assert_eq!(sections[1].symbols[0].vrom, None);
    assert_eq!(sections[1].symbols[0].size, 0x20);
    assert_eq!(sections[2].vrom, Some(0x420));
    assert_eq!(sections[2].symbols[0].vrom, Some(0x424));
    assert_eq!(sections[2].symbols[0].size, 0x1C);
    assert_eq!(done[1].vrom, Some(0x440));
    assert_eq!(done[1].sections_list[0].vrom, Some(0x440));
}

#[test]
fn gnu_post_process_keeps_addresses_in_order() {
    let mut segment = Segment::new_default(".main".to_string(), 0x1000, 0x40, Some(0));
    segment.sections_list.push(raw_section(0x1000, 0x40, ".text", &[0x1000, 0x1010, 0x1010, 0x1030]));
    let done = post_process_segments_gnu(vec![segment]);
    let symbols = &done[0].sections_list[0].symbols;
    assert!(symbols.windows(2).all(|pair| pair[0].vram <= pair[1].vram));
    let sizes: Vec<u64> = symbols.iter().map(|sym| sym.size).collect();
    assert_eq!(sizes, vec![0x10, 0, 0x20, 0x10]);
    assert!(symbols.iter().all(|sym| sym.vrom.is_some()));
}

#[test]
fn gnu_post_process_saturates_on_addresses_out_of_order() {
    let mut segment = Segment::new_default(".main".to_string(), 0x1000, 0x10, Some(0));
    segment.sections_list.push(raw_section(0x1000, 0x10, ".text", &[0x1008, 0x1000, 0x1020]));
    let done = post_process_segments_gnu(vec![segment]);
    let sizes: Vec<u64> = done[0].sections_list[0].symbols.iter().map(|sym| sym.size).collect();
    assert_eq!(sizes, vec![0, 0x20, 0]);
}

fn captured(parts: &[&str]) -> Vec<Option<String>> {
    parts.iter().map(|part| Some(part.to_string())).collect()
}

fn no_matches<'a>() -> GnuMatches<'a> {
    GnuMatches {
        label: false,
        function: None,
        section: None,
        section_before: None,
        segment: None,
        romless_segment: None,
        fill: None,
    }
}

#[test]
fn gnu_captures_decide_what_a_line_adds() {
    let function = captured(&["whole", "0x80000010", "funcB"]);
    let section = captured(&["whole", ".text", ".text", "0x80000000", "0x20", "foo.o"]);
    let unnamed = vec![
        Some("whole".to_string()),
        Some(String::new()),
        None,
        Some("0x80000000".to_string()),
        Some("0x20".to_string()),
        Some("foo.o".to_string()),
    ];
    let alone = captured(&[" .rodata.long", ".rodata.long"]);
    let segment = vec![
        Some("whole".to_string()),
        Some(String::new()),
        None,
        Some("0x80000000".to_string()),
        Some("0x20".to_string()),
        Some("load address".to_string()),
        Some("load address".to_string()),
        Some("0x1000".to_string()),
    ];
    let fill = captured(&["whole", "*fill*", "0x80000020", "0x8", ""]);
    let all = GnuMatches {
        label: false,
        function: Some(&function),
        section: Some(&section),
        section_before: Some(&alone),
        segment: Some(&segment),
        romless_segment: Some(&segment),
        fill: Some(&fill),
    };
    match classify_gnu_line(true, true, "before", &all) {
        GnuEntry::Symbol { name, vram } => assert_eq!((name.as_str(), vram), ("funcB", 0x80000010)),
        other => panic!("{:?}", other),
    }
    assert!(matches!(
        classify_gnu_line(true, true, "before", &GnuMatches { label: true, ..no_matches() }),
        GnuEntry::Nothing
    ));
    for (in_section, indented) in [(true, false), (false, true), (false, false)] {
        match classify_gnu_line(in_section, indented, "before", &all) {
            GnuEntry::Section { section_type, .. } => assert_eq!(section_type, ".text"),
            other => panic!("{:?}", other),
        }
    }
    let continued = GnuMatches { section: Some(&unnamed), ..no_matches() };
    assert!(matches!(classify_gnu_line(false, false, "", &continued), GnuEntry::Nothing));
    let continued = GnuMatches { section_before: Some(&alone), ..continued };
    match classify_gnu_line(false, false, "", &continued) {
        GnuEntry::Section { section_type, filepath, .. } => {
            assert_eq!(section_type, ".rodata.long");
            assert_eq!(filepath, "foo.o");
        }
        other => panic!("{:?}", other),
    }
    let with_rom = GnuMatches { segment: Some(&segment), romless_segment: Some(&segment), ..no_matches() };
    match classify_gnu_line(false, false, "long_name", &with_rom) {
        GnuEntry::Segment { name, vrom, .. } => {
            assert_eq!(name, "long_name");
            assert_eq!(vrom, Some(0x1000));
        }
        other => panic!("{:?}", other),
    }
    let without_rom = GnuMatches { romless_segment: Some(&segment), fill: Some(&fill), ..no_matches() };
    match classify_gnu_line(false, false, "long_name", &without_rom) {
        GnuEntry::Segment { vrom, .. } => assert_eq!(vrom, None),
        other => panic!("{:?}", other),
    }
    let padding = GnuMatches { fill: Some(&fill), ..no_matches() };
    assert!(matches!(classify_gnu_line(false, false, "", &padding), GnuEntry::Fill { size: 8 }));
    assert!(matches!(classify_gnu_line(false, false, "", &no_matches()), GnuEntry::Nothing));
    assert!(matches!(classify_gnu_line(true, true, "", &no_matches()), GnuEntry::Nothing));
}
