use mapfile_parser::format::{to_decimal, to_hex};
use mapfile_parser::paths::{fill_path, skip_parts, strip_extensions};
use mapfile_parser::mix::{folder_parts_of, folder_path_of};
use mapfile_parser::pattern::{group, is_match};
use mapfile_parser::progress::{alias_name, folder_among, folder_name};
use mapfile_parser::PathDecompSettings;
use mapfile_parser::text::{
    chars_of, contains, ends_with, find_from, lines_of, matches_at, piece_of, rfind_char,
    same_text, starts_with,
};
use mapfile_parser::utils::{is_noload_section, parse_hex, try_parse_hex};
use mapfile_parser::{FoundSymbolInfo, MapFile, Section, Segment, Symbol};

#[test]
fn hexadecimal_numbers_are_read() {
    assert_eq!(parse_hex("0x80001000"), 0x80001000);
    assert_eq!(parse_hex("1F"), 0x1F);
    assert_eq!(parse_hex("ff"), 0xFF);
    assert_eq!(parse_hex("0"), 0);
    assert_eq!(parse_hex("0x0x10"), 0x10);
    assert_eq!(parse_hex("+10"), 0x10);
    assert_eq!(parse_hex("0xFFFFFFFFFFFFFFFF"), u64::MAX);
    assert_eq!(parse_hex("0x0000000000000000000000001"), 1);
    assert_eq!(try_parse_hex("0xAbCdEf"), Some(0xABCDEF));
    assert_eq!(try_parse_hex(""), None);
    assert_eq!(try_parse_hex("0x"), None);
    assert_eq!(try_parse_hex("+"), None);
    assert_eq!(try_parse_hex("-1"), None);
    assert_eq!(try_parse_hex("12g"), None);
    assert_eq!(try_parse_hex(" 12"), None);
    assert_eq!(try_parse_hex("1_0"), None);
    assert_eq!(try_parse_hex("0X10"), None);
    assert_eq!(try_parse_hex("10000000000000000"), None);
    assert_eq!(try_parse_hex("é"), None);
    for text in ["0", "7f", "0x123", "+9", "zz", "", "FFFFFFFFFFFFFFFF", "1FFFFFFFFFFFFFFFF"] {
        let expected = u64::from_str_radix(text.trim_start_matches("0x"), 16).ok();
        assert_eq!(try_parse_hex(text), expected, "{}", text);
    }
}

#[test]
fn noload_section_types_are_known() {
    assert!(is_noload_section(".bss"));
    assert!(is_noload_section(".sbss"));
    assert!(is_noload_section("COMMON"));
    assert!(is_noload_section(".scommon"));
    assert!(!is_noload_section(".data"));
    assert!(!is_noload_section(".bss2"));
    assert!(!is_noload_section("common"));
    assert!(!is_noload_section(""));
    assert!(Section::new("a.o".to_string(), 0, 0, "COMMON", None, None).is_noload_section());
}

#[test]
fn characters_are_searched() {
    assert_eq!(chars_of("aé中"), vec!['a', 'é', '中']);
    assert!(starts_with("hello", "he"));
    assert!(starts_with("hello", ""));
    assert!(!starts_with("he", "hello"));
    assert!(ends_with("hello", "llo"));
    assert!(!ends_with("hello", "hell"));
    assert!(ends_with("f.NON_MATCHING", ".NON_MATCHING"));
    assert!(contains("a section layout", " section layout"));
    assert!(!contains("sectionlayout", " section layout"));
    assert!(same_text("abc", "abc"));
    assert!(!same_text("abc", "abd"));
    assert!(!same_text("abc", "ab"));
    let hay = chars_of("abcabc");
    assert_eq!(find_from(&hay, &chars_of("bc"), 0), Some(1));
    assert_eq!(find_from(&hay, &chars_of("bc"), 2), Some(4));
    assert_eq!(find_from(&hay, &chars_of("bc"), 5), None);
    assert_eq!(find_from(&hay, &chars_of(""), 6), Some(6));
    assert_eq!(find_from(&hay, &chars_of("x"), 0), None);
    assert!(matches_at(&hay, &chars_of("cab"), 2));
    assert!(!matches_at(&hay, &chars_of("cab"), 5));
    assert_eq!(rfind_char(&hay, 6, 'a'), Some(3));
    assert_eq!(rfind_char(&hay, 3, 'a'), Some(0));
    assert_eq!(rfind_char(&hay, 0, 'a'), None);
}

#[test]
fn patterns_are_matched_by_the_regex_crate() {
    assert!(is_match(r"^\s+x$", "   x"));
    assert!(!is_match(r"^\s+x$", "x"));
    assert!(is_match(r"b+", "aabbcc"));
    assert!(!is_match(r"(unclosed", "(unclosed"));
    let groups = vec![Some("whole".to_string()), None, Some("last".to_string())];
    assert_eq!(group(&groups, 0), Some(&"whole".to_string()));
    assert_eq!(group(&groups, 1), None);
    assert_eq!(group(&groups, 2), Some(&"last".to_string()));
    assert_eq!(group(&groups, 3), None);
}

#[test]
fn text_is_split_as_the_standard_library_splits_it() {
    let texts = [
        "",
        "one",
        "one\n",
        "one\ntwo",
        "one\r\ntwo\r\n",
        "\n",
        "\n\n",
        "\r\n",
        "\r",
        "a\rb\n",
        "a\r\r\nb\r",
        "foo\r\nbar\n\nbaz\r",
        "tab\tand space \n  indented\n",
        "é中\nñ\r\n",
    ];
    for text in texts {
        let expected: Vec<String> = text.lines().map(|line| line.to_string()).collect();
        assert_eq!(lines_of(text), expected, "{:?}", text);
    }
    assert_eq!(lines_of("a\n\nb"), vec!["a".to_string(), String::new(), "b".to_string()]);
    assert_eq!(piece_of("plain text", true, 2, 7), "ain t");
    assert_eq!(piece_of("é中ñ and more", false, 1, 5), "中ñ a");
    assert_eq!(piece_of("abc", true, 3, 3), "");
}

#[test]
fn lines_end_at_line_feeds() {
    let text = ".text 0x10 0x20 load address 0x30\r\n\n .text 0x10 0x20 a.o\n        0x10 f\r";
    let map = MapFile::new_from_gnu_map_str(text);
    assert_eq!(map.segments_list.len(), 1);
    assert_eq!(map.segments_list[0].vrom, Some(0x30));
    assert_eq!(map.segments_list[0].sections_list[0].filepath, "a.o");
    assert!(map.segments_list[0].sections_list[0].symbols.is_empty());
    let text = ".text 0x10 0x20 load address 0x30\n .text 0x10 0x20 a.o\n        0x10 f";
    let map = MapFile::new_from_gnu_map_str(text);
    assert_eq!(map.segments_list[0].sections_list[0].symbols[0].name, "f");
}

#[test]
fn paths_are_taken_apart_by_the_standard_library() {
    assert_eq!(fill_path("build/src/a.o"), "build/src/a.o__fill__");
    assert_eq!(fill_path("a.o"), "a.o__fill__");
    assert_eq!(fill_path("dir/"), "dir__fill__");
    assert_eq!(fill_path(""), "__fill__");
    assert_eq!(fill_path("lib/libc.a(x.o)"), "lib/libc.a(x.o)__fill__");
    assert_eq!(strip_extensions("a/b.c.o"), "a/b");
    assert_eq!(strip_extensions("a.dir/b"), "a.dir/b");
    assert_eq!(strip_extensions(".hidden"), ".hidden");
    assert_eq!(strip_extensions(""), "");
    let parts = vec!["a".to_string(), "b".to_string(), "c".to_string()];
    assert_eq!(skip_parts(&parts, 1), vec!["b".to_string(), "c".to_string()]);
    assert_eq!(skip_parts(&parts, 3), Vec::<String>::new());
    assert_eq!(skip_parts(&parts, 4), Vec::<String>::new());
    assert_eq!(folder_path_of("build/src/code/sub/a.o"), "code/sub");
    assert_eq!(folder_path_of("build/src/a.o"), "");
    assert_eq!(folder_path_of("a.o"), "");
    assert_eq!(folder_path_of("build//src/./code/a.o"), "code");
    let parts: Vec<String> = ["a", "b", "c", "d", "e.o"].iter().map(|part| part.to_string()).collect();
    assert_eq!(folder_parts_of(&parts), vec!["c".to_string(), "d".to_string()]);
    assert_eq!(folder_parts_of(&parts[..3].to_vec()), Vec::<String>::new());
    assert_eq!(folder_parts_of(&parts[..2].to_vec()), Vec::<String>::new());
    assert_eq!(folder_among(&parts, None), "e.o");
    assert_eq!(folder_among(&Vec::new(), None), "");
    let mut settings = PathDecompSettings {
        asm_path: "asm".to_string(),
        path_index: 2,
        nonmatchings: None,
        existing_files: Vec::new(),
    };
    assert_eq!(folder_among(&parts, Some(&settings)), "c");
    settings.path_index = 9;
    assert_eq!(folder_among(&parts, Some(&settings)), "e.o");
    assert_eq!(folder_among(&Vec::new(), Some(&settings)), "");
    assert_eq!(folder_name("build/src/code/a.o", None), "a.o");
    assert_eq!(folder_name("", None), "");
    let aliases = vec![("a.o".to_string(), "alias".to_string())];
    assert_eq!(alias_name(&aliases, "a.o".to_string()), "alias");
    assert_eq!(alias_name(&aliases, "b.o".to_string()), "b.o");
}

#[test]
fn numbers_are_written() {
    assert_eq!(to_decimal(0), "0");
    assert_eq!(to_decimal(1234567890), "1234567890");
    assert_eq!(to_decimal(u64::MAX), "18446744073709551615");
    assert_eq!(to_hex(0, 0), "0");
    assert_eq!(to_hex(0, 4), "0000");
    assert_eq!(to_hex(0xABC, 8), "00000ABC");
    assert_eq!(to_hex(0x123456789, 8), "123456789");
    assert_eq!(to_hex(u64::MAX, 1), "FFFFFFFFFFFFFFFF");
    for value in [0u64, 9, 10, 15, 16, 255, 4096, 0x8000_0000, u64::MAX] {
        assert_eq!(to_decimal(value), format!("{}", value));
        assert_eq!(to_hex(value, 8), format!("{:08X}", value));
        assert_eq!(to_hex(value, 6), format!("{:06X}", value));
        assert_eq!(to_hex(value, 0), format!("{:X}", value));
    }
}

fn symbol() -> Symbol {
    Symbol::new("main".to_string(), 0x80001000, 0x40, Some(0x1000), Some(0x10))
}

#[test]
fn symbol_is_written_as_text() {
    let sym = symbol();
    assert_eq!(sym.get_vram_str(), "0x80001000");
    assert_eq!(sym.get_size_str(), "64");
    assert_eq!(sym.get_vrom_str(), "0x001000");
    assert_eq!(sym.get_align_str(), "0x10");
    assert_eq!(sym.to_csv(), "main,80001000,64");
    let bare = Symbol::new_default("x".to_string(), 0x10);
    assert_eq!(bare.get_vram_str(), "0x00000010");
    assert_eq!(bare.get_size_str(), "0");
    assert_eq!(bare.get_vrom_str(), "None");
    assert_eq!(bare.get_align_str(), "None");
    assert_eq!(Symbol::to_csv_header(), "Symbol name,VRAM,Size in bytes");
    assert!(!bare.nonmatching_sym_exists);
    assert_eq!(sym.clone().to_csv(), sym.to_csv());
}

#[test]
fn found_symbol_is_written_as_text() {
    let section = Section::new("build/a.o".to_string(), 0x80001000, 0x40, ".text", None, None);
    let sym = symbol();
    let at_start = FoundSymbolInfo::new_default(&section, &sym);
    assert_eq!(
        at_start.get_as_str(),
        "'main' (VRAM: 0x80001000, VROM: 0x001000, SIZE: 64, build/a.o)"
    );
    assert_eq!(
        at_start.get_as_str_plus_offset(Some("ignored".to_string())),
        "Symbol 'main' (VRAM: 0x80001000, VROM: 0x001000, SIZE: 64, build/a.o)"
    );
    let inside = FoundSymbolInfo::new(&section, &sym, 0x1C);
    assert_eq!(
        inside.get_as_str_plus_offset(None),
        "0x8000101C is at 0x1C bytes inside 'main' (VRAM: 0x80001000, VROM: 0x001000, SIZE: 64, build/a.o)"
    );
    assert_eq!(
        inside.get_as_str_plus_offset(Some("label".to_string())),
        "label is at 0x1C bytes inside 'main' (VRAM: 0x80001000, VROM: 0x001000, SIZE: 64, build/a.o)"
    );
    let before = FoundSymbolInfo::new(&section, &sym, -4);
    assert!(before
        .get_as_str_plus_offset(None)
        .starts_with("0x80000FFC is at 0xFFFFFFFFFFFFFFFC bytes inside "));
}

fn csv_map() -> MapFile {
    let mut first = Section::new("build/a.o".to_string(), 0x80001000, 0x50, ".text", None, None);
    first.symbols.push(symbol());
    first.symbols.push(Symbol::new_default("tail".to_string(), 0x80001040));
    let empty = Section::new("build/empty.o".to_string(), 0x80001050, 0x10, ".text", None, None);
    let mut second = Section::new("build/b.o".to_string(), 0x90000000, 0x8, ".data", None, None);
    second.symbols.push(Symbol::new("table".to_string(), 0x90000000, 8, None, None));
    let mut one = Segment::new("one".to_string(), 0, 0, None, None);
    one.sections_list.push(first);
    one.sections_list.push(empty);
    let mut two = Segment::new("two".to_string(), 0, 0, None, None);
    two.sections_list.push(second);
    let mut map = MapFile::new();
    map.segments_list.push(one);
    map.segments_list.push(two);
    map
}

#[test]
fn symbols_are_listed_as_comma_separated_values() {
    let map = csv_map();
    assert_eq!(
        map.to_csv_symbols(),
        "Section,Symbol name,VRAM,Size in bytes\n\
         build/a.o,main,80001000,64\n\
         build/a.o,tail,80001040,0\n\
         build/b.o,table,90000000,8\n"
    );
    assert_eq!(map.segments_list[1].to_csv_symbols(), "build/b.o,table,90000000,8\n");
    assert_eq!(MapFile::new().to_csv_symbols(), "Section,Symbol name,VRAM,Size in bytes\n");
}

#[test]
fn symbol_table_reads_back_field_by_field() {
    let map = csv_map();
    let table = map.to_csv_symbols();
    let mut rows = table.lines();
    assert_eq!(rows.next(), Some("Section,Symbol name,VRAM,Size in bytes"));
    let mut expected = Vec::new();
    for segment in &map.segments_list {
        for section in &segment.sections_list {
            for sym in &section.symbols {
                expected.push((section.filepath.clone(), sym.name.clone(), sym.vram, sym.size));
            }
        }
    }
    let read: Vec<(String, String, u64, u64)> = rows
        .map(|row| {
            let fields: Vec<&str> = row.split(',').collect();
            assert_eq!(fields.len(), 4);
            (
                fields[0].to_string(),
                fields[1].to_string(),
                parse_hex(fields[2]),
                fields[3].parse::<u64>().unwrap(),
            )
        })
        .collect();
    assert_eq!(read, expected);
}

#[test]
fn section_rows_hold_the_counts() {
    let map = csv_map();
    let section = &map.segments_list[0].sections_list[0];
    assert_eq!(section.max_symbol_size(), 0x40);
    assert_eq!(section.to_csv_columns(true), "80001000,build/a.o,.text,2,64,80,");
    assert_eq!(section.to_csv_columns(false), "build/a.o,.text,2,64,80,");
    let empty = &map.segments_list[0].sections_list[1];
    assert_eq!(empty.max_symbol_size(), 0);
    assert_eq!(empty.to_csv_columns(false), "build/empty.o,.text,0,0,16,");
    assert_eq!(
        Section::to_csv_header(true),
        "VRAM,File,Section type,Num symbols,Max size,Total size,Average size"
    );
    assert_eq!(
        Section::to_csv_header(false),
        "File,Section type,Num symbols,Max size,Total size,Average size"
    );
}
