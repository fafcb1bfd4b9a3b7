use crab_dl::allocator::{allocate_index, format_index, strip_directory, strip_extension};

fn texts(items: &[&str]) -> Vec<String> {
    items.iter().map(|s| s.to_string()).collect()
}

#[test]
fn next_index_ignores_extensions() {
    let entries = texts(&["download_01.zip", "download_02.tar.gz"]);
    assert_eq!(allocate_index("", &entries), 3);
}

#[test]
fn next_index_under_a_directory() {
    let entries = texts(&["out/download_01.zip", "out/download_02.tar.gz"]);
    assert_eq!(allocate_index("out/", &entries), 3);
}

#[test]
fn empty_listing_starts_at_one() {
    let entries: Vec<String> = Vec::new();
    assert_eq!(allocate_index("out/", &entries), 1);
}

#[test]
fn first_gap_is_taken() {
    let entries = texts(&["d/download_01.bin", "d/download_03.bin", "d/download_04.bin"]);
    assert_eq!(allocate_index("d/", &entries), 2);
}

#[test]
fn listing_order_does_not_matter() {
    let entries = texts(&["d/download_03.a", "d/download_01.b", "d/download_02.c"]);
    assert_eq!(allocate_index("d/", &entries), 4);
}

#[test]
fn other_files_are_ignored() {
    let entries = texts(&["d/notes.txt", "d/download_1.zip", "d/Download_01.zip", "d/download_02"]);
    assert_eq!(allocate_index("d/", &entries), 1);
}

#[test]
fn same_base_twice_counts_once() {
    let entries = texts(&["d/download_01.zip", "d/download_01.txt", "d/download_01"]);
    assert_eq!(allocate_index("d/", &entries), 2);
}

#[test]
fn entry_without_extension_is_in_use() {
    let entries = texts(&["d/download_01"]);
    assert_eq!(allocate_index("d/", &entries), 2);
}

#[test]
fn directory_without_separator_hides_the_entries() {
    let entries = texts(&["d/download_01.zip"]);
    assert_eq!(allocate_index("d", &entries), 1);
}

#[test]
fn directory_is_measured_in_characters() {
    let entries = texts(&["\u{e9}t\u{e9}/download_01.zip"]);
    assert_eq!(allocate_index("\u{e9}t\u{e9}/", &entries), 2);
}

#[test]
fn indices_past_ninety_nine() {
    let mut entries: Vec<String> = Vec::new();
    for i in 1..=120u32 {
        entries.push(format!("d/download_{:02}.bin", i));
    }
    assert_eq!(allocate_index("d/", &entries), 121);
}

#[test]
fn index_names_are_zero_padded_to_two_digits() {
    assert_eq!(format_index(1), "download_01");
    assert_eq!(format_index(9), "download_09");
    assert_eq!(format_index(10), "download_10");
    assert_eq!(format_index(42), "download_42");
    assert_eq!(format_index(99), "download_99");
    assert_eq!(format_index(100), "download_100");
    assert_eq!(format_index(12345), "download_12345");
}

#[test]
fn index_name_of_zero() {
    assert_eq!(format_index(0), "download_00");
}

#[test]
fn index_names_agree_with_std_formatting() {
    for i in 0..300u128 {
        assert_eq!(format_index(i), format!("download_{:02}", i));
    }
}

#[test]
fn base_identifier_stops_at_first_dot() {
    assert_eq!(strip_extension("download_02.tar.gz"), "download_02");
    assert_eq!(strip_extension("download_02"), "download_02");
    assert_eq!(strip_extension(".hidden"), "");
    assert_eq!(strip_extension(""), "");
    assert_eq!(strip_extension("a."), "a");
}

#[test]
fn entry_name_drops_the_directory() {
    assert_eq!(strip_directory("out/", "out/download_01.zip"), "download_01.zip");
    assert_eq!(strip_directory("", "download_01.zip"), "download_01.zip");
    assert_eq!(strip_directory("out/", "out/"), "");
    assert_eq!(strip_directory("a/long/directory/", "short"), "");
    assert_eq!(strip_directory("./", "./a.b/c"), "a.b/c");
}
