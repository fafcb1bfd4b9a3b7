use crab_dl::extension::get_extension;

#[test]
fn compound_extension_with_query() {
    assert_eq!(get_extension("https://example.com/file.tar.gz?x=1"), ".tar.gz");
}

#[test]
fn no_extension_falls_back_to_bin() {
    assert_eq!(get_extension("https://example.com/archive"), ".bin");
}

#[test]
fn simple_extension() {
    assert_eq!(get_extension("https://example.com/image.png"), ".png");
}

#[test]
fn compound_extension_bz2() {
    assert_eq!(get_extension("https://example.com/backup.tar.bz2"), ".tar.bz2");
}

#[test]
fn query_is_cut_at_first_question_mark() {
    assert_eq!(get_extension("https://example.com/a.zip?v=1.2&w=x.y?z.q"), ".zip");
}

#[test]
fn dots_in_query_do_not_count() {
    assert_eq!(get_extension("https://example.com/archive?file=a.zip"), ".bin");
}

#[test]
fn slash_in_query_does_not_count() {
    assert_eq!(get_extension("https://example.com/a.iso?next=/b/c.txt"), ".iso");
}

#[test]
fn dots_in_earlier_segments_do_not_count() {
    assert_eq!(get_extension("https://example.com/v1.2/file"), ".bin");
}

#[test]
fn trailing_slash_gives_fallback() {
    assert_eq!(get_extension("https://example.com/files/"), ".bin");
}

#[test]
fn host_alone_is_the_last_segment() {
    assert_eq!(get_extension("https://example.com"), ".com");
}

#[test]
fn empty_url_gives_fallback() {
    assert_eq!(get_extension(""), ".bin");
}

#[test]
fn url_that_starts_with_query_gives_fallback() {
    assert_eq!(get_extension("?a=b.c"), ".bin");
}

#[test]
fn last_dot_wins_without_tar() {
    assert_eq!(get_extension("https://example.com/a.b.c"), ".c");
}

#[test]
fn segment_that_ends_with_dot() {
    assert_eq!(get_extension("https://example.com/file."), ".");
}

#[test]
fn compound_extension_spans_from_the_tar_part_on() {
    assert_eq!(get_extension("https://example.com/a.tar.gz.sig"), ".tar.gz.sig");
    assert_eq!(get_extension("https://example.com/a.tar.b.c"), ".tar.b.c");
}

#[test]
fn last_tar_mark_wins() {
    assert_eq!(get_extension("https://example.com/a.tar.b.tar.gz"), ".tar.gz");
    assert_eq!(get_extension("https://example.com/a.tar.tar.xz"), ".tar.xz");
}

#[test]
fn tar_mark_at_the_start_of_the_segment() {
    assert_eq!(get_extension("https://example.com/.tar.gz?x"), ".tar.gz");
}

#[test]
fn tar_in_capitals_is_not_the_mark() {
    assert_eq!(get_extension("https://example.com/a.TAR.gz"), ".gz");
}

#[test]
fn tar_as_last_part_is_a_simple_extension() {
    assert_eq!(get_extension("https://example.com/a.tar"), ".tar");
}

#[test]
fn tar_mark_that_ends_the_segment() {
    assert_eq!(get_extension("https://example.com/a.tar."), ".tar.");
}

#[test]
fn tar_without_leading_dot_is_not_compound() {
    assert_eq!(get_extension("https://example.com/star.gz"), ".gz");
}

#[test]
fn tar_mark_in_earlier_segment_does_not_count() {
    assert_eq!(get_extension("https://example.com/x.tar.d/file.gz"), ".gz");
}

#[test]
fn non_ascii_characters_are_kept() {
    assert_eq!(get_extension("https://example.com/b\u{fc}cher/\u{fc}bung.t\u{e4}r?x"), ".t\u{e4}r");
}

#[test]
fn resolving_twice_gives_the_same_extension() {
    let url = "https://example.com/pkg/file.tar.xz?mirror=2";
    let first = get_extension(url);
    let second = get_extension(url);
    assert_eq!(first, second);
    assert_eq!(first, ".tar.xz");
}

#[test]
fn extension_always_starts_with_dot() {
    let urls = vec![
        "",
        "a",
        "a.b",
        "https://h/p/q.tar.gz",
        "https://h/p/q?x.y",
        "https://h/.hidden",
        "x/y/z.",
    ];
    for url in urls {
        assert!(get_extension(url).starts_with('.'));
    }
}
