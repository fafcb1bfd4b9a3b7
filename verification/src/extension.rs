//! Extension resolver: the file extension that a URL's last path segment
//! carries.

use crate::text::{
    find_first, find_last, find_last_pattern, is_last_occurrence, last_occurrence,
    lemma_last_occurrence_is, to_chars,
};
use vstd::prelude::*;
use vstd::string::*;

verus! {

/// The extension given to a download whose URL shows none: `.bin`.
pub open spec fn fallback_extension() -> Seq<char> {
    seq!['.', 'b', 'i', 'n']
}

/// The mark of a compound archive extension inside a segment: `.tar.`.
pub open spec fn tar_mark() -> Seq<char> {
    seq!['.', 't', 'a', 'r', '.']
}

/// `url` without its query: what stands before the first `?`.
pub open spec fn without_query(url: Seq<char>) -> Seq<char> {
    match url.index_of_first('?') {
        Some(mark) => url.take(mark),
        None => url,
    }
}

/// What follows the last `/` of `path`; all of `path` where it has none.
pub open spec fn last_segment(path: Seq<char>) -> Seq<char> {
    match path.index_of_last('/') {
        Some(slash) => path.skip(slash + 1),
        None => path,
    }
}

/// The extension of a single path segment. Where the segment holds `.tar.`,
/// it is the compound form: the segment from that mark on, and from the last
/// such mark where there are several. Otherwise it is the segment from its
/// last `.` on, and the fallback where the segment has no `.`.
pub open spec fn segment_extension(segment: Seq<char>) -> Seq<char> {
    match last_occurrence(tar_mark(), segment) {
        Some(mark) => segment.skip(mark),
        None => match segment.index_of_last('.') {
            Some(dot) => segment.skip(dot),
            None => fallback_extension(),
        },
    }
}

/// The extension resolved for `url`: that of the last path segment of the
/// URL without its query.
pub open spec fn extension_of(url: Seq<char>) -> Seq<char> {
    segment_extension(last_segment(without_query(url)))
}

/// A resolved extension starts with the separator `.` and so is never empty.
pub proof fn lemma_extension_starts_with_dot(url: Seq<char>)
    ensures
        extension_of(url).len() >= 1,
        extension_of(url)[0] == '.',
{
    let segment = last_segment(without_query(url));
    match last_occurrence(tar_mark(), segment) {
        Some(mark) => {
            assert(is_last_occurrence(tar_mark(), segment, mark));
            assert(segment.subrange(mark, mark + 5)[0] == '.');
        },
        None => {
            segment.index_of_last_ensures('.');
        },
    }
}

/// Where the last segment of a URL holds `.tar.`, last at `mark`, the
/// extension is the segment from `mark` on.
pub proof fn lemma_compound_extension(url: Seq<char>, mark: int)
    requires
        is_last_occurrence(tar_mark(), last_segment(without_query(url)), mark),
    ensures
        extension_of(url) == last_segment(without_query(url)).skip(mark),
{
    lemma_last_occurrence_is(tar_mark(), last_segment(without_query(url)), mark);
}

/// Resolving is a function of the URL's characters alone: two URLs that read
/// the same resolve to the same extension, however often they are resolved.
pub proof fn lemma_extension_is_stable(first: Seq<char>, second: Seq<char>)
    requires
        first == second,
    ensures
        extension_of(first) == extension_of(second),
{
}

/// Resolves the file extension for `url`, leading `.` included.
pub fn get_extension(url: &str) -> (extension: String)
    ensures
        extension@ == extension_of(url@),
{
    let chars = to_chars(url);
    let len = chars.len();
    assert(chars@.subrange(0, len as int) =~= url@);
    let end = match find_first(&chars, 0, len, '?') {
        Some(mark) => mark,
        None => len,
    };
    let ghost path = without_query(url@);
    assert(path =~= chars@.subrange(0, end as int));
    let start = match find_last(&chars, 0, end, '/') {
        Some(slash) => slash + 1,
        None => 0,
    };
    let ghost segment = last_segment(path);
    assert(segment =~= chars@.subrange(start as int, end as int));
    let mark = tar_mark_chars();
    match find_last_pattern(&chars, start, end, &mark) {
        Some(at) => {
            let tail = url.substring_char(at, end);
            assert(tail@ =~= segment.skip(at - start));
            String::from_str(tail)
        },
        None => match find_last(&chars, start, end, '.') {
            Some(dot) => {
                let tail = url.substring_char(dot, end);
                assert(tail@ =~= segment.skip(dot - start));
                String::from_str(tail)
            },
            None => {
                proof {
                    reveal_strlit(".bin");
                }
                let extension = String::from_str(".bin");
                assert(extension@ =~= fallback_extension());
                extension
            },
        },
    }
}

/// The characters of the compound-extension mark.
fn tar_mark_chars() -> (mark: Vec<char>)
    ensures
        mark@ == tar_mark(),
{
    let mut mark: Vec<char> = Vec::new();
    mark.push('.');
    mark.push('t');
    mark.push('a');
    mark.push('r');
    mark.push('.');
    assert(mark@ =~= tar_mark());
    mark
}

} // verus!
