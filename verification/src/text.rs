//! Character-level helpers shared by the resolver, the allocator and the
//! message formatting.

use vstd::prelude::*;
use vstd::std_specs::iter::IteratorSpec;
use vstd::string::*;

verus! {

/// The decimal digit that stands for `d`; `d` is meant to be below ten.
pub open spec fn digit_char(d: nat) -> char {
    if d == 0 {
        '0'
    } else if d == 1 {
        '1'
    } else if d == 2 {
        '2'
    } else if d == 3 {
        '3'
    } else if d == 4 {
        '4'
    } else if d == 5 {
        '5'
    } else if d == 6 {
        '6'
    } else if d == 7 {
        '7'
    } else if d == 8 {
        '8'
    } else {
        '9'
    }
}

/// The decimal representation of `n`, most significant digit first, without
/// leading zeros (zero itself is the single digit `0`).
pub open spec fn decimal(n: nat) -> Seq<char>
    decreases n,
{
    if n < 10 {
        seq![digit_char(n)]
    } else {
        decimal(n / 10).push(digit_char(n % 10))
    }
}

/// Whether `c` is one of the ten decimal digits.
pub open spec fn is_digit(c: char) -> bool {
    exists|d: nat| d < 10 && c == #[trigger] digit_char(d)
}

/// The value of a decimal digit; zero for any other character.
pub open spec fn digit_value(c: char) -> nat {
    if c == '1' {
        1
    } else if c == '2' {
        2
    } else if c == '3' {
        3
    } else if c == '4' {
        4
    } else if c == '5' {
        5
    } else if c == '6' {
        6
    } else if c == '7' {
        7
    } else if c == '8' {
        8
    } else if c == '9' {
        9
    } else {
        0
    }
}

/// The number that a run of decimal digits denotes, leading zeros allowed.
pub open spec fn decimal_value(digits: Seq<char>) -> nat
    decreases digits.len(),
{
    if digits.len() == 0 {
        0
    } else {
        decimal_value(digits.drop_last()) * 10 + digit_value(digits.last())
    }
}

/// Reading back the decimal representation of a number gives the number.
pub proof fn lemma_decimal_value_of_decimal(n: nat)
    ensures
        decimal_value(decimal(n)) == n,
    decreases n,
{
    if n < 10 {
        let s = decimal(n);
        assert(s.drop_last() =~= Seq::<char>::empty());
        assert(decimal_value(s.drop_last()) == 0);
    } else {
        lemma_decimal_value_of_decimal(n / 10);
        let s = decimal(n);
        assert(s.drop_last() =~= decimal(n / 10));
        assert(s.last() == digit_char(n % 10));
    }
}

/// Every character of a decimal representation is a digit, and there is at
/// least one.
pub proof fn lemma_decimal_is_digits(n: nat)
    ensures
        decimal(n).len() >= 1,
        forall|i: int| 0 <= i < decimal(n).len() ==> is_digit(#[trigger] decimal(n)[i]),
    decreases n,
{
    if n < 10 {
        assert(is_digit(digit_char(n)));
    } else {
        lemma_decimal_is_digits(n / 10);
        assert(is_digit(digit_char(n % 10)));
    }
}

/// Whether `pattern` stands in `text` at position `at`.
pub open spec fn occurs_at(pattern: Seq<char>, text: Seq<char>, at: int) -> bool {
    &&& 0 <= at
    &&& at + pattern.len() <= text.len()
    &&& text.subrange(at, at + pattern.len()) == pattern
}

/// Whether `pattern` stands somewhere in `text` as a contiguous run.
pub open spec fn occurs_in(pattern: Seq<char>, text: Seq<char>) -> bool {
    exists|at: int| occurs_at(pattern, text, at)
}

/// Whether `pattern` stands in `text` at `at` and nowhere further on.
pub open spec fn is_last_occurrence(pattern: Seq<char>, text: Seq<char>, at: int) -> bool {
    &&& occurs_at(pattern, text, at)
    &&& forall|later: int| at < later ==> !occurs_at(pattern, text, later)
}

/// The position where `pattern` stands last in `text`, if it stands there at
/// all.
pub open spec fn last_occurrence(pattern: Seq<char>, text: Seq<char>) -> Option<int> {
    if exists|at: int| is_last_occurrence(pattern, text, at) {
        Some(choose|at: int| is_last_occurrence(pattern, text, at))
    } else {
        None
    }
}

/// A position where `pattern` stands and after which it stands no more is
/// what `last_occurrence` names.
pub proof fn lemma_last_occurrence_is(pattern: Seq<char>, text: Seq<char>, at: int)
    requires
        is_last_occurrence(pattern, text, at),
    ensures
        last_occurrence(pattern, text) == Some(at),
{
    let chosen = choose|at: int| is_last_occurrence(pattern, text, at);
    if chosen < at {
        assert(occurs_at(pattern, text, at));
    } else if at < chosen {
        assert(occurs_at(pattern, text, chosen));
    }
}

proof fn lemma_occurrence_has_last(pattern: Seq<char>, text: Seq<char>, at: int, bound: int)
    requires
        occurs_at(pattern, text, at),
        at <= bound,
        forall|later: int| bound < later ==> !occurs_at(pattern, text, later),
    ensures
        exists|last: int| is_last_occurrence(pattern, text, last),
    decreases bound - at,
{
    if bound == at {
        assert(is_last_occurrence(pattern, text, at));
    } else if occurs_at(pattern, text, bound) {
        assert(is_last_occurrence(pattern, text, bound));
    } else {
        lemma_occurrence_has_last(pattern, text, at, bound - 1);
    }
}

/// There is a last position of `pattern` in `text` exactly where `pattern`
/// stands in `text` at all.
pub proof fn lemma_last_occurrence_exists(pattern: Seq<char>, text: Seq<char>)
    ensures
        last_occurrence(pattern, text) is Some <==> occurs_in(pattern, text),
        last_occurrence(pattern, text) matches Some(last) ==> is_last_occurrence(
            pattern,
            text,
            last,
        ),
{
    if occurs_in(pattern, text) {
        let at = choose|at: int| occurs_at(pattern, text, at);
        lemma_occurrence_has_last(pattern, text, at, text.len() as int);
    }
    if last_occurrence(pattern, text) is Some {
        let last = last_occurrence(pattern, text)->0;
        assert(occurs_at(pattern, text, last));
    }
}

/// Position of the first `c` within `chars[from..to]`, counted from the start
/// of `chars`.
pub(crate) fn find_first(chars: &Vec<char>, from: usize, to: usize, c: char) -> (found: Option<usize>)
    requires
        from <= to <= chars.len(),
    ensures
        match chars@.subrange(from as int, to as int).index_of_first(c) {
            Some(offset) => found matches Some(i) && i == from + offset,
            None => found is None,
        },
        found matches Some(i) ==> from <= i < to && chars@[i as int] == c,
{
    let ghost part = chars@.subrange(from as int, to as int);
    let mut i: usize = from;
    while i < to
        invariant
            from <= i <= to <= chars.len(),
            part == chars@.subrange(from as int, to as int),
            forall|j: int| 0 <= j < i - from ==> part[j] != c,
        decreases to - i,
    {
        if chars[i] == c {
            proof {
                part.index_of_first_ensures(c);
                assert(part[i - from] == c);
            }
            return Some(i);
        }
        i += 1;
    }
    proof {
        part.index_of_first_ensures(c);
    }
    None
}

/// Position of the last `c` within `chars[from..to]`, counted from the start
/// of `chars`.
pub(crate) fn find_last(chars: &Vec<char>, from: usize, to: usize, c: char) -> (found: Option<usize>)
    requires
        from <= to <= chars.len(),
    ensures
        match chars@.subrange(from as int, to as int).index_of_last(c) {
            Some(offset) => found matches Some(i) && i == from + offset,
            None => found is None,
        },
        found matches Some(i) ==> from <= i < to && chars@[i as int] == c,
{
    let ghost part = chars@.subrange(from as int, to as int);
    let mut i: usize = to;
    while i > from
        invariant
            from <= i <= to <= chars.len(),
            part == chars@.subrange(from as int, to as int),
            forall|j: int| i - from <= j < part.len() ==> part[j] != c,
        decreases i,
    {
        i -= 1;
        if chars[i] == c {
            proof {
                part.index_of_last_ensures(c);
                assert(part[i - from] == c);
            }
            return Some(i);
        }
    }
    proof {
        part.index_of_last_ensures(c);
    }
    None
}

/// Whether `pattern` stands in `chars` at position `at`.
fn matches_at(chars: &Vec<char>, at: usize, pattern: &Vec<char>) -> (matched: bool)
    requires
        at + pattern.len() <= chars.len(),
    ensures
        matched == (chars@.subrange(at as int, at + pattern.len()) == pattern@),
{
    let ghost window = chars@.subrange(at as int, at + pattern.len());
    let mut k: usize = 0;
    while k < pattern.len()
        invariant
            k <= pattern.len(),
            at + pattern.len() <= chars.len(),
            window == chars@.subrange(at as int, at + pattern.len()),
            forall|j: int| 0 <= j < k ==> window[j] == pattern@[j],
        decreases pattern.len() - k,
    {
        if chars[at + k] != pattern[k] {
            assert(window[k as int] != pattern@[k as int]);
            return false;
        }
        k += 1;
    }
    assert(window =~= pattern@);
    true
}

/// Where `pattern` stands last within `chars[from..to]`, counted from the
/// start of `chars`.
pub(crate) fn find_last_pattern(
    chars: &Vec<char>,
    from: usize,
    to: usize,
    pattern: &Vec<char>,
) -> (found: Option<usize>)
    requires
        from <= to <= chars.len(),
    ensures
        match last_occurrence(pattern@, chars@.subrange(from as int, to as int)) {
            Some(offset) => found matches Some(i) && i == from + offset,
            None => found is None,
        },
        found matches Some(i) ==> from <= i && i + pattern.len() <= to,
{
    let ghost part = chars@.subrange(from as int, to as int);
    if pattern.len() > to - from {
        return None;
    }
    let mut i: usize = to - pattern.len();
    loop
        invariant
            from <= i <= to - pattern.len(),
            from <= to <= chars.len(),
            part == chars@.subrange(from as int, to as int),
            forall|at: int| i - from < at ==> !occurs_at(pattern@, part, at),
        decreases i,
    {
        assert(part.subrange(i - from, i - from + pattern.len()) =~= chars@.subrange(
            i as int,
            i + pattern.len(),
        ));
        if matches_at(chars, i, pattern) {
            proof {
                lemma_last_occurrence_is(pattern@, part, i - from);
            }
            return Some(i);
        }
        if i == from {
            return None;
        }
        i -= 1;
    }
}

/// The characters of `s`, in order, as an indexable vector.
pub fn to_chars(s: &str) -> (chars: Vec<char>)
    ensures
        chars@ == s@,
{
    broadcast use vstd::string::axiom_spec_iter;

    let mut chars: Vec<char> = Vec::new();
    for c in iter: s.chars()
        invariant
            iter.seq() == s@,
            chars@ == s@.take(iter.index()),
    {
        chars.push(c);
    }
    chars
}

/// The one-character text of the decimal digit `d`.
fn digit_text(d: u8) -> (text: &'static str)
    requires
        d < 10,
    ensures
        text@ == seq![digit_char(d as nat)],
{
    proof {
        reveal_strlit("0");
        reveal_strlit("1");
        reveal_strlit("2");
        reveal_strlit("3");
        reveal_strlit("4");
        reveal_strlit("5");
        reveal_strlit("6");
        reveal_strlit("7");
        reveal_strlit("8");
        reveal_strlit("9");
    }
    let text = match d {
        0 => "0",
        1 => "1",
        2 => "2",
        3 => "3",
        4 => "4",
        5 => "5",
        6 => "6",
        7 => "7",
        8 => "8",
        _ => "9",
    };
    assert(text@ =~= seq![digit_char(d as nat)]);
    text
}

/// Writes `n` in decimal.
pub fn decimal_string(n: u128) -> (text: String)
    ensures
        text@ == decimal(n as nat),
    decreases n,
{
    if n < 10 {
        String::from_str(digit_text(n as u8))
    } else {
        let mut text = decimal_string(n / 10);
        text.append(digit_text((n % 10) as u8));
        text
    }
}

} // verus!
