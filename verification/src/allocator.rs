//! Filename allocator: sequential `download_NN` names and the next index that
//! a directory listing leaves free.

use crate::text::{
    decimal, decimal_string, decimal_value, digit_char, find_first, is_digit,
    lemma_decimal_is_digits, lemma_decimal_value_of_decimal, to_chars,
};
use vstd::prelude::*;
use vstd::string::*;

verus! {

/// The fixed stem of every allocated name: `download_`.
pub open spec fn name_stem() -> Seq<char> {
    seq!['d', 'o', 'w', 'n', 'l', 'o', 'a', 'd', '_']
}

/// `index` in decimal, padded with a zero to at least two digits.
pub open spec fn padded_index(index: nat) -> Seq<char> {
    if index < 10 {
        seq!['0', digit_char(index)]
    } else {
        decimal(index)
    }
}

/// The base name that stands for `index`: `download_01`, `download_02`, ...,
/// `download_99`, `download_100`, ...
pub open spec fn index_name(index: nat) -> Seq<char> {
    name_stem() + padded_index(index)
}

/// What is left of a listed path once the first `dir.len()` characters, the
/// directory it was listed under, are dropped.
pub open spec fn entry_name(dir: Seq<char>, path: Seq<char>) -> Seq<char> {
    if dir.len() <= path.len() {
        path.skip(dir.len() as int)
    } else {
        Seq::empty()
    }
}

/// The part of `name` before its first `.`; all of `name` where it has none.
pub open spec fn base_identifier(name: Seq<char>) -> Seq<char> {
    match name.index_of_first('.') {
        Some(dot) => name.take(dot),
        None => name,
    }
}

/// The base identifiers of the entries listed under `dir`, in listing order.
pub open spec fn identifiers(dir: Seq<char>, entries: Seq<Seq<char>>) -> Seq<Seq<char>> {
    entries.map_values(|path: Seq<char>| base_identifier(entry_name(dir, path)))
}

/// Whether `index` is the smallest index, counting from 1, whose base name is
/// not among `used`.
pub open spec fn is_next_index(used: Set<Seq<char>>, index: nat) -> bool {
    &&& index >= 1
    &&& !used.contains(index_name(index))
    &&& forall|j: nat| 1 <= j < index ==> used.contains(#[trigger] index_name(j))
}

/// The smallest index, counting from 1, whose base name is not among `used`.
pub open spec fn next_index(used: Set<Seq<char>>) -> nat {
    choose|index: nat| is_next_index(used, index)
}

/// The index that the allocator hands out for a directory `dir` whose listing
/// is `entries`.
pub open spec fn allocated_index(dir: Seq<char>, entries: Seq<Seq<char>>) -> nat {
    next_index(identifiers(dir, entries).to_set())
}

/// A padded index reads back as the index.
pub proof fn lemma_padded_index_value(index: nat)
    ensures
        decimal_value(padded_index(index)) == index,
{
    if index < 10 {
        let s = padded_index(index);
        assert(s.drop_last() =~= seq!['0']);
        assert(s.drop_last().drop_last() =~= Seq::<char>::empty());
        assert(decimal_value(s.drop_last().drop_last()) == 0);
        assert(decimal_value(s.drop_last()) == 0);
    } else {
        lemma_decimal_value_of_decimal(index);
    }
}

/// Different indices have different base names.
pub proof fn lemma_index_name_injective(a: nat, b: nat)
    requires
        index_name(a) == index_name(b),
    ensures
        a == b,
{
    assert(index_name(a).skip(9) =~= padded_index(a));
    assert(index_name(b).skip(9) =~= padded_index(b));
    lemma_padded_index_value(a);
    lemma_padded_index_value(b);
}

/// A base name holds no `.`.
pub proof fn lemma_index_name_has_no_dot(index: nat)
    ensures
        !index_name(index).contains('.'),
{
    let name = index_name(index);
    lemma_decimal_is_digits(index);
    assert forall|i: int| 0 <= i < name.len() implies name[i] != '.' by {
        if i >= 9 {
            assert(name[i] == padded_index(index)[i - 9]);
            if index >= 10 {
                assert(is_digit(decimal(index)[i - 9]));
            }
        }
    }
}

/// At most one index is the next one.
pub proof fn lemma_next_index_unique(used: Set<Seq<char>>, a: nat, b: nat)
    requires
        is_next_index(used, a),
        is_next_index(used, b),
    ensures
        a == b,
{
    if a < b {
        assert(used.contains(index_name(a)));
    } else if b < a {
        assert(used.contains(index_name(b)));
    }
}

/// An index that is the next one is what `next_index` names.
pub proof fn lemma_next_index_is(used: Set<Seq<char>>, index: nat)
    requires
        is_next_index(used, index),
    ensures
        next_index(used) == index,
{
    lemma_next_index_unique(used, index, next_index(used));
}

/// A finite set that holds the base names of 1 up to `count` has at least
/// `count` members.
pub proof fn lemma_run_of_names_fits(used: Set<Seq<char>>, count: nat)
    requires
        used.finite(),
        forall|j: nat| 1 <= j <= count ==> used.contains(#[trigger] index_name(j)),
    ensures
        count <= used.len(),
    decreases count,
{
    if count > 0 {
        let rest = used.remove(index_name(count));
        assert forall|j: nat| 1 <= j <= count - 1 implies rest.contains(
            #[trigger] index_name(j),
        ) by {
            if index_name(j) == index_name(count) {
                lemma_index_name_injective(j, count);
            }
        }
        lemma_run_of_names_fits(rest, (count - 1) as nat);
    }
}

/// Every finite set of names leaves a next index, no further out than one
/// past the number of its members.
pub proof fn lemma_next_index_exists(used: Set<Seq<char>>)
    requires
        used.finite(),
    ensures
        is_next_index(used, next_index(used)),
        next_index(used) <= used.len() + 1,
{
    let index = first_free_from(used, 1);
    lemma_first_free_from(used, 1);
    lemma_next_index_is(used, index);
    if index >= 2 {
        lemma_run_of_names_fits(used, (index - 1) as nat);
    }
}

/// The first index at or after `from` whose base name is free, given that
/// every index below `from` is taken.
spec fn first_free_from(used: Set<Seq<char>>, from: nat) -> nat
    decreases used.len() + 1 - from,
    when used.finite() && (forall|j: nat| 1 <= j < from ==> used.contains(#[trigger] index_name(j)))
    via first_free_from_decreases
{
    if used.contains(index_name(from)) {
        first_free_from(used, from + 1)
    } else {
        from
    }
}

#[via_fn]
proof fn first_free_from_decreases(used: Set<Seq<char>>, from: nat) {
    if used.contains(index_name(from)) {
        lemma_run_of_names_fits(used, from);
    }
}

proof fn lemma_first_free_from(used: Set<Seq<char>>, from: nat)
    requires
        used.finite(),
        from >= 1,
        forall|j: nat| 1 <= j < from ==> used.contains(#[trigger] index_name(j)),
    ensures
        is_next_index(used, first_free_from(used, from)),
    decreases used.len() + 1 - from,
{
    if used.contains(index_name(from)) {
        lemma_run_of_names_fits(used, from);
        lemma_first_free_from(used, from + 1);
    }
}

/// Formats the base name of `index`: `download_` and the index, zero-padded to
/// two digits.
pub fn format_index(index: u128) -> (name: String)
    ensures
        name@ == index_name(index as nat),
{
    proof {
        reveal_strlit("download_");
        reveal_strlit("0");
    }
    let mut name = String::from_str("download_");
    assert(name@ =~= name_stem());
    if index < 10 {
        name.append("0");
    }
    let digits = decimal_string(index);
    name.append(digits.as_str());
    assert(name@ =~= index_name(index as nat));
    name
}

/// Drops from a listed `path` as many leading characters as the directory
/// `dir` has.
pub fn strip_directory(dir: &str, path: &str) -> (name: String)
    ensures
        name@ == entry_name(dir@, path@),
{
    let skip = dir.unicode_len();
    let len = path.unicode_len();
    if skip <= len {
        String::from_str(path.substring_char(skip, len))
    } else {
        String::new()
    }
}

/// Cuts `name` off before its first `.`.
pub fn strip_extension(name: &str) -> (base: String)
    ensures
        base@ == base_identifier(name@),
{
    let chars = to_chars(name);
    assert(chars@.subrange(0, chars.len() as int) =~= name@);
    match find_first(&chars, 0, chars.len(), '.') {
        Some(dot) => String::from_str(name.substring_char(0, dot)),
        None => String::from_str(name),
    }
}

/// Whether `name` is one of `names`.
fn is_listed(names: &Vec<String>, name: &String) -> (listed: bool)
    ensures
        listed == names.deep_view().contains(name@),
{
    let mut i: usize = 0;
    while i < names.len()
        invariant
            i <= names.len(),
            forall|j: int| 0 <= j < i ==> names.deep_view()[j] != name@,
        decreases names.len() - i,
    {
        if names[i] == *name {
            assert(names.deep_view()[i as int] == name@);
            return true;
        }
        i += 1;
    }
    false
}

/// The next index that the listing `entries` of the directory `dir` leaves
/// free: the smallest one, counting from 1, whose base name is the base
/// identifier of no entry. The result is wide enough for one past any listing
/// length.
pub fn allocate_index(dir: &str, entries: &Vec<String>) -> (index: u128)
    ensures
        index as nat == allocated_index(dir@, entries.deep_view()),
        is_next_index(identifiers(dir@, entries.deep_view()).to_set(), index as nat),
        1 <= index <= entries.len() + 1,
{
    let ghost wanted = identifiers(dir@, entries.deep_view());
    let mut used: Vec<String> = Vec::new();
    let mut i: usize = 0;
    while i < entries.len()
        invariant
            i <= entries.len(),
            wanted == identifiers(dir@, entries.deep_view()),
            used.len() == i,
            forall|j: int| 0 <= j < i ==> used.deep_view()[j] == wanted[j],
        decreases entries.len() - i,
    {
        let name = strip_directory(dir, entries[i].as_str());
        let base = strip_extension(name.as_str());
        proof {
            assert(entries.deep_view()[i as int] == entries[i as int]@);
            assert(base@ == wanted[i as int]);
        }
        used.push(base);
        i += 1;
    }
    assert(used.deep_view() =~= wanted);
    let ghost used_set = wanted.to_set();
    proof {
        wanted.lemma_cardinality_of_set();
        vstd::seq_lib::seq_to_set_is_finite(wanted);
    }
    let mut index: u128 = 1;
    loop
        invariant
            1 <= index <= used.len() + 1,
            used.len() == entries.len(),
            used.deep_view() == wanted,
            used_set == wanted.to_set(),
            used_set.finite(),
            used_set.len() <= wanted.len(),
            wanted == identifiers(dir@, entries.deep_view()),
            forall|j: nat| 1 <= j < index ==> used_set.contains(#[trigger] index_name(j)),
        decreases used.len() + 1 - index,
    {
        let name = format_index(index);
        if !is_listed(&used, &name) {
            proof {
                lemma_next_index_is(used_set, index as nat);
            }
            return index;
        }
        proof {
            lemma_run_of_names_fits(used_set, index as nat);
        }
        index += 1;
    }
}

} // verus!
