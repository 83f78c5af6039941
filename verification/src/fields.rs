//! Rows of whitespace-separated fields, as system tools print them.
use crate::text::{parse_decimal, read_u64, string_of, views};
use vstd::prelude::*;

verus! {

/// The first answer that `f` gives for one of the rows, in order.
pub open spec fn first_some<T>(
    rows: Seq<Seq<char>>,
    f: spec_fn(Seq<char>) -> Option<T>,
) -> Option<T>
    decreases rows.len(),
{
    if rows.len() == 0 {
        None
    } else if f(rows[0]) is Some {
        f(rows[0])
    } else {
        first_some(rows.drop_first(), f)
    }
}

/// The rows without the first `n`, which are a heading.
pub open spec fn rows_after(rows: Seq<Seq<char>>, n: int) -> Seq<Seq<char>> {
    if rows.len() <= n {
        seq![]
    } else {
        rows.skip(n)
    }
}

/// The number that a text spells, if it fits 64 bits.
pub open spec fn number(text: Seq<char>) -> Option<u64> {
    match parse_decimal(text, u64::MAX as nat) {
        Some(n) => Some(n as u64),
        None => None,
    }
}

/// The number in the field at `i`, if there is such a field and it holds one.
pub open spec fn field_number(fields: Seq<Seq<char>>, i: int) -> Option<u64> {
    if 0 <= i < fields.len() {
        number(fields[i])
    } else {
        None
    }
}

/// Both numbers, if both are there.
pub open spec fn both(a: Option<u64>, b: Option<u64>) -> Option<(u64, u64)> {
    if a is Some && b is Some {
        Some((a->0, b->0))
    } else {
        None
    }
}

/// The text of an optional string.
pub open spec fn text_of(s: Option<String>) -> Option<Seq<char>> {
    match s {
        Some(s) => Some(s@),
        None => None,
    }
}

/// The texts of an optional pair of strings.
pub open spec fn pair_of(s: Option<(String, String)>) -> Option<(Seq<char>, Seq<char>)> {
    match s {
        Some((a, b)) => Some((a@, b@)),
        None => None,
    }
}

/// The text of an optional interface with its counters.
pub open spec fn counters_of(s: Option<(String, (u64, u64))>) -> Option<
    (Seq<char>, (u64, u64)),
> {
    match s {
        Some((name, bytes)) => Some((name@, bytes)),
        None => None,
    }
}

/// One more row without an answer.
pub proof fn lemma_first_some_step<T>(
    rows: Seq<Seq<char>>,
    i: int,
    f: spec_fn(Seq<char>) -> Option<T>,
)
    requires
        0 <= i < rows.len(),
    ensures
        f(rows[i]) is Some ==> first_some(rows.skip(i), f) == f(rows[i]),
        f(rows[i]) is None ==> first_some(rows.skip(i), f) == first_some(rows.skip(i + 1), f),
{
    assert(rows.skip(i)[0] == rows[i]);
    assert(rows.skip(i).drop_first() =~= rows.skip(i + 1));
}

/// The rows from `i` on, `i` being the length of the heading.
pub proof fn lemma_rows_after(rows: Seq<Seq<char>>, n: int)
    requires
        0 <= n <= rows.len(),
    ensures
        rows_after(rows, n) == rows.skip(n),
{
    if rows.len() == n {
        assert(rows.skip(n) =~= seq![]);
    }
}

/// An answer comes from one of the rows, and the rows before it have none.
pub proof fn lemma_first_some_is_from_a_row<T>(
    rows: Seq<Seq<char>>,
    f: spec_fn(Seq<char>) -> Option<T>,
) -> (i: int)
    requires
        first_some(rows, f) is Some,
    ensures
        0 <= i < rows.len(),
        first_some(rows, f) == f(rows[i]),
        forall|j: int| 0 <= j < i ==> f(#[trigger] rows[j]) is None,
    decreases rows.len(),
{
    if f(rows[0]) is Some {
        0
    } else {
        let rest = rows.drop_first();
        let i = lemma_first_some_is_from_a_row(rest, f);
        assert forall|j: int| 0 <= j < i + 1 implies f(#[trigger] rows[j]) is None by {
            if j > 0 {
                assert(rows[j] == rest[j - 1]);
            }
        }
        i + 1
    }
}

/// Reads the number in the field at `i`.
pub fn read_field(fields: &Vec<&[char]>, i: usize) -> (n: Option<u64>)
    ensures
        n == field_number(views(fields@), i as int),
{
    if i < fields.len() {
        read_u64(fields[i])
    } else {
        None
    }
}

/// A pair of strings.
pub fn string_pair(a: &[char], b: &[char]) -> (pair: (String, String))
    ensures
        pair.0@ == a@,
        pair.1@ == b@,
{
    (string_of(a), string_of(b))
}

} // verus!
