//! The payload of a new entry: fields separated by three commas.

use vstd::prelude::*;
use vstd::string::*;
use crate::text::{chars_of, views};

verus! {

/// Whether a separator (three commas in a row) begins at position `i` of `s`.
pub open spec fn separator_at(s: Seq<char>, i: int) -> bool {
    0 <= i && i + 3 <= s.len() && s[i] == ',' && s[i + 1] == ',' && s[i + 2] == ','
}

/// Whether `i` is the leftmost position of `s` at which a separator begins.
pub open spec fn first_separator(s: Seq<char>, i: int) -> bool {
    separator_at(s, i) && forall|j: int| 0 <= j < i ==> !separator_at(s, j)
}

/// The fields of `s`: what stands before its leftmost separator, then the
/// fields of what follows that separator. A text without separator is one
/// field, and so is the empty text.
pub open spec fn fields(s: Seq<char>) -> Seq<Seq<char>>
    decreases s.len(),
{
    if exists|i: int| first_separator(s, i) {
        let i = choose|i: int| first_separator(s, i);
        seq![s.subrange(0, i)] + fields(s.subrange(i + 3, s.len() as int))
    } else {
        seq![s]
    }
}

/// The separator: three commas.
pub open spec fn separator() -> Seq<char> {
    seq![',', ',', ',']
}

/// The parts put together again, with a separator between each two.
pub open spec fn joined(parts: Seq<Seq<char>>) -> Seq<char>
    decreases parts.len(),
{
    if parts.len() == 0 {
        Seq::empty()
    } else if parts.len() == 1 {
        parts[0]
    } else {
        parts[0] + separator() + joined(parts.subrange(1, parts.len() as int))
    }
}

/// The fields of a text whose leftmost separator begins at `i`.
pub proof fn lemma_fields_split(s: Seq<char>, i: int)
    requires
        first_separator(s, i),
    ensures
        fields(s) == seq![s.subrange(0, i)] + fields(s.subrange(i + 3, s.len() as int)),
{
    let k = choose|k: int| first_separator(s, k);
    assert(k == i) by {
        if k < i {
            assert(separator_at(s, k));
        } else if i < k {
            assert(separator_at(s, i));
        }
    }
}

/// A text in which no separator begins is a single field.
pub proof fn lemma_fields_single(s: Seq<char>)
    requires
        forall|j: int| !separator_at(s, j),
    ensures
        fields(s) == seq![s],
{
}

/// Nothing is lost in splitting: the fields of a text, put together again
/// with separators between them, are the text.
pub proof fn lemma_fields_join(s: Seq<char>)
    ensures
        fields(s).len() >= 1,
        joined(fields(s)) == s,
    decreases s.len(),
{
    if exists|i: int| first_separator(s, i) {
        let i = choose|i: int| first_separator(s, i);
        let head = s.subrange(0, i);
        let rest = s.subrange(i + 3, s.len() as int);
        lemma_fields_join(rest);
        let parts = seq![head] + fields(rest);
        assert(parts.subrange(1, parts.len() as int) =~= fields(rest));
    }
}

/// Splits `s` at each separator, reading from the left.
pub fn split_fields(s: &str) -> (out: Vec<String>)
    ensures
        views(out@) == fields(s@),
{
    let chars = chars_of(s);
    let n: usize = chars.len();
    let mut out: Vec<String> = Vec::new();
    let mut start: usize = 0;
    let mut i: usize = 0;
    proof {
        assert(s@.subrange(0, n as int) =~= s@);
    }
    while n >= 3 && i <= n - 3
        invariant
            start <= i <= n,
            n == s@.len(),
            chars@ == s@,
            fields(s@) == views(out@) + fields(s@.subrange(start as int, n as int)),
            forall|j: int| start <= j < i ==> !separator_at(s@, j),
        decreases n - i,
    {
        if chars[i] == ',' && chars[i + 1] == ',' && chars[i + 2] == ',' {
            let field = String::from_str(s.substring_char(start, i));
            proof {
                let rest = s@.subrange(start as int, n as int);
                let at = i - start;
                assert forall|j: int| 0 <= j < at implies !separator_at(rest, j) by {
                    if separator_at(rest, j) {
                        assert(separator_at(s@, start + j));
                    }
                }
                lemma_fields_split(rest, at);
                assert(rest.subrange(0, at) =~= s@.subrange(start as int, i as int));
                assert(rest.subrange(at + 3, rest.len() as int) =~= s@.subrange(
                    i + 3,
                    n as int,
                ));
            }
            out.push(field);
            i = i + 3;
            start = i;
        } else {
            i = i + 1;
        }
    }
    let last = String::from_str(s.substring_char(start, n));
    proof {
        let rest = s@.subrange(start as int, n as int);
        assert forall|j: int| !separator_at(rest, j) by {
            if separator_at(rest, j) {
                assert(separator_at(s@, start + j));
            }
        }
        lemma_fields_single(rest);
    }
    out.push(last);
    out
}

} // verus!
