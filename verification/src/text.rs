//! Comparing texts and byte strings.
use crate::number::Sign;
use vstd::prelude::*;
use vstd::utf8::{encode_utf8, encode_utf8_decode_utf8};

verus! {

/// How `a` stands to `b` in the order of a dictionary, read from the place
/// `from` on: the first place at which they differ decides, and where one
/// ends before they differ, the shorter comes first.
pub open spec fn lexical_sign(a: Seq<u8>, b: Seq<u8>, from: int) -> Sign
    decreases a.len() - from,
{
    if from < 0 || from >= a.len() {
        if 0 <= from < b.len() {
            Sign::Negative
        } else {
            Sign::Zero
        }
    } else if from >= b.len() {
        Sign::Positive
    } else if a[from] < b[from] {
        Sign::Negative
    } else if a[from] > b[from] {
        Sign::Positive
    } else {
        lexical_sign(a, b, from + 1)
    }
}

/// How the text `a` stands to the text `b`: as their UTF-8 bytes do,
/// which is also the order of their characters.
pub open spec fn text_sign(a: Seq<char>, b: Seq<char>) -> Sign {
    lexical_sign(encode_utf8(a), encode_utf8(b), 0)
}

/// Two byte strings that agree up to `from` stand to each other as their
/// rests do.
pub proof fn lemma_lexical_skip(a: Seq<u8>, b: Seq<u8>, from: int, to: int)
    requires
        0 <= from <= to,
        to <= a.len(),
        to <= b.len(),
        forall|i: int| from <= i < to ==> a[i] == b[i],
    ensures
        lexical_sign(a, b, from) == lexical_sign(a, b, to),
    decreases to - from,
{
    if from < to {
        lemma_lexical_skip(a, b, from + 1, to);
    }
}

/// As `a` stands to `b`, so `b` stands to `a` the other way round.
pub proof fn lemma_lexical_flip(a: Seq<u8>, b: Seq<u8>, from: int)
    requires
        0 <= from,
    ensures
        lexical_sign(b, a, from) == lexical_sign(a, b, from).flipped(),
    decreases a.len() - from,
{
    if from < a.len() && from < b.len() && a[from] == b[from] {
        lemma_lexical_flip(a, b, from + 1);
    }
}

/// Where `a` does not come after `b`, nor `b` after `c`, `a` does not
/// come after `c`.
pub proof fn lemma_lexical_chain(a: Seq<u8>, b: Seq<u8>, c: Seq<u8>, from: int)
    requires
        0 <= from,
        lexical_sign(a, b, from) != Sign::Positive,
        lexical_sign(b, c, from) != Sign::Positive,
    ensures
        lexical_sign(a, c, from) != Sign::Positive,
    decreases a.len() - from,
{
    if from < a.len() && from < b.len() && from < c.len() && a[from] == b[from] && b[from]
        == c[from] {
        lemma_lexical_chain(a, b, c, from + 1);
    }
}

/// How the bytes `a` stand to the bytes `b` in the order of a dictionary.
pub fn compare_bytes(a: &[u8], b: &[u8]) -> (s: Sign)
    ensures
        s == lexical_sign(a@, b@, 0),
{
    let mut i: usize = 0;
    while i < a.len() && i < b.len()
        invariant
            i <= a.len(),
            i <= b.len(),
            forall|j: int| 0 <= j < i ==> a@[j] == b@[j],
        decreases a.len() - i,
    {
        if a[i] < b[i] {
            proof {
                lemma_lexical_skip(a@, b@, 0, i as int);
            }
            return Sign::Negative;
        }
        if a[i] > b[i] {
            proof {
                lemma_lexical_skip(a@, b@, 0, i as int);
            }
            return Sign::Positive;
        }
        i = i + 1;
    }
    proof {
        lemma_lexical_skip(a@, b@, 0, i as int);
    }
    if i < b.len() {
        Sign::Negative
    } else if i < a.len() {
        Sign::Positive
    } else {
        Sign::Zero
    }
}

/// How the text `a` stands to the text `b`.
pub fn compare_text(a: &str, b: &str) -> (s: Sign)
    ensures
        s == text_sign(a@, b@),
{
    compare_bytes(a.as_bytes(), b.as_bytes())
}

/// Whether the two texts are the same.
pub fn same_text(a: &str, b: &str) -> (r: bool)
    ensures
        r == (a@ == b@),
{
    let left = a.as_bytes();
    let right = b.as_bytes();
    proof {
        encode_utf8_decode_utf8(a@);
        encode_utf8_decode_utf8(b@);
    }
    if left.len() != right.len() {
        return false;
    }
    let mut i: usize = 0;
    while i < left.len()
        invariant
            i <= left.len(),
            left.len() == right.len(),
            left@ == encode_utf8(a@),
            right@ == encode_utf8(b@),
            forall|j: int| 0 <= j < i ==> left@[j] == right@[j],
        decreases left.len() - i,
    {
        if left[i] != right[i] {
            return false;
        }
        i = i + 1;
    }
    assert(left@ =~= right@);
    true
}

/// Whether the two byte strings are the same.
pub fn same_bytes(a: &[u8], b: &[u8]) -> (r: bool)
    ensures
        r == (a@ == b@),
{
    if a.len() != b.len() {
        return false;
    }
    let mut i: usize = 0;
    while i < a.len()
        invariant
            i <= a.len(),
            a.len() == b.len(),
            forall|j: int| 0 <= j < i ==> a@[j] == b@[j],
        decreases a.len() - i,
    {
        if a[i] != b[i] {
            return false;
        }
        i = i + 1;
    }
    assert(a@ =~= b@);
    true
}

} // verus!
