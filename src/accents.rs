//! Removal of diacritics through the compatibility decomposition.
use vstd::prelude::*;
use unicode_normalization::UnicodeNormalization;

verus! {

/// The compatibility decomposition (NFKD) of one character.
pub uninterp spec fn nfkd_of(c: char) -> Seq<char>;

/// A combining diacritical mark: U+0300 to U+036F.
pub open spec fn is_combining_mark(c: char) -> bool {
    0x0300 <= (c as u32) && (c as u32) <= 0x036F
}

/// Some character of the decomposition is a combining mark.
pub open spec fn carries_mark(d: Seq<char>) -> bool {
    exists|i: int| 0 <= i < d.len() && is_combining_mark(#[trigger] d[i])
}

/// The first character of `d` from index `i` on that is no combining mark,
/// or `c` where there is none.
pub open spec fn first_base_from(c: char, d: Seq<char>, i: int) -> char
    decreases d.len() - i,
{
    if i < 0 || i >= d.len() {
        c
    } else if !is_combining_mark(d[i]) {
        d[i]
    } else {
        first_base_from(c, d, i + 1)
    }
}

/// The base letter of `c` given its decomposition `d`: the first character
/// of `d` that is no combining mark, or `c` itself where there is none.
pub open spec fn base_letter(c: char, d: Seq<char>) -> char {
    first_base_from(c, d, 0)
}

/// Relies on `UnicodeNormalization::nfkd` of unicode-normalization: the
/// compatibility decomposition of `c`, which depends on `c` alone; a 7-bit
/// ASCII character never decomposes.
#[verifier::external_body]
fn decompose(c: char) -> (r: Vec<char>)
    ensures
        r@ == nfkd_of(c),
        (c as u32) <= 0x7f ==> r@ == seq![c],
{
    c.nfkd().collect()
}

/// The decomposition of every character of `s`, in order.
pub open spec fn nfkd_each(s: Seq<char>) -> Seq<Seq<char>> {
    s.map_values(|c: char| nfkd_of(c))
}

/// What each vector of `v` holds.
pub open spec fn char_seqs(v: Seq<Vec<char>>) -> Seq<Seq<char>> {
    v.map_values(|x: Vec<char>| x@)
}

/// The decompositions of the characters of `s`, one for each.
pub fn decompose_all(s: &Vec<char>) -> (r: Vec<Vec<char>>)
    ensures
        r@.len() == s@.len(),
        char_seqs(r@) == nfkd_each(s@),
{
    let mut r: Vec<Vec<char>> = Vec::new();
    let mut i: usize = 0;
    while i < s.len()
        invariant
            i <= s@.len(),
            r@.len() == i,
            char_seqs(r@) =~= nfkd_each(s@.subrange(0, i as int)),
        decreases s@.len() - i,
    {
        let d = decompose(s[i]);
        let ghost before = r@;
        r.push(d);
        i = i + 1;
        assert forall|j: int| 0 <= j < i implies #[trigger] char_seqs(r@)[j] == nfkd_each(
            s@.subrange(0, i as int),
        )[j] by {
            if j < i - 1 {
                assert(r@[j] == before[j]);
                assert(char_seqs(before)[j] == nfkd_each(s@.subrange(0, i - 1))[j]);
            }
        }
        assert(char_seqs(r@) =~= nfkd_each(s@.subrange(0, i as int)));
    }
    assert(s@.subrange(0, s@.len() as int) =~= s@);
    r
}

/// Whether a character whose decomposition is `decomposition` carries a
/// removable diacritic.
pub fn has_accent(decomposition: &Vec<char>) -> (r: bool)
    ensures
        r == carries_mark(decomposition@),
{
    let mut i: usize = 0;
    while i < decomposition.len()
        invariant
            i <= decomposition@.len(),
            forall|j: int| 0 <= j < i ==> !is_combining_mark(#[trigger] decomposition@[j]),
        decreases decomposition@.len() - i,
    {
        let u = decomposition[i] as u32;
        if 0x0300 <= u && u <= 0x036F {
            return true;
        }
        i = i + 1;
    }
    false
}

/// The character `c` without its diacritic, given its decomposition: the
/// first decomposed character that is no combining mark, or `c` itself
/// where every one of them is.
pub fn remove_accents_char(c: char, decomposition: &Vec<char>) -> (r: char)
    ensures
        r == base_letter(c, decomposition@),
{
    let mut i: usize = 0;
    while i < decomposition.len()
        invariant
            i <= decomposition@.len(),
            base_letter(c, decomposition@) == first_base_from(c, decomposition@, i as int),
        decreases decomposition@.len() - i,
    {
        let d = decomposition[i];
        let u = d as u32;
        if !(0x0300 <= u && u <= 0x036F) {
            return d;
        }
        i = i + 1;
    }
    c
}

} // verus!
