//! Which files are icons, and the enum variant name that each one gets.
use vstd::prelude::*;
use crate::accents::{
    base_letter, carries_mark, char_seqs, decompose_all, has_accent, nfkd_each,
    remove_accents_char,
};
use crate::path_parts::{
    file_name, file_stem, find_after_last, find_file_name, name_extension, name_stem,
};
use crate::text::{
    ascii_lower, ascii_upper, is_ascii_alnum, is_ascii_alphanumeric, is_ascii_digit, is_blank,
    is_blank_chars, same_chars, slice_chars, to_chars,
};

verus! {

/// An icon extension, compared without regard to ASCII case: png, jpg, jpeg,
/// svg or webp.
pub open spec fn is_icon_extension(e: Seq<char>) -> bool {
    let l = e.map_values(|c: char| ascii_lower(c));
    l == seq!['p', 'n', 'g'] || l == seq!['j', 'p', 'g'] || l == seq!['j', 'p', 'e', 'g'] || l
        == seq!['s', 'v', 'g'] || l == seq!['w', 'e', 'b', 'p']
}

/// Path `p` names an icon: its file name has an icon extension, and a stem
/// that is not blank.
pub open spec fn is_icon_path(p: Seq<char>) -> bool {
    match file_name(p) {
        Some(f) => match name_extension(f) {
            Some(e) => is_icon_extension(e) && !is_blank(name_stem(f)),
            None => false,
        },
        None => false,
    }
}

/// Path `p` without the extension of its file name: the file stem, or `p`
/// itself where the path has no file name.
pub open spec fn without_extension(p: Seq<char>) -> Seq<char> {
    match file_stem(p) {
        Some(s) => s,
        None => p,
    }
}

/// A word boundary of a file stem: `_`, `-`, `@`, space or `.`.
pub open spec fn is_boundary(c: char) -> bool {
    c == '_' || c == '-' || c == '@' || c == ' ' || c == '.'
}

/// One step of the scan of a stem. `st` is the name so far and whether the
/// next letter or digit starts a word; `c` comes next, and `d` is its
/// decomposition. A letter or digit is kept, in upper case where it starts a
/// word; a boundary makes the next one start a word; a character with a
/// diacritic gives its base letter as it is, and leaves the pending word
/// start alone; anything else is dropped.
pub open spec fn scan_step(st: (Seq<char>, bool), c: char, d: Seq<char>) -> (Seq<char>, bool) {
    if is_ascii_alnum(c) {
        if st.1 {
            (st.0.push(ascii_upper(c)), false)
        } else {
            (st.0.push(c), false)
        }
    } else if is_boundary(c) {
        (st.0, true)
    } else if carries_mark(d) {
        (st.0.push(base_letter(c, d)), st.1)
    } else {
        st
    }
}

/// The scan over the first `n` characters of stem `s`, where `ds[i]` is the
/// decomposition of `s[i]`.
pub open spec fn scan(s: Seq<char>, ds: Seq<Seq<char>>, n: int) -> (Seq<char>, bool)
    decreases n,
{
    if n <= 0 {
        (seq![], true)
    } else {
        scan_step(scan(s, ds, n - 1), s[n - 1], ds[n - 1])
    }
}

/// `name` with `_` in front where it starts with an ASCII digit.
pub open spec fn guard_leading_digit(name: Seq<char>) -> Seq<char> {
    if name.len() > 0 && is_ascii_digit(name[0]) {
        seq!['_'] + name
    } else {
        name
    }
}

/// The identifier of stem `s`, given the decomposition `ds[i]` of each
/// character `s[i]`.
pub open spec fn identifier(s: Seq<char>, ds: Seq<Seq<char>>) -> Seq<char> {
    guard_leading_digit(scan(s, ds, s.len() as int).0)
}

/// The identifier of the file at path `p`, or none where it is no icon.
pub open spec fn sanitized(p: Seq<char>) -> Option<Seq<char>> {
    if is_icon_path(p) {
        let stem = without_extension(p);
        Some(identifier(stem, nfkd_each(stem)))
    } else {
        None
    }
}

fn is_icon_extension_chars(e: &[char]) -> (r: bool)
    ensures
        r == is_icon_extension(e@),
{
    let mut l: Vec<char> = Vec::new();
    let mut i: usize = 0;
    while i < e.len()
        invariant
            i <= e@.len(),
            l@ == e@.subrange(0, i as int).map_values(|c: char| ascii_lower(c)),
        decreases e@.len() - i,
    {
        l.push(e[i].to_ascii_lowercase());
        i = i + 1;
        assert(l@ =~= e@.subrange(0, i as int).map_values(|c: char| ascii_lower(c)));
    }
    assert(e@.subrange(0, e@.len() as int) =~= e@);
    let png = vec!['p', 'n', 'g'];
    let jpg = vec!['j', 'p', 'g'];
    let jpeg = vec!['j', 'p', 'e', 'g'];
    let svg = vec!['s', 'v', 'g'];
    let webp = vec!['w', 'e', 'b', 'p'];
    same_chars(&l, &png) || same_chars(&l, &jpg) || same_chars(&l, &jpeg) || same_chars(&l, &svg)
        || same_chars(&l, &webp)
}

/// Whether `filename` is the path of an icon file: its extension is one of
/// png, jpg, jpeg, svg and webp in any ASCII case, and its stem is not blank.
/// The file system is not consulted.
pub fn is_valid_icon(filename: &str) -> (r: bool)
    ensures
        r == is_icon_path(filename@),
{
    let p = to_chars(filename);
    match find_file_name(&p) {
        None => false,
        Some((start, end)) => {
            let f = slice_chars(&p, start, end);
            assert(file_name(p@) == Some(f@));
            let k = find_after_last(&f, f.len(), '.');
            if k == 0 {
                return false;
            }
            let ext = slice_chars(&f, k, f.len());
            let stem = slice_chars(&f, 0, k - 1);
            is_icon_extension_chars(&ext) && !is_blank_chars(&stem)
        },
    }
}

/// `filename` without the extension of its file name. Only the last
/// extension goes: "archive.tar.gz" gives "archive.tar". A path without a
/// file name comes back whole.
pub fn remove_extension(filename: &str) -> (r: &str)
    ensures
        r@ == without_extension(filename@),
{
    let p = to_chars(filename);
    match find_file_name(&p) {
        None => filename,
        Some((start, end)) => {
            let f = slice_chars(&p, start, end);
            assert(file_name(p@) == Some(f@));
            let k = find_after_last(&f, f.len(), '.');
            if k == 0 {
                filename.substring_char(start, end)
            } else {
                assert(f@.subrange(0, k - 1) =~= p@.subrange(start as int, start + k - 1));
                filename.substring_char(start, start + k - 1)
            }
        },
    }
}

/// The identifier of `stem`, where `decompositions[i]` is the compatibility
/// decomposition of the `i`-th character of `stem`.
pub fn sanitize_stem(stem: &str, decompositions: &Vec<Vec<char>>) -> (r: String)
    requires
        decompositions@.len() == stem@.len(),
    ensures
        r@ == identifier(stem@, char_seqs(decompositions@)),
{
    let ghost ds = char_seqs(decompositions@);
    let s = to_chars(stem);
    let mut out = String::new();
    let mut capitalize_next = true;
    let mut i: usize = 0;
    while i < s.len()
        invariant
            s@ == stem@,
            decompositions@.len() == s@.len(),
            ds == char_seqs(decompositions@),
            i <= s@.len(),
            (out@, capitalize_next) == scan(s@, ds, i as int),
        decreases s@.len() - i,
    {
        let c = s[i];
        assert(ds[i as int] == decompositions@[i as int]@);
        if is_ascii_alphanumeric(c) {
            if capitalize_next {
                out.push(c.to_ascii_uppercase());
                capitalize_next = false;
            } else {
                out.push(c);
            }
        } else if c == '_' || c == '-' || c == '@' || c == ' ' || c == '.' {
            capitalize_next = true;
        } else if has_accent(&decompositions[i]) {
            out.push(remove_accents_char(c, &decompositions[i]));
        }
        i = i + 1;
    }
    if out.as_str().unicode_len() > 0 {
        let first = out.as_str().get_char(0);
        if '0' <= first && first <= '9' {
            let mut prefixed = String::new();
            prefixed.push('_');
            prefixed.append(out.as_str());
            assert(prefixed@ =~= seq!['_'] + out@);
            return prefixed;
        }
    }
    out
}

/// The enum variant name for the icon at `filename`, or `None` where
/// `filename` is no icon path (see `is_valid_icon`). The name is built from
/// the file stem: see `scan_step`, and a leading ASCII digit gets `_` in
/// front.
pub fn sanitize_filename(filename: &str) -> (r: Option<String>)
    ensures
        match r {
            Some(name) => sanitized(filename@) == Some(name@),
            None => sanitized(filename@) is None,
        },
{
    if is_valid_icon(filename) {
        let stem = remove_extension(filename);
        let chars = to_chars(stem);
        let decompositions = decompose_all(&chars);
        Some(sanitize_stem(stem, &decompositions))
    } else {
        None
    }
}

} // verus!
