//! Properties of the sanitizer and of the enum text, proved over the models.
use vstd::prelude::*;
use crate::accents::{base_letter, carries_mark, first_base_from, is_combining_mark};
use crate::enum_text::{
    entries_upto, enum_entries, enum_source, icon_entries, normalized_path,
};
use crate::icons::{
    is_boundary, is_icon_path, sanitized, scan_step,
    without_extension,
};
use crate::path_parts::{after_last, extension, file_name_span, file_stem};
use crate::text::{ascii_lower, is_ascii_alnum, is_ascii_digit};

verus! {

/// No identifier starts with an ASCII digit: a leading digit gets `_` in front.
pub proof fn lemma_identifier_never_starts_with_digit(p: Seq<char>)
    requires
        sanitized(p) is Some,
    ensures
        sanitized(p)->0.len() > 0 ==> !is_ascii_digit(sanitized(p)->0[0]),
{
}

/// The identifier depends on the file stem alone: two icon paths with the
/// same stem get the same identifier.
pub proof fn lemma_identifier_depends_on_stem(p: Seq<char>, q: Seq<char>)
    requires
        is_icon_path(p),
        is_icon_path(q),
        file_stem(p) == file_stem(q),
    ensures
        sanitized(p) == sanitized(q),
{
}

/// The case of the extension's ASCII letters does not matter: two paths with
/// the same stem whose extensions differ only in that case (or which both
/// have none) are both icons or both not, and get the same identifier.
pub proof fn lemma_extension_case_ignored(p: Seq<char>, q: Seq<char>)
    requires
        file_stem(p) == file_stem(q),
        extension(p) is Some <==> extension(q) is Some,
        extension(p) is Some ==> extension(p)->0.map_values(|c: char| ascii_lower(c))
            == extension(q)->0.map_values(|c: char| ascii_lower(c)),
    ensures
        is_icon_path(p) == is_icon_path(q),
        sanitized(p) == sanitized(q),
{
}

/// A character with a diacritic adds its base letter exactly as the
/// decomposition has it, whatever the pending word start, and leaves that
/// word start as it was. Where the decomposition holds a character that is
/// no combining mark, the letter added is one of those.
pub proof fn lemma_accent_keeps_base_letter(st: (Seq<char>, bool), c: char, d: Seq<char>)
    requires
        !is_ascii_alnum(c),
        !is_boundary(c),
        carries_mark(d),
    ensures
        scan_step(st, c, d) == (st.0.push(base_letter(c, d)), st.1),
        scan_step((st.0, !st.1), c, d).0 == scan_step(st, c, d).0,
        (exists|i: int| 0 <= i < d.len() && !is_combining_mark(#[trigger] d[i])) ==> {
            &&& !is_combining_mark(base_letter(c, d))
            &&& d.contains(base_letter(c, d))
        },
{
    if exists|i: int| 0 <= i < d.len() && !is_combining_mark(#[trigger] d[i]) {
        let i = choose|i: int| 0 <= i < d.len() && !is_combining_mark(#[trigger] d[i]);
        lemma_first_base_found(c, d, 0, i);
    }
}

/// The entries of the first `m` paths depend on those paths and names alone.
proof fn lemma_entries_prefix(
    ps: Seq<Seq<char>>,
    ns: Seq<Option<Seq<char>>>,
    qs: Seq<Seq<char>>,
    ms: Seq<Option<Seq<char>>>,
    m: int,
)
    requires
        0 <= m <= ps.len(),
        ps.len() == ns.len(),
        qs.len() == ms.len(),
    ensures
        entries_upto(ps + qs, ns + ms, m) == entries_upto(ps, ns, m),
    decreases m,
{
    if m > 0 {
        lemma_entries_prefix(ps, ns, qs, ms, m - 1);
        assert((ps + qs)[m - 1] == ps[m - 1]);
        assert((ns + ms)[m - 1] == ns[m - 1]);
    }
}

/// The entries of the first `ps.len() + k` paths of `ps + qs`.
proof fn lemma_entries_concat_upto(
    ps: Seq<Seq<char>>,
    ns: Seq<Option<Seq<char>>>,
    qs: Seq<Seq<char>>,
    ms: Seq<Option<Seq<char>>>,
    k: int,
)
    requires
        0 <= k <= qs.len(),
        ps.len() == ns.len(),
        qs.len() == ms.len(),
    ensures
        entries_upto(ps + qs, ns + ms, ps.len() + k) == enum_entries(ps, ns) + entries_upto(
            qs,
            ms,
            k,
        ),
    decreases k,
{
    if k == 0 {
        lemma_entries_prefix(ps, ns, qs, ms, ps.len() as int);
        assert(enum_entries(ps, ns) + entries_upto(qs, ms, 0) =~= enum_entries(ps, ns));
    } else {
        lemma_entries_concat_upto(ps, ns, qs, ms, k - 1);
        assert((ps + qs)[ps.len() + k - 1] == qs[k - 1]);
        assert((ns + ms)[ps.len() + k - 1] == ms[k - 1]);
        let front = enum_entries(ps, ns);
        let back = entries_upto(qs, ms, k - 1);
        match ms[k - 1] {
            Some(name) => {
                let e = (name, normalized_path(qs[k - 1]));
                assert((front + back).push(e) =~= front + back.push(e));
            },
            None => {},
        }
    }
}

/// The entries of two runs of paths, one after the other, are the entries of
/// the first run followed by those of the second.
pub proof fn lemma_entries_concat(
    ps: Seq<Seq<char>>,
    ns: Seq<Option<Seq<char>>>,
    qs: Seq<Seq<char>>,
    ms: Seq<Option<Seq<char>>>,
)
    requires
        ps.len() == ns.len(),
        qs.len() == ms.len(),
    ensures
        enum_entries(ps + qs, ns + ms) == enum_entries(ps, ns) + enum_entries(qs, ms),
{
    lemma_entries_concat_upto(ps, ns, qs, ms, qs.len() as int);
}

/// A path that is no icon is left out of the enum entirely: with it or
/// without it, the entries and the source text are the same.
pub proof fn lemma_rejected_path_left_out(a: Seq<Seq<char>>, p: Seq<char>, b: Seq<Seq<char>>)
    requires
        !is_icon_path(p),
    ensures
        icon_entries(a + seq![p] + b) == icon_entries(a + b),
        enum_source(icon_entries(a + seq![p] + b)) == enum_source(icon_entries(a + b)),
{
    let name_of = |q: Seq<char>| sanitized(q);
    let na = a.map_values(name_of);
    let nb = b.map_values(name_of);
    let np = seq![p].map_values(name_of);
    assert((a + seq![p] + b).map_values(name_of) =~= na + np + nb);
    assert((a + b).map_values(name_of) =~= na + nb);
    lemma_entries_concat(a + seq![p], na + np, b, nb);
    lemma_entries_concat(a, na, seq![p], np);
    lemma_entries_concat(a, na, b, nb);
    assert(np[0] is None);
    assert(enum_entries(seq![p], np) == entries_upto(seq![p], np, 0));
    assert(enum_entries(a, na) + enum_entries(seq![p], np) =~= enum_entries(a, na));
}

/// No entry's path holds a backslash.
proof fn lemma_entries_upto_forward_slashes(ps: Seq<Seq<char>>, ns: Seq<Option<Seq<char>>>, n: int)
    requires
        0 <= n <= ps.len(),
        ps.len() == ns.len(),
    ensures
        forall|k: int, j: int|
            0 <= k < entries_upto(ps, ns, n).len() && 0 <= j < entries_upto(ps, ns, n)[k].1.len()
                ==> entries_upto(ps, ns, n)[k].1[j] != '\\',
    decreases n,
{
    if n > 0 {
        lemma_entries_upto_forward_slashes(ps, ns, n - 1);
        let rest = entries_upto(ps, ns, n - 1);
        match ns[n - 1] {
            Some(name) => {
                let e = (name, normalized_path(ps[n - 1]));
                assert forall|j: int| 0 <= j < e.1.len() implies e.1[j] != '\\' by {
                    assert(e.1[j] == (if ps[n - 1][j] == '\\' {
                        '/'
                    } else {
                        ps[n - 1][j]
                    }));
                }
                assert forall|k: int, j: int|
                    0 <= k < rest.push(e).len() && 0 <= j < rest.push(e)[k].1.len() implies rest.push(
                        e,
                    )[k].1[j] != '\\' by {
                    if k < rest.len() {
                        assert(rest.push(e)[k] == rest[k]);
                    }
                }
            },
            None => {},
        }
    }
}

/// Every path in the enum text is written with forward slashes: a backslash
/// of a path becomes `/`, and no other character changes.
pub proof fn lemma_paths_use_forward_slashes(paths: Seq<Seq<char>>)
    ensures
        forall|k: int, j: int|
            0 <= k < icon_entries(paths).len() && 0 <= j < icon_entries(paths)[k].1.len()
                ==> icon_entries(paths)[k].1[j] != '\\',
        forall|p: Seq<char>, j: int|
            0 <= j < p.len() ==> #[trigger] normalized_path(p)[j] == if p[j] == '\\' {
                '/'
            } else {
                p[j]
            },
{
    let ns = paths.map_values(|p: Seq<char>| sanitized(p));
    lemma_entries_upto_forward_slashes(paths, ns, paths.len() as int);
}

/// Searching back for `c` passes over a stretch without `c`.
proof fn lemma_after_last_skip(s: Seq<char>, lo: int, end: int, c: char)
    requires
        0 <= lo <= end <= s.len(),
        forall|i: int| lo <= i < end ==> s[i] != c,
    ensures
        after_last(s, end, c) == after_last(s, lo, c),
    decreases end,
{
    if end > lo {
        lemma_after_last_skip(s, lo, end - 1, c);
    }
}

/// Only the last extension is removed: for a file name `s.e` with no `/`,
/// where `e` holds no `.`, the stem is `s` whatever dots `s` holds (and
/// empty where `s` is), and the extension is `e`.
pub proof fn lemma_only_last_extension_removed(s: Seq<char>, e: Seq<char>)
    requires
        e.len() > 0,
        !s.contains('/'),
        !e.contains('/'),
        !e.contains('.'),
    ensures
        without_extension(s + seq!['.'] + e) == s,
        extension(s + seq!['.'] + e) == Some(e),
{
    let f = s + seq!['.'] + e;
    let n = f.len() as int;
    let k = s.len() as int;
    assert forall|i: int| 0 <= i < n implies f[i] != '/' by {
        if i < k {
            assert(f[i] == s[i]);
        } else if i > k {
            assert(f[i] == e[i - k - 1]);
        }
    }
    lemma_after_last_skip(f, 0, n, '/');
    assert(f.subrange(0, n) =~= f);
    assert(f != seq!['.', '.']) by {
        if f.len() == 2 {
            assert(f[1] == e[0]);
            assert(f[1] != seq!['.', '.'][1]);
        }
    }
    assert(f.len() != seq!['.'].len());
    assert(file_name_span(f, n) == Some((0int, n)));
    assert forall|i: int| k + 1 <= i < n implies f[i] != '.' by {
        assert(f[i] == e[i - k - 1]);
    }
    lemma_after_last_skip(f, k + 1, n, '.');
    assert(f[k] == '.');
    assert(after_last(f, k + 1, '.') == k + 1);
    assert(f.subrange(0, k) =~= s);
    assert(f.subrange(k + 1, n) =~= e);
}

proof fn lemma_first_base_found(c: char, d: Seq<char>, from: int, i: int)
    requires
        0 <= from <= i < d.len(),
        !is_combining_mark(d[i]),
    ensures
        !is_combining_mark(first_base_from(c, d, from)),
        d.contains(first_base_from(c, d, from)),
    decreases i - from,
{
    if is_combining_mark(d[from]) {
        lemma_first_base_found(c, d, from + 1, i);
    } else {
        assert(d[from] == first_base_from(c, d, from));
    }
}

} // verus!
