//! The last component of a path, and its stem and extension, with `/` as the
//! separator. The extension is what follows the last `.` of the file name, so
//! `.gitignore` has an empty stem.
use vstd::prelude::*;

verus! {

/// The index just past the last `c` among `s[..end]`, or 0 where there is none.
pub open spec fn after_last(s: Seq<char>, end: int, c: char) -> int
    decreases end,
{
    if end <= 0 {
        0
    } else if s[end - 1] == c {
        end
    } else {
        after_last(s, end - 1, c)
    }
}

/// Where the last component of `p[..end]` lies. Empty components and `.`
/// components are skipped; a last component `..` has no name.
pub open spec fn file_name_span(p: Seq<char>, end: int) -> Option<(int, int)>
    decreases end,
{
    let start = after_last(p, end, '/');
    let seg = p.subrange(start, end);
    if end <= 0 || start > end {
        None
    } else if seg == seq!['.', '.'] {
        None
    } else if seg.len() == 0 || seg == seq!['.'] {
        if start <= 0 {
            None
        } else {
            file_name_span(p, start - 1)
        }
    } else {
        Some((start, end))
    }
}

/// The file name of path `p`: its last component, if it is a name.
pub open spec fn file_name(p: Seq<char>) -> Option<Seq<char>> {
    match file_name_span(p, p.len() as int) {
        Some(span) => Some(p.subrange(span.0, span.1)),
        None => None,
    }
}

/// The index of the last `.` of file name `f`, or -1.
pub open spec fn dot_index(f: Seq<char>) -> int {
    after_last(f, f.len() as int, '.') - 1
}

/// File name `f` without its extension: what precedes its last `.`, or the
/// whole name where it holds no `.`.
pub open spec fn name_stem(f: Seq<char>) -> Seq<char> {
    if dot_index(f) >= 0 {
        f.subrange(0, dot_index(f))
    } else {
        f
    }
}

/// The extension of file name `f`: what follows its last `.`, if any.
pub open spec fn name_extension(f: Seq<char>) -> Option<Seq<char>> {
    if dot_index(f) >= 0 {
        Some(f.subrange(dot_index(f) + 1, f.len() as int))
    } else {
        None
    }
}

/// The stem of path `p`: its file name without the extension.
pub open spec fn file_stem(p: Seq<char>) -> Option<Seq<char>> {
    match file_name(p) {
        Some(f) => Some(name_stem(f)),
        None => None,
    }
}

/// The extension of path `p`.
pub open spec fn extension(p: Seq<char>) -> Option<Seq<char>> {
    match file_name(p) {
        Some(f) => name_extension(f),
        None => None,
    }
}

/// The index just past the last `c` among `s[..end]`, or 0.
pub fn find_after_last(s: &[char], end: usize, c: char) -> (r: usize)
    requires
        end <= s@.len(),
    ensures
        r as int == after_last(s@, end as int, c),
        r <= end,
{
    let mut k: usize = end;
    while k > 0 && s[k - 1] != c
        invariant
            k <= end <= s@.len(),
            after_last(s@, end as int, c) == after_last(s@, k as int, c),
        decreases k,
    {
        k = k - 1;
    }
    k
}

/// Where the file name of `p` lies, as `(start, end)`.
pub fn find_file_name(p: &[char]) -> (r: Option<(usize, usize)>)
    ensures
        r matches Some(span) ==> span.0 <= span.1 <= p@.len(),
        match r {
            Some(span) => file_name_span(p@, p@.len() as int) == Some((span.0 as int, span.1 as int)),
            None => file_name_span(p@, p@.len() as int) is None,
        },
{
    let mut end: usize = p.len();
    loop
        invariant
            end <= p@.len(),
            file_name_span(p@, p@.len() as int) == file_name_span(p@, end as int),
        decreases end,
    {
        let start = find_after_last(p, end, '/');
        let ghost seg = p@.subrange(start as int, end as int);
        if end == 0 {
            return None;
        }
        let len = end - start;
        if len == 2 && p[start] == '.' && p[start + 1] == '.' {
            assert(seg =~= seq!['.', '.']);
            return None;
        }
        if len == 0 || (len == 1 && p[start] == '.') {
            assert(len == 1 ==> seg =~= seq!['.']);
            assert(seg.len() != seq!['.', '.'].len());
            if start == 0 {
                return None;
            }
            end = start - 1;
        } else {
            assert(seg != seq!['.', '.']) by {
                if len == 2 {
                    assert(seg[0] != seq!['.', '.'][0] || seg[1] != seq!['.', '.'][1]);
                } else {
                    assert(seg.len() != seq!['.', '.'].len());
                }
            }
            assert(seg != seq!['.']) by {
                if len == 1 {
                    assert(seg[0] != seq!['.'][0]);
                } else {
                    assert(seg.len() != seq!['.'].len());
                }
            }
            return Some((start, end));
        }
    }
}

} // verus!
