//! The source text of the `Icon` enum: its variants, and a `path` method that
//! maps each variant to the path of its file.
use vstd::prelude::*;
use crate::icons::{sanitize_filename, sanitized};
use crate::text::to_chars;

verus! {

/// Declares `std::io::Error`, the error type of `create_enum_text`; no
/// function of this library produces one.
#[verifier::external_type_specification]
#[verifier::external_body]
pub struct ExIoError(std::io::Error);

/// Opens the enum.
pub const ENUM_OPEN: &'static str = "pub enum Icon {";

/// Closes the enum and opens the `path` method's match.
pub const ACCESSOR_OPEN: &'static str = "impl Icon { pub fn path(&self) -> &'static str { match self {";

/// Starts each match arm.
pub const ARM_OPEN: &'static str = "Icon::";

/// Between a match arm's pattern and its value.
pub const ARROW: &'static str = " => ";

/// Between two match arms.
pub const ARM_SEPARATOR: &'static str = ", ";

/// Closes the match, the method and the impl block.
pub const ACCESSOR_CLOSE: &'static str = "}}}";

/// Path `p` with each backslash turned into a forward slash.
pub open spec fn normalized_path(p: Seq<char>) -> Seq<char> {
    p.map_values(|c: char| if c == '\\' { '/' } else { c })
}

/// The entries `(identifier, normalized path)` of the first `n` paths, one
/// for each path whose name is present, in the order of the paths.
pub open spec fn entries_upto(
    paths: Seq<Seq<char>>,
    names: Seq<Option<Seq<char>>>,
    n: int,
) -> Seq<(Seq<char>, Seq<char>)>
    decreases n,
{
    if n <= 0 {
        seq![]
    } else {
        let rest = entries_upto(paths, names, n - 1);
        match names[n - 1] {
            Some(name) => rest.push((name, normalized_path(paths[n - 1]))),
            None => rest,
        }
    }
}

/// The entries of the enum for `paths`, where `names[i]` is the name that
/// `paths[i]` gets, if any.
pub open spec fn enum_entries(paths: Seq<Seq<char>>, names: Seq<Option<Seq<char>>>) -> Seq<
    (Seq<char>, Seq<char>),
> {
    entries_upto(paths, names, paths.len() as int)
}

/// The entries of the enum for `paths`, each named by the sanitizer.
pub open spec fn icon_entries(paths: Seq<Seq<char>>) -> Seq<(Seq<char>, Seq<char>)> {
    enum_entries(paths, paths.map_values(|p: Seq<char>| sanitized(p)))
}

/// Each identifier followed by a comma.
pub open spec fn variant_list(es: Seq<(Seq<char>, Seq<char>)>) -> Seq<char>
    decreases es.len(),
{
    if es.len() == 0 {
        seq![]
    } else {
        variant_list(es.drop_last()) + es.last().0 + seq![',']
    }
}

/// The match arm of one entry: `Icon::<identifier> => "<path>"`.
pub open spec fn accessor_arm(e: (Seq<char>, Seq<char>)) -> Seq<char> {
    ARM_OPEN@ + e.0 + ARROW@ + seq!['"'] + e.1 + seq!['"']
}

/// The match arms of the entries, with a separator between two of them.
pub open spec fn accessor_list(es: Seq<(Seq<char>, Seq<char>)>) -> Seq<char>
    decreases es.len(),
{
    if es.len() == 0 {
        seq![]
    } else if es.len() == 1 {
        accessor_arm(es[0])
    } else {
        accessor_list(es.drop_last()) + ARM_SEPARATOR@ + accessor_arm(es.last())
    }
}

/// The whole source text for the entries `es`.
pub open spec fn enum_source(es: Seq<(Seq<char>, Seq<char>)>) -> Seq<char> {
    ENUM_OPEN@ + variant_list(es) + seq!['}'] + ACCESSOR_OPEN@ + accessor_list(es)
        + ACCESSOR_CLOSE@
}

/// `path` with each backslash turned into a forward slash, so that the text
/// reads the same on every platform.
pub fn normalize_path(path: &str) -> (r: String)
    ensures
        r@ == normalized_path(path@),
{
    let p = to_chars(path);
    let mut r = String::new();
    let mut i: usize = 0;
    while i < p.len()
        invariant
            p@ == path@,
            i <= p@.len(),
            r@ == normalized_path(p@.subrange(0, i as int)),
        decreases p@.len() - i,
    {
        if p[i] == '\\' {
            r.push('/');
        } else {
            r.push(p[i]);
        }
        i = i + 1;
        assert(r@ =~= normalized_path(p@.subrange(0, i as int)));
    }
    assert(p@.subrange(0, p@.len() as int) =~= p@);
    r
}

/// The source text of the enum for `paths`, where `names[i]` is the variant
/// name of `paths[i]`, or `None` where that path is left out. Variants and
/// match arms follow the order of `paths`; nothing is sorted or merged, so
/// two paths with the same name give two equal variants, which the caller
/// has to resolve by renaming a file. Match arms are separated by `, `: a
/// path that is left out adds nothing to the text, not even a separator.
pub fn assemble_enum_text(paths: &Vec<String>, names: &Vec<Option<String>>) -> (r: String)
    requires
        paths@.len() == names@.len(),
    ensures
        r@ == enum_source(enum_entries(paths.deep_view(), names.deep_view())),
{
    let ghost ps = paths.deep_view();
    let ghost ns = names.deep_view();
    let mut out = String::new();
    out.append(ENUM_OPEN);
    let mut i: usize = 0;
    while i < paths.len()
        invariant
            paths@.len() == names@.len(),
            ps == paths.deep_view(),
            ns == names.deep_view(),
            i <= paths@.len(),
            out@ == ENUM_OPEN@ + variant_list(entries_upto(ps, ns, i as int)),
        decreases paths@.len() - i,
    {
        let ghost before = entries_upto(ps, ns, i as int);
        match &names[i] {
            Some(name) => {
                out.append(name.as_str());
                out.push(',');
                let ghost e = (name@, normalized_path(paths@[i as int]@));
                assert(entries_upto(ps, ns, i + 1) == before.push(e));
                assert(before.push(e).drop_last() =~= before);
                assert(out@ =~= ENUM_OPEN@ + variant_list(before.push(e)));
            },
            None => {},
        }
        i = i + 1;
    }
    out.push('}');
    out.append(ACCESSOR_OPEN);
    let ghost head = out@;
    let mut i: usize = 0;
    let mut any = false;
    while i < paths.len()
        invariant
            paths@.len() == names@.len(),
            ps == paths.deep_view(),
            ns == names.deep_view(),
            i <= paths@.len(),
            any == (entries_upto(ps, ns, i as int).len() > 0),
            out@ == head + accessor_list(entries_upto(ps, ns, i as int)),
        decreases paths@.len() - i,
    {
        let ghost before = entries_upto(ps, ns, i as int);
        match &names[i] {
            Some(name) => {
                let ghost e = (name@, normalized_path(paths@[i as int]@));
                let ghost mid = out@;
                if any {
                    out.append(ARM_SEPARATOR);
                }
                out.append(ARM_OPEN);
                out.append(name.as_str());
                out.append(ARROW);
                out.push('"');
                let normal = normalize_path(paths[i].as_str());
                out.append(normal.as_str());
                out.push('"');
                assert(entries_upto(ps, ns, i + 1) == before.push(e));
                assert(before.push(e).drop_last() =~= before);
                if any {
                    assert(out@ =~= mid + ARM_SEPARATOR@ + accessor_arm(e));
                } else {
                    assert(before.push(e)[0] == e);
                    assert(out@ =~= mid + accessor_arm(e));
                }
                any = true;
            },
            None => {},
        }
        i = i + 1;
    }
    out.append(ACCESSOR_CLOSE);
    assert(out@ =~= ENUM_OPEN@ + variant_list(entries_upto(ps, ns, paths@.len() as int)) + seq![
        '}',
    ] + ACCESSOR_OPEN@ + accessor_list(entries_upto(ps, ns, paths@.len() as int))
        + ACCESSOR_CLOSE@);
    out
}

/// The source text of the `Icon` enum for `paths`: a variant for each path
/// that `sanitize_filename` names, and a `path` method that maps it to the
/// path with backslashes turned into forward slashes. Paths that are no icon
/// are left out. This never fails.
pub fn create_enum_text(paths: &Vec<String>) -> (r: Result<String, std::io::Error>)
    ensures
        r matches Ok(text) && text@ == enum_source(icon_entries(paths.deep_view())),
{
    let ghost ps = paths.deep_view();
    let mut names: Vec<Option<String>> = Vec::new();
    let mut i: usize = 0;
    while i < paths.len()
        invariant
            ps == paths.deep_view(),
            i <= paths@.len(),
            names@.len() == i,
            forall|j: int| 0 <= j < i ==> #[trigger] names@[j].deep_view() == sanitized(ps[j]),
        decreases paths@.len() - i,
    {
        let name = sanitize_filename(paths[i].as_str());
        names.push(name);
        i = i + 1;
    }
    assert(names.deep_view() =~= ps.map_values(|p: Seq<char>| sanitized(p)));
    Ok(assemble_enum_text(paths, &names))
}

} // verus!
