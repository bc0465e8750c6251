use vstd::prelude::*;

verus! {

/// `s` begins with `p`.
pub open spec fn has_prefix(s: Seq<char>, p: Seq<char>) -> bool {
    p.len() <= s.len() && s.take(p.len() as int) == p
}

/// The logical path of a relative path: every `;` becomes `:`.
pub open spec fn logical_path(rel: Seq<char>) -> Seq<char> {
    rel.map_values(|c: char| if c == ';' { ':' } else { c })
}

/// Relies on `str::strip_prefix`: the rest of `s` after `p` when `s` begins
/// with `p`, and `None` otherwise.
#[verifier::external_body]
fn strip_prefix<'a>(s: &'a str, p: &str) -> (r: Option<&'a str>)
    ensures
        r is Some <==> has_prefix(s@, p@),
        r matches Some(rest) ==> rest@ == s@.skip(p@.len() as int),
{
    s.strip_prefix(p)
}

/// Relies on `str::replace`: a copy of `s` with every `;` replaced by `:`.
#[verifier::external_body]
fn semicolons_to_colons(s: &str) -> (r: String)
    ensures
        r@ == logical_path(s@),
{
    s.replace(";", ":")
}

/// Relies on `str::starts_with`: whether `s` begins with `p`.
#[verifier::external_body]
fn starts_with(s: &str, p: &str) -> (r: bool)
    ensures
        r == has_prefix(s@, p@),
{
    s.starts_with(p)
}

/// The logical path of `path` below `root`: `None` when `path` does not lie
/// below `root`.
pub fn get_arc_path(root: &str, path: &str) -> (r: Option<String>)
    ensures
        r is Some <==> has_prefix(path@, root@),
        r matches Some(p) ==> p@ == logical_path(path@.skip(root@.len() as int)),
{
    match strip_prefix(path, root) {
        Some(rest) => Some(semicolons_to_colons(rest)),
        None => None,
    }
}

/// Whether the container at this logical path is produced as a stream: the
/// path begins with the reserved prefix `stream`.
pub fn is_stream_path(arc_path: &str) -> (r: bool)
    ensures
        r == has_prefix(arc_path@, "stream"@),
{
    starts_with(arc_path, "stream")
}

} // verus!
