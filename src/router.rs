//! The path router: which files of the static tree serve a request path, in
//! the order they are tried, and the response built from the one that opened.

use vstd::prelude::*;
use crate::text::{chars_of, same_text};
use crate::types::{ContentType, Response};

verus! {

/// Paths that stand for the site root.
pub open spec fn is_root_alias(p: Seq<char>) -> bool {
    p == "/"@ || p == "/index.html"@ || p == "/www/index.html"@ || p == "/www"@
}

/// The files tried for a path, first to last: the root index for a root alias;
/// else the path's own index, the path itself, and the not-found page.
pub open spec fn candidate_files(p: Seq<char>) -> Seq<Seq<char>> {
    if is_root_alias(p) {
        seq!["./www/index.html"@]
    } else {
        seq!["./www"@ + p + "/index.html"@, "./www"@ + p, "./www/not-found/index.html"@]
    }
}

pub open spec fn string_views(v: Seq<String>) -> Seq<Seq<char>> {
    v.map_values(|s: String| s@)
}

pub fn root_alias(path: &str) -> (r: bool)
    ensures
        r == is_root_alias(path@),
{
    let p = chars_of(path);
    same_text(&p, "/") || same_text(&p, "/index.html") || same_text(&p, "/www/index.html")
        || same_text(&p, "/www")
}

/// The files to try for a request path, in order; the first that opens serves it.
pub fn candidate_paths(path: &str) -> (r: Vec<String>)
    ensures
        string_views(r@) == candidate_files(path@),
{
    let mut r: Vec<String> = Vec::new();
    if root_alias(path) {
        r.push(String::from_str("./www/index.html"));
    } else {
        let own_index = String::from_str("./www").concat(path).concat("/index.html");
        let direct = String::from_str("./www").concat(path);
        r.push(own_index);
        r.push(direct);
        r.push(String::from_str("./www/not-found/index.html"));
    }
    assert(string_views(r@) =~= candidate_files(path@));
    r
}

/// The response for page content: status 200 and HTML, whichever file served it.
pub fn page_response(content: String) -> (r: Response)
    ensures
        r.code == 200,
        r.header == ContentType::TextHtml,
        r.content@ == content@,
{
    Response::new(200, ContentType::TextHtml, content)
}

} // verus!
