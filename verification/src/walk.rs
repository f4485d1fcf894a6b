//! Which files of a library root are analyzed.
//!
//! Walking the directory tree is the caller's business; the rule that picks
//! the files is here.

use crate::analyzer::{file_kind, kind_of, FileKind};
use crate::text::{lemma_views_push, starts_with, str_eq, views};
use vstd::prelude::*;

verus! {

/// Whether a path component is hidden: it begins with a dot and is not
/// `.venv`.
pub open spec fn is_hidden(component: Seq<char>) -> bool {
    "."@.is_prefix_of(component) && component != ".venv"@
}

/// Whether one of the first `n` components is hidden.
pub open spec fn any_hidden(components: Seq<Seq<char>>, n: int) -> bool
    decreases n,
{
    if n <= 0 {
        false
    } else {
        any_hidden(components, n - 1) || is_hidden(components[n - 1])
    }
}

/// Whether a file, given by the components of its path, is analyzed: no
/// directory on the way to it is hidden, and the file name, the last
/// component, ends in `.py` or `.pic.yml`.
pub open spec fn analyzable(components: Seq<Seq<char>>) -> bool {
    components.len() > 0 && !any_hidden(components, components.len() - 1) && kind_of(
        components.last(),
    ) != FileKind::Other
}

/// Whether a path component is hidden.
pub fn is_hidden_component(component: &str) -> (r: bool)
    ensures
        r == is_hidden(component@),
{
    starts_with(component, ".") && !str_eq(component, ".venv")
}

/// Whether a file, given by the components of its path, is analyzed.
pub fn is_analyzable(components: &Vec<String>) -> (r: bool)
    ensures
        r == analyzable(views(components@)),
{
    if components.len() == 0 {
        return false;
    }
    let directories: usize = components.len() - 1;
    let mut i: usize = 0;
    while i < directories
        invariant
            i <= directories,
            directories == components.len() - 1,
            !any_hidden(views(components@), i as int),
        decreases directories - i,
    {
        if is_hidden_component(components[i].as_str()) {
            proof {
                lemma_hidden_stays(views(components@), i + 1, directories as int);
            }
            return false;
        }
        i += 1;
    }
    let kind = file_kind(components[components.len() - 1].as_str());
    match kind {
        FileKind::Other => false,
        _ => true,
    }
}

proof fn lemma_hidden_stays(components: Seq<Seq<char>>, n: int, m: int)
    requires
        n <= m,
        any_hidden(components, n),
    ensures
        any_hidden(components, m),
    decreases m - n,
{
    if n < m {
        lemma_hidden_stays(components, n, m - 1);
    }
}

/// What `Path::components` makes of a path: the names of its components, in
/// order.
pub uninterp spec fn path_components(path: Seq<char>) -> Seq<Seq<char>>;

/// `std::path::Path::components` on a path given as text, each component as
/// text. The result is a function of the path alone and is named
/// `path_components`; nothing else is claimed of it.
#[verifier::external_body]
fn components(path: &str) -> (r: Vec<String>)
    ensures
        views(r@) == path_components(path@),
{
    std::path::Path::new(path).components().map(
        |c| c.as_os_str().to_str().unwrap_or("").to_string(),
    ).collect()
}

/// The analyzed files among the first `n` paths, in order.
pub open spec fn select_analyzable(paths: Seq<Seq<char>>, n: int) -> Seq<Seq<char>>
    decreases n,
{
    if n <= 0 {
        Seq::empty()
    } else if analyzable(path_components(paths[n - 1])) {
        select_analyzable(paths, n - 1).push(paths[n - 1])
    } else {
        select_analyzable(paths, n - 1)
    }
}

/// Picks the files to analyze from the files found below a library root.
pub fn find_analyzable_files(candidates: &Vec<String>) -> (r: Vec<String>)
    ensures
        views(r@) == select_analyzable(views(candidates@), candidates@.len() as int),
{
    let mut files: Vec<String> = Vec::new();
    let mut i: usize = 0;
    proof {
        assert(views(files@) =~= Seq::empty());
    }
    while i < candidates.len()
        invariant
            i <= candidates.len(),
            views(files@) == select_analyzable(views(candidates@), i as int),
        decreases candidates.len() - i,
    {
        let parts = components(candidates[i].as_str());
        if is_analyzable(&parts) {
            proof {
                lemma_views_push(files@, candidates@[i as int]);
            }
            files.push(candidates[i].clone());
        }
        i += 1;
    }
    files
}

} // verus!
