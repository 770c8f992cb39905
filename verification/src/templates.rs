//! The two fixed page templates: a page shell around rendered body content
//! and breadcrumb navigation, and a directory-listing body around a
//! directory's name and its generated listing markup.

use vstd::prelude::*;

use crate::breadcrumbs::breadcrumbs_spec;
use crate::node::Ancestor;
use crate::node::AncestorView;

verus! {

broadcast use vstd::seq::group_seq_axioms, vstd::std_specs::vec::group_vec_axioms;

/// The page template applied to a body and the page's breadcrumb fragment.
pub open spec fn wrap_root_spec(
    ancestors: Seq<AncestorView>,
    content: Seq<char>,
    file_name: Seq<char>,
) -> Seq<char> {
    "<!DOCTYPE html><html><body><nav>"@ + breadcrumbs_spec(ancestors, file_name) + "</nav><main>"@
        + content + "</main></body></html>"@
}

/// The directory-listing template applied to a directory name and its
/// generated listing markup.
pub open spec fn wrap_directory_spec(name: Seq<char>, content: Seq<char>) -> Seq<char> {
    "<h1>"@ + name + "</h1>"@ + content
}

/// Wraps rendered body content in the page template, with the breadcrumb
/// navigation for the given lineage and file name.
pub fn wrap_root(ancestors: &Vec<Ancestor>, content: &str, file_name: &str) -> (r: String)
    ensures
        r@ == wrap_root_spec(ancestors.deep_view(), content@, file_name@),
{
    let crumbs = crate::breadcrumbs::breadcrumbs_html(ancestors, file_name);
    let mut out = String::from_str("<!DOCTYPE html><html><body><nav>");
    out.append(crumbs.as_str());
    out.append("</nav><main>");
    out.append(content);
    out.append("</main></body></html>");
    out
}

/// Wraps generated listing markup in the directory-listing template.
pub fn wrap_directory(name: &str, content: &str) -> (r: String)
    ensures
        r@ == wrap_directory_spec(name@, content@),
{
    let mut out = String::from_str("<h1>");
    out.append(name);
    out.append("</h1>");
    out.append(content);
    out
}

} // verus!
