//! The breadcrumb renderer: an ancestor chain and the current file name
//! become a navigation fragment of links, with the page's own entry as a
//! plain label.

use vstd::prelude::*;

use crate::node::Ancestor;
use crate::node::AncestorView;

verus! {

broadcast use vstd::seq::group_seq_axioms, vstd::std_specs::vec::group_vec_axioms;

/// An anchor fragment `<a href="{href}">{text}</a>`.
pub open spec fn link_frag(href: Seq<char>, text: Seq<char>) -> Seq<char> {
    "<a href=\""@ + href + "\">"@ + text + "</a>"@
}

/// A plain label fragment `<span>{text}</span>`.
pub open spec fn span_frag(text: Seq<char>) -> Seq<char> {
    "<span>"@ + text + "</span>"@
}

/// The running URL prefix after one more ancestor: `/` plus its segment,
/// appended to the prefix so far. A prefix that is exactly `/` (the root's
/// empty segment) is not doubled.
pub open spec fn crumb_prefix(prev: Seq<char>, path: Seq<char>) -> Seq<char> {
    if prev == "/"@ {
        "/"@ + path
    } else {
        prev + "/"@ + path
    }
}

/// The breadcrumb fragments from ancestor `i` on, given the URL prefix
/// accumulated so far, joined by ` / `. The last ancestor renders as a plain
/// label when the page is that directory's own `README.md`, and as a link
/// followed by a label for the current file otherwise.
pub open spec fn crumbs_from(
    ancestors: Seq<AncestorView>,
    file_name: Seq<char>,
    i: int,
    prev: Seq<char>,
) -> Seq<char>
    recommends
        0 <= i < ancestors.len(),
    decreases ancestors.len() - i,
{
    let np = crumb_prefix(prev, ancestors[i].path);
    if i == ancestors.len() - 1 {
        if file_name == "README.md"@ {
            span_frag(ancestors[i].name)
        } else {
            link_frag(np, ancestors[i].name) + " / "@ + span_frag(file_name)
        }
    } else if i < ancestors.len() - 1 {
        link_frag(np, ancestors[i].name) + " / "@ + crumbs_from(ancestors, file_name, i + 1, np)
    } else {
        Seq::empty()
    }
}

/// The whole breadcrumb fragment of a page: empty for the root page.
pub open spec fn breadcrumbs_spec(ancestors: Seq<AncestorView>, file_name: Seq<char>) -> Seq<
    char,
> {
    if ancestors.len() == 0 {
        Seq::empty()
    } else {
        crumbs_from(ancestors, file_name, 0, Seq::empty())
    }
}

/// Extends the running URL prefix by one ancestor segment.
fn push_prefix(prev: &mut String, path: &str)
    ensures
        final(prev)@ == crumb_prefix(old(prev)@, path@),
{
    if crate::paths::eq_str(prev.as_str(), "/") {
        let mut np = String::from_str("/");
        np.append(path);
        *prev = np;
    } else {
        prev.append("/");
        prev.append(path);
    }
}

/// Appends `<a href="{href}">{text}</a>` to `out`.
fn push_link(out: &mut String, href: &str, text: &str)
    ensures
        final(out)@ == old(out)@ + link_frag(href@, text@),
{
    out.append("<a href=\"");
    out.append(href);
    out.append("\">");
    out.append(text);
    out.append("</a>");
}

/// Appends `<span>{text}</span>` to `out`.
fn push_span(out: &mut String, text: &str)
    ensures
        final(out)@ == old(out)@ + span_frag(text@),
{
    out.append("<span>");
    out.append(text);
    out.append("</span>");
}

/// Renders the breadcrumb navigation fragment for a page with the given
/// lineage and file name.
pub fn breadcrumbs_html(ancestors: &Vec<Ancestor>, file_name: &str) -> (r: String)
    ensures
        r@ == breadcrumbs_spec(ancestors.deep_view(), file_name@),
{
    let ghost dv = ancestors.deep_view();
    let n = ancestors.len();
    let mut res = String::new();
    if n == 0 {
        return res;
    }
    let mut prev = String::new();
    let mut i: usize = 0;
    while i < n - 1
        invariant
            n == ancestors@.len(),
            ancestors@.len() == dv.len(),
            dv == ancestors.deep_view(),
            n >= 1,
            i <= n - 1,
            breadcrumbs_spec(dv, file_name@) == res@ + crumbs_from(dv, file_name@, i as int, prev@),
        decreases n - 1 - i,
    {
        push_prefix(&mut prev, ancestors[i].path.as_str());
        push_link(&mut res, prev.as_str(), ancestors[i].name.as_str());
        res.append(" / ");
        i = i + 1;
    }
    push_prefix(&mut prev, ancestors[i].path.as_str());
    proof {
        reveal_strlit("README.md");
    }
    if crate::paths::eq_str(file_name, "README.md") {
        push_span(&mut res, ancestors[i].name.as_str());
    } else {
        push_link(&mut res, prev.as_str(), ancestors[i].name.as_str());
        res.append(" / ");
        push_span(&mut res, file_name);
    }
    res
}

} // verus!
