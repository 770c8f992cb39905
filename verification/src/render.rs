//! The tree renderer: a source tree becomes an HTML tree. Each file's
//! markdown is converted and wrapped in the page template; a directory's
//! page comes from its `README.md`, or from the generated listing of its
//! children when it has none. Every node's output path is computed from its
//! lineage and name.

use vstd::prelude::*;

use crate::listing::directory_list_html_spec;
use crate::node::Ancestor;
use crate::node::AncestorView;
use crate::node::HtmlContent;
use crate::node::HtmlContentView;
use crate::node::HtmlNode;
use crate::node::HtmlNodeView;
use crate::node::SourceContent;
use crate::node::SourceContentView;
use crate::node::SourceNode;
use crate::node::SourceNodeView;
use crate::node::html_seq_dv;
use crate::node::source_seq_dv;
use crate::paths::file_path_spec;
use crate::templates::wrap_directory_spec;
use crate::templates::wrap_root_spec;

verus! {

broadcast use vstd::seq::group_seq_axioms, vstd::std_specs::vec::group_vec_axioms;

/// The HTML that the markdown converter produces for a given markdown text.
/// The conversion is a fixed function of the text alone; its value is not
/// axiomatized here.
pub uninterp spec fn html_of(text: Seq<char>) -> Seq<char>;

/// Relies on markdown::to_html: compiles markdown text to HTML, totally (it
/// never fails on plain markdown) and as a function of the text alone.
#[verifier::external_body]
fn markdown_to_html(text: &str) -> (r: String)
    ensures
        r@ == html_of(text@),
{
    markdown::to_html(text)
}

/// The ancestor chain of a directory's own contents: the directory itself
/// appended to its lineage. The root directory contributes an empty URL
/// segment; every other directory contributes its own name.
pub open spec fn extend_chain(ancestors: Seq<AncestorView>, name: Seq<char>) -> Seq<
    AncestorView,
> {
    ancestors.push(
        AncestorView {
            name: name,
            path: if ancestors.len() == 0 {
                Seq::empty()
            } else {
                name
            },
        },
    )
}

/// Appends a directory itself to its ancestor chain, for its children.
pub fn extend_ancestors(ancestors: &Vec<Ancestor>, name: &String) -> (r: Vec<Ancestor>)
    ensures
        r.deep_view() == extend_chain(ancestors.deep_view(), name@),
{
    let mut out = crate::node::dup_ancestors(ancestors);
    let seg = if ancestors.len() == 0 {
        String::new()
    } else {
        name.clone()
    };
    out.push(Ancestor { name: name.clone(), path: seg });
    proof {
        assert(out.deep_view() =~= extend_chain(ancestors.deep_view(), name@));
    }
    out
}

/// The rendered form of one source node.
pub open spec fn render_spec(n: SourceNodeView, out_dir: Seq<char>) -> HtmlNodeView
    decreases n, 1int,
{
    let path = file_path_spec(out_dir, n.ancestors, n.file_name);
    match n.content {
        SourceContentView::File { text } => HtmlNodeView {
            path: path,
            content: HtmlContentView::File {
                html: wrap_root_spec(n.ancestors, html_of(text), n.file_name),
            },
        },
        SourceContentView::Dir { readme, children } => {
            let index_html = match readme {
                Some(text) => wrap_root_spec(
                    extend_chain(n.ancestors, n.file_name),
                    html_of(text),
                    "README.md"@,
                ),
                None => wrap_root_spec(
                    n.ancestors,
                    wrap_directory_spec(n.file_name, directory_list_html_spec(children)),
                    n.file_name,
                ),
            };
            HtmlNodeView {
                path: path,
                content: HtmlContentView::Dir {
                    index_html: index_html,
                    children: render_seq(children, out_dir),
                },
            }
        },
    }
}

/// The rendered forms of a child sequence, in order.
pub open spec fn render_seq(s: Seq<SourceNodeView>, out_dir: Seq<char>) -> Seq<HtmlNodeView>
    decreases s, 0int,
{
    if s.len() == 0 {
        Seq::empty()
    } else {
        render_seq(s.drop_last(), out_dir).push(render_spec(s.last(), out_dir))
    }
}

/// Renders one source node, and its subtree, into the HTML tree.
pub fn render(node: &SourceNode, out_dir: &str) -> (r: HtmlNode)
    ensures
        r.dv() == render_spec(node.dv(), out_dir@),
    decreases *node,
{
    let path = crate::paths::file_path(out_dir, &node.ancestors, node.file_name.as_str());
    match &node.content {
        SourceContent::File { text } => {
            let body = markdown_to_html(text.as_str());
            let html = crate::templates::wrap_root(
                &node.ancestors,
                body.as_str(),
                node.file_name.as_str(),
            );
            HtmlNode { path, content: HtmlContent::File { html } }
        },
        SourceContent::Dir { readme, children } => {
            let index_body: String = match readme {
                Some(text) => {
                    let converted = markdown_to_html(text.as_str());
                    let ext = extend_ancestors(&node.ancestors, &node.file_name);
                    crate::templates::wrap_root(&ext, converted.as_str(), "README.md")
                },
                None => {
                    let listing = crate::listing::directory_list_html(children);
                    let wrapped = crate::templates::wrap_directory(
                        node.file_name.as_str(),
                        listing.as_str(),
                    );
                    crate::templates::wrap_root(
                        &node.ancestors,
                        wrapped.as_str(),
                        node.file_name.as_str(),
                    )
                },
            };
            let ghost cdv = source_seq_dv(children@);
            proof {
                crate::listing::lemma_source_seq_dv(children@);
            }
            let mut out_children: Vec<HtmlNode> = Vec::new();
            let mut i: usize = 0;
            while i < children.len()
                invariant
                    i <= children@.len(),
                    cdv == source_seq_dv(children@),
                    cdv.len() == children@.len(),
                    forall|j: int| 0 <= j < children@.len() ==> cdv[j] == children@[j].dv(),
                    html_seq_dv(out_children@) == render_seq(cdv.take(i as int), out_dir@),
                    forall|j: int|
                        0 <= j < children@.len() ==> (decreases_to!(*node => children@[j])),
                decreases children@.len() - i,
            {
                let ghost prev = out_children@;
                let child = render(&children[i], out_dir);
                out_children.push(child);
                proof {
                    assert(html_seq_dv(out_children@) =~= html_seq_dv(prev).push(
                        render_spec(cdv[i as int], out_dir@),
                    )) by {
                        assert(out_children@.drop_last() =~= prev);
                    }
                    assert(cdv.take(i + 1 as int).drop_last() =~= cdv.take(i as int));
                    assert(html_seq_dv(out_children@) =~= render_seq(cdv.take(i + 1 as int), out_dir@));
                }
                i = i + 1;
            }
            proof {
                assert(cdv.take(cdv.len() as int) =~= cdv);
            }
            HtmlNode {
                path,
                content: HtmlContent::Dir { index_html: index_body, children: out_children },
            }
        },
    }
}

} // verus!
