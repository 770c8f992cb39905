//! The materializer's plan: the HTML tree flattened into an ordered list of
//! filesystem steps. A file node becomes one write; a directory node becomes
//! a directory creation, a write of its index page, and then its children's
//! steps, in order. The caller performs the steps one by one and stops at
//! the first failure.

use vstd::prelude::*;

use crate::node::HtmlContent;
use crate::node::HtmlContentView;
use crate::node::HtmlNode;
use crate::node::HtmlNodeView;
use crate::node::RawNode;
use crate::node::RawNodeView;
use crate::node::html_seq_dv;

verus! {

broadcast use vstd::seq::group_seq_axioms, vstd::std_specs::vec::group_vec_axioms;

/// One filesystem step of a build: create a directory, or write a file with
/// the given text.
#[derive(Debug, PartialEq, Eq)]
pub enum WriteStep {
    MakeDir { path: String },
    WriteFile { path: String, text: String },
}

/// The mathematical value of a [`WriteStep`].
pub ghost enum WriteStepView {
    MakeDir { path: Seq<char> },
    WriteFile { path: Seq<char>, text: Seq<char> },
}

impl View for WriteStep {
    type V = WriteStepView;

    open spec fn view(&self) -> WriteStepView {
        match self {
            WriteStep::MakeDir { path } => WriteStepView::MakeDir { path: path@ },
            WriteStep::WriteFile { path, text } => WriteStepView::WriteFile {
                path: path@,
                text: text@,
            },
        }
    }
}

impl DeepView for WriteStep {
    type V = WriteStepView;

    open spec fn deep_view(&self) -> WriteStepView {
        self.view()
    }
}

/// The steps that materialize one HTML node: its directory and index page,
/// or its single page, then its children's steps.
pub open spec fn plan_spec(n: HtmlNodeView) -> Seq<WriteStepView>
    decreases n, 1int,
{
    match n.content {
        HtmlContentView::File { html } => seq![
            WriteStepView::WriteFile { path: n.path, text: html },
        ],
        HtmlContentView::Dir { index_html, children } => seq![
            WriteStepView::MakeDir { path: n.path },
            WriteStepView::WriteFile { path: n.path + "/index.html"@, text: index_html },
        ] + plan_seq(children),
    }
}

/// The steps of a sequence of HTML nodes, concatenated in order.
pub open spec fn plan_seq(s: Seq<HtmlNodeView>) -> Seq<WriteStepView>
    decreases s, 0int,
{
    if s.len() == 0 {
        Seq::empty()
    } else {
        plan_seq(s.drop_last()) + plan_spec(s.last())
    }
}

/// Flattens one HTML node, and its subtree, into its filesystem steps.
pub fn plan(node: &HtmlNode) -> (r: Vec<WriteStep>)
    ensures
        r.deep_view() == plan_spec(node.dv()),
    decreases *node,
{
    let mut out: Vec<WriteStep> = Vec::new();
    match &node.content {
        HtmlContent::File { html } => {
            out.push(WriteStep::WriteFile { path: node.path.clone(), text: html.clone() });
            proof {
                assert(out.deep_view() =~= plan_spec(node.dv()));
            }
            out
        },
        HtmlContent::Dir { index_html, children } => {
            out.push(WriteStep::MakeDir { path: node.path.clone() });
            let mut index_path = node.path.clone();
            index_path.append("/index.html");
            out.push(WriteStep::WriteFile { path: index_path, text: index_html.clone() });
            let ghost head = out.deep_view();
            let ghost cdv = html_seq_dv(children@);
            proof {
                lemma_html_seq_dv(children@);
                assert(out.deep_view() + plan_seq(cdv.take(0)) =~= out.deep_view());
            }
            let mut i: usize = 0;
            while i < children.len()
                invariant
                    i <= children@.len(),
                    cdv == html_seq_dv(children@),
                    cdv.len() == children@.len(),
                    forall|j: int| 0 <= j < children@.len() ==> cdv[j] == children@[j].dv(),
                    out.deep_view() == head + plan_seq(cdv.take(i as int)),
                    forall|j: int|
                        0 <= j < children@.len() ==> (decreases_to!(*node => children@[j])),
                decreases children@.len() - i,
            {
                let ghost prev = out@;
                let mut sub = plan(&children[i]);
                let ghost subdv = sub.deep_view();
                out.append(&mut sub);
                proof {
                    assert(out.deep_view() =~= prev.map_values(|w: WriteStep| w@) + subdv) by {
                        assert(out@ =~= prev + out@.skip(prev.len() as int));
                        assert(forall|j: int|
                            0 <= j < out@.len() ==> out.deep_view()[j] == out@[j]@);
                        assert(prev.map_values(|w: WriteStep| w@).len() == prev.len());
                    }
                    assert(prev.map_values(|w: WriteStep| w@) =~= head + plan_seq(
                        cdv.take(i as int),
                    ));
                    assert(cdv.take(i + 1 as int).drop_last() =~= cdv.take(i as int));
                    assert(out.deep_view() =~= head + plan_seq(cdv.take(i + 1 as int)));
                }
                i = i + 1;
            }
            proof {
                assert(cdv.take(cdv.len() as int) =~= cdv);
                assert(head =~= plan_spec(node.dv()).take(2));
                assert(plan_spec(node.dv()) =~= head + plan_seq(cdv));
            }
            out
        },
    }
}

/// The element-wise view of an HTML node sequence, index by index.
pub proof fn lemma_html_seq_dv(s: Seq<HtmlNode>)
    ensures
        html_seq_dv(s).len() == s.len(),
        forall|i: int| 0 <= i < s.len() ==> html_seq_dv(s)[i] == s[i].dv(),
    decreases s.len(),
{
    if s.len() > 0 {
        lemma_html_seq_dv(s.drop_last());
        assert(forall|i: int| 0 <= i < s.len() - 1 ==> s.drop_last()[i] == s[i]);
    }
}

/// The whole build as one function of the raw input tree and the output
/// root: ancestor chains attached, every page rendered, the result
/// flattened to filesystem steps.
pub open spec fn build_plan_spec(raw: RawNodeView, out_dir: Seq<char>) -> Seq<WriteStepView> {
    plan_spec(
        crate::render::render_spec(
            crate::load::annotate_spec(raw, Seq::empty()),
            out_dir,
        ),
    )
}

/// Computes the filesystem steps that build the site for a raw input tree.
pub fn build_plan(raw: &RawNode, out_dir: &str) -> (r: Vec<WriteStep>)
    ensures
        r.deep_view() == build_plan_spec(raw.dv(), out_dir@),
{
    let chain: Vec<crate::node::Ancestor> = Vec::new();
    proof {
        assert(chain.deep_view() =~= Seq::<crate::node::AncestorView>::empty());
    }
    let source = crate::load::annotate(raw, chain);
    let rendered = crate::render::render(&source, out_dir);
    plan(&rendered)
}

/// Two builds of the same input against the same output root plan the same
/// steps, byte for byte: the build is a function of its input alone, so an
/// unchanged input rebuilt over a cleared output directory yields an
/// identical output tree.
pub proof fn lemma_build_deterministic(
    raw: RawNodeView,
    out_dir: Seq<char>,
    first: Seq<WriteStepView>,
    second: Seq<WriteStepView>,
)
    requires
        first == build_plan_spec(raw, out_dir),
        second == build_plan_spec(raw, out_dir),
    ensures
        first == second,
{
}

} // verus!
