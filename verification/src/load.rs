//! The pure half of the tree loader: a raw file tree, as read from disk,
//! gets its ancestor chains attached, top down. The chain handed to a
//! directory's children is the directory's own chain extended by itself;
//! the root contributes an empty URL segment.

use vstd::prelude::*;

use crate::node::Ancestor;
use crate::node::AncestorView;
use crate::node::RawNode;
use crate::node::RawNodeView;
use crate::node::SourceContent;
use crate::node::SourceContentView;
use crate::node::SourceNode;
use crate::node::SourceNodeView;
use crate::node::raw_seq_dv;
use crate::node::source_seq_dv;
use crate::render::extend_chain;

verus! {

broadcast use vstd::seq::group_seq_axioms, vstd::std_specs::vec::group_vec_axioms;

/// The source node that a raw node denotes under a given lineage.
pub open spec fn annotate_spec(r: RawNodeView, ancestors: Seq<AncestorView>) -> SourceNodeView
    decreases r, 1int,
{
    match r {
        RawNodeView::File { name, text } => SourceNodeView {
            file_name: name,
            ancestors: ancestors,
            content: SourceContentView::File { text },
        },
        RawNodeView::Dir { name, readme, children } => SourceNodeView {
            file_name: name,
            ancestors: ancestors,
            content: SourceContentView::Dir {
                readme,
                children: annotate_seq(children, extend_chain(ancestors, name)),
            },
        },
    }
}

/// The source nodes that a sequence of raw children denotes, in order.
pub open spec fn annotate_seq(s: Seq<RawNodeView>, ancestors: Seq<AncestorView>) -> Seq<
    SourceNodeView,
>
    decreases s, 0int,
{
    if s.len() == 0 {
        Seq::empty()
    } else {
        annotate_seq(s.drop_last(), ancestors).push(annotate_spec(s.last(), ancestors))
    }
}

/// The element-wise view of a raw node sequence, index by index.
pub proof fn lemma_raw_seq_dv(s: Seq<RawNode>)
    ensures
        raw_seq_dv(s).len() == s.len(),
        forall|i: int| 0 <= i < s.len() ==> raw_seq_dv(s)[i] == s[i].dv(),
    decreases s.len(),
{
    if s.len() > 0 {
        lemma_raw_seq_dv(s.drop_last());
        assert(forall|i: int| 0 <= i < s.len() - 1 ==> s.drop_last()[i] == s[i]);
    }
}

/// Attaches ancestor chains to a raw tree, producing the source tree. The
/// root call passes an empty chain; the raw root's name is the configured
/// root title.
pub fn annotate(raw: &RawNode, ancestors: Vec<Ancestor>) -> (r: SourceNode)
    ensures
        r.dv() == annotate_spec(raw.dv(), ancestors.deep_view()),
    decreases *raw,
{
    match raw {
        RawNode::File { name, text } => SourceNode {
            file_name: name.clone(),
            ancestors,
            content: SourceContent::File { text: text.clone() },
        },
        RawNode::Dir { name, readme, children } => {
            let readme_copy: Option<String> = match readme {
                Some(t) => Some(t.clone()),
                None => None,
            };
            let ext = crate::render::extend_ancestors(&ancestors, name);
            let ghost cdv = raw_seq_dv(children@);
            let ghost extv = ext.deep_view();
            proof {
                lemma_raw_seq_dv(children@);
            }
            let mut out_children: Vec<SourceNode> = Vec::new();
            let mut i: usize = 0;
            while i < children.len()
                invariant
                    i <= children@.len(),
                    cdv == raw_seq_dv(children@),
                    cdv.len() == children@.len(),
                    extv == ext.deep_view(),
                    forall|j: int| 0 <= j < children@.len() ==> cdv[j] == children@[j].dv(),
                    source_seq_dv(out_children@) == annotate_seq(cdv.take(i as int), extv),
                    forall|j: int|
                        0 <= j < children@.len() ==> (decreases_to!(*raw => children@[j])),
                decreases children@.len() - i,
            {
                let ghost prev = out_children@;
                let chain = crate::node::dup_ancestors(&ext);
                let child = annotate(&children[i], chain);
                out_children.push(child);
                proof {
                    assert(source_seq_dv(out_children@) =~= source_seq_dv(prev).push(
                        annotate_spec(cdv[i as int], extv),
                    )) by {
                        assert(out_children@.drop_last() =~= prev);
                    }
                    assert(cdv.take(i + 1 as int).drop_last() =~= cdv.take(i as int));
                    assert(source_seq_dv(out_children@) =~= annotate_seq(
                        cdv.take(i + 1 as int),
                        extv,
                    ));
                }
                i = i + 1;
            }
            proof {
                assert(cdv.take(cdv.len() as int) =~= cdv);
            }
            SourceNode {
                file_name: name.clone(),
                ancestors,
                content: SourceContent::Dir { readme: readme_copy, children: out_children },
            }
        },
    }
}

} // verus!
