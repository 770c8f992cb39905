//! The tree data model: raw file trees as the filesystem hands them over,
//! source trees with ancestor chains attached, and rendered HTML trees.

use vstd::prelude::*;

verus! {

broadcast use vstd::seq::group_seq_axioms, vstd::std_specs::vec::group_vec_axioms;

/// One step in a node's lineage: a human-readable directory title for
/// breadcrumbs and the URL segment that the directory contributes to output
/// paths (empty for the root).
#[derive(Clone)]
pub struct Ancestor {
    pub name: String,
    pub path: String,
}

/// The mathematical value of an [`Ancestor`].
pub ghost struct AncestorView {
    pub name: Seq<char>,
    pub path: Seq<char>,
}

impl View for Ancestor {
    type V = AncestorView;

    open spec fn view(&self) -> AncestorView {
        AncestorView { name: self.name@, path: self.path@ }
    }
}

impl DeepView for Ancestor {
    type V = AncestorView;

    open spec fn deep_view(&self) -> AncestorView {
        self.view()
    }
}

impl Ancestor {
    /// An explicit copy; the contract pins the copied value, which a derived
    /// `Clone` would not.
    pub fn dup(&self) -> (r: Ancestor)
        ensures
            r@ == self@,
    {
        Ancestor { name: self.name.clone(), path: self.path.clone() }
    }
}

/// Copies a whole ancestor chain.
pub fn dup_ancestors(ancestors: &Vec<Ancestor>) -> (r: Vec<Ancestor>)
    ensures
        r.deep_view() == ancestors.deep_view(),
{
    let mut out: Vec<Ancestor> = Vec::new();
    let mut i: usize = 0;
    while i < ancestors.len()
        invariant
            i <= ancestors.len(),
            out.deep_view() == ancestors.deep_view().take(i as int),
        decreases ancestors.len() - i,
    {
        let ghost prev = out.deep_view();
        out.push(ancestors[i].dup());
        proof {
            assert(out.deep_view() =~= prev.push(ancestors.deep_view()[i as int]));
            assert(out.deep_view() =~= ancestors.deep_view().take(i + 1 as int));
        }
        i = i + 1;
    }
    proof {
        assert(ancestors.deep_view().take(ancestors.len() as int) =~= ancestors.deep_view());
    }
    out
}

/// A file tree exactly as the filesystem hands it over: names and raw text,
/// no lineage yet. A directory's `README.md`, when present, is carried apart
/// from the children.
pub enum RawNode {
    File { name: String, text: String },
    Dir { name: String, readme: Option<String>, children: Vec<RawNode> },
}

/// The mathematical value of a [`RawNode`].
pub ghost enum RawNodeView {
    File { name: Seq<char>, text: Seq<char> },
    Dir { name: Seq<char>, readme: Option<Seq<char>>, children: Seq<RawNodeView> },
}

impl RawNode {
    /// The mathematical value of this node.
    pub open spec fn dv(self) -> RawNodeView
        decreases self, 1int,
    {
        match self {
            RawNode::File { name, text } => RawNodeView::File { name: name@, text: text@ },
            RawNode::Dir { name, readme, children } => RawNodeView::Dir {
                name: name@,
                readme: match readme {
                    Some(t) => Some(t@),
                    None => None,
                },
                children: raw_seq_dv(children@),
            },
        }
    }
}

/// The mathematical values of a sequence of raw nodes, element by element.
pub open spec fn raw_seq_dv(s: Seq<RawNode>) -> Seq<RawNodeView>
    decreases s, 0int,
{
    if s.len() == 0 {
        Seq::empty()
    } else {
        raw_seq_dv(s.drop_last()).push(s.last().dv())
    }
}

/// A source tree node: the raw content plus the node's own segment name and
/// its lineage from the root down to (excluding) itself.
pub struct SourceNode {
    pub file_name: String,
    pub ancestors: Vec<Ancestor>,
    pub content: SourceContent,
}

/// The content of a [`SourceNode`]: markdown text for a file, an optional
/// `README.md` body plus children for a directory.
pub enum SourceContent {
    File { text: String },
    Dir { readme: Option<String>, children: Vec<SourceNode> },
}

/// The mathematical value of a [`SourceNode`].
pub ghost struct SourceNodeView {
    pub file_name: Seq<char>,
    pub ancestors: Seq<AncestorView>,
    pub content: SourceContentView,
}

/// The mathematical value of a [`SourceContent`].
pub ghost enum SourceContentView {
    File { text: Seq<char> },
    Dir { readme: Option<Seq<char>>, children: Seq<SourceNodeView> },
}

impl SourceNode {
    /// The mathematical value of this node.
    pub open spec fn dv(self) -> SourceNodeView
        decreases self, 1int,
    {
        SourceNodeView {
            file_name: self.file_name@,
            ancestors: self.ancestors.deep_view(),
            content: self.content.dv(),
        }
    }
}

impl SourceContent {
    /// The mathematical value of this content.
    pub open spec fn dv(self) -> SourceContentView
        decreases self, 1int,
    {
        match self {
            SourceContent::File { text } => SourceContentView::File { text: text@ },
            SourceContent::Dir { readme, children } => SourceContentView::Dir {
                readme: match readme {
                    Some(t) => Some(t@),
                    None => None,
                },
                children: source_seq_dv(children@),
            },
        }
    }
}

/// The mathematical values of a sequence of source nodes, element by element.
pub open spec fn source_seq_dv(s: Seq<SourceNode>) -> Seq<SourceNodeView>
    decreases s, 2int,
{
    if s.len() == 0 {
        Seq::empty()
    } else {
        source_seq_dv(s.drop_last()).push(s.last().dv())
    }
}

/// A rendered tree node: the finished page HTML and the node's computed
/// output path (the output root followed by the node's relative path).
pub struct HtmlNode {
    pub path: String,
    pub content: HtmlContent,
}

/// The content of an [`HtmlNode`]: a single page for a file, an index page
/// plus children for a directory.
pub enum HtmlContent {
    File { html: String },
    Dir { index_html: String, children: Vec<HtmlNode> },
}

/// The mathematical value of an [`HtmlNode`].
pub ghost struct HtmlNodeView {
    pub path: Seq<char>,
    pub content: HtmlContentView,
}

/// The mathematical value of an [`HtmlContent`].
pub ghost enum HtmlContentView {
    File { html: Seq<char> },
    Dir { index_html: Seq<char>, children: Seq<HtmlNodeView> },
}

impl HtmlNode {
    /// The mathematical value of this node.
    pub open spec fn dv(self) -> HtmlNodeView
        decreases self, 1int,
    {
        HtmlNodeView { path: self.path@, content: self.content.dv() }
    }
}

impl HtmlContent {
    /// The mathematical value of this content.
    pub open spec fn dv(self) -> HtmlContentView
        decreases self, 1int,
    {
        match self {
            HtmlContent::File { html } => HtmlContentView::File { html: html@ },
            HtmlContent::Dir { index_html, children } => HtmlContentView::Dir {
                index_html: index_html@,
                children: html_seq_dv(children@),
            },
        }
    }
}

/// The mathematical values of a sequence of HTML nodes, element by element.
pub open spec fn html_seq_dv(s: Seq<HtmlNode>) -> Seq<HtmlNodeView>
    decreases s, 0int,
{
    if s.len() == 0 {
        Seq::empty()
    } else {
        html_seq_dv(s.drop_last()).push(s.last().dv())
    }
}

} // verus!
