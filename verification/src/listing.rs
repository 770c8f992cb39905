//! The directory-listing generator: the children of a README-less directory
//! become a `<ul>` of links, sorted lexicographically by raw file name, each
//! entry tagged as a directory or a file.

use vstd::prelude::*;

use crate::node::SourceNode;
use crate::node::SourceNodeView;
use crate::node::source_seq_dv;
use crate::paths::file_name_spec;

verus! {

broadcast use vstd::seq::group_seq_axioms, vstd::std_specs::vec::group_vec_axioms;

/// Strict lexicographic order on character sequences, by code point.
pub open spec fn lex_lt(a: Seq<char>, b: Seq<char>) -> bool
    decreases a.len(),
{
    if b.len() == 0 {
        false
    } else if a.len() == 0 {
        true
    } else if a[0] != b[0] {
        (a[0] as u32) < (b[0] as u32)
    } else {
        lex_lt(a.skip(1), b.skip(1))
    }
}

/// Decides [`lex_lt`] on two string slices.
pub fn lex_lt_exec(a: &str, b: &str) -> (r: bool)
    ensures
        r == lex_lt(a@, b@),
{
    let an = a.unicode_len();
    let bn = b.unicode_len();
    let mut i: usize = 0;
    proof {
        assert(a@.skip(0) =~= a@);
        assert(b@.skip(0) =~= b@);
    }
    loop
        invariant
            an == a@.len(),
            bn == b@.len(),
            i <= an,
            i <= bn,
            lex_lt(a@, b@) == lex_lt(a@.skip(i as int), b@.skip(i as int)),
        decreases an - i,
    {
        if i >= an {
            return i < bn;
        }
        if i >= bn {
            return false;
        }
        let ca = a.get_char(i);
        let cb = b.get_char(i);
        if ca != cb {
            return (ca as u32) < (cb as u32);
        }
        proof {
            assert(a@.skip(i as int).skip(1) =~= a@.skip(i + 1));
            assert(b@.skip(i as int).skip(1) =~= b@.skip(i + 1));
        }
        i = i + 1;
    }
}

/// One line of a directory listing: the child's raw name, whether it is a
/// directory, and its output-relative path.
pub struct ListEntry {
    pub name: String,
    pub is_dir: bool,
    pub href: String,
}

/// The mathematical value of a [`ListEntry`].
pub ghost struct ListEntryView {
    pub name: Seq<char>,
    pub is_dir: bool,
    pub href: Seq<char>,
}

impl View for ListEntry {
    type V = ListEntryView;

    open spec fn view(&self) -> ListEntryView {
        ListEntryView { name: self.name@, is_dir: self.is_dir, href: self.href@ }
    }
}

impl DeepView for ListEntry {
    type V = ListEntryView;

    open spec fn deep_view(&self) -> ListEntryView {
        self.view()
    }
}

/// The listing line that stands for one source child.
pub open spec fn entry_of(n: SourceNodeView) -> ListEntryView {
    ListEntryView {
        name: n.file_name,
        is_dir: n.content is Dir,
        href: file_name_spec(n.ancestors, n.file_name),
    }
}

/// The listing lines of a child sequence, in source order.
pub open spec fn entries_of(s: Seq<SourceNodeView>) -> Seq<ListEntryView> {
    s.map_values(|n: SourceNodeView| entry_of(n))
}

/// Inserts an entry into a name-sorted sequence, after any entry whose name
/// is not greater, keeping the sequence sorted and the insertion stable.
pub open spec fn insert_sorted(s: Seq<ListEntryView>, e: ListEntryView) -> Seq<ListEntryView>
    decreases s.len(),
{
    if s.len() == 0 {
        seq![e]
    } else if lex_lt(e.name, s.last().name) {
        insert_sorted(s.drop_last(), e).push(s.last())
    } else {
        s.push(e)
    }
}

/// Stable insertion sort of listing entries by name.
pub open spec fn sort_entries(s: Seq<ListEntryView>) -> Seq<ListEntryView>
    decreases s.len(),
{
    if s.len() == 0 {
        Seq::empty()
    } else {
        insert_sorted(sort_entries(s.drop_last()), s.last())
    }
}

/// Inserts one entry into a sorted vector of entries.
fn insert_entry(v: Vec<ListEntry>, e: ListEntry) -> (r: Vec<ListEntry>)
    ensures
        r.deep_view() == insert_sorted(v.deep_view(), e@),
    decreases v@.len(),
{
    let mut v = v;
    if v.len() == 0 {
        v.push(e);
        proof {
            assert(v.deep_view() =~= seq![e@]);
        }
        v
    } else if lex_lt_exec(e.name.as_str(), v[v.len() - 1].name.as_str()) {
        let ghost orig = v.deep_view();
        let last = v.pop().unwrap();
        proof {
            assert(v.deep_view() =~= orig.drop_last());
            assert(orig.last() == last@);
        }
        let mut r = insert_entry(v, e);
        r.push(last);
        proof {
            assert(r.deep_view() =~= insert_sorted(orig.drop_last(), e@).push(orig.last()));
        }
        r
    } else {
        let ghost orig = v.deep_view();
        v.push(e);
        proof {
            assert(v.deep_view() =~= orig.push(e@));
        }
        v
    }
}

/// Sorts listing entries by name; equal names keep their source order.
fn sort_entries_exec(v: Vec<ListEntry>) -> (r: Vec<ListEntry>)
    ensures
        r.deep_view() == sort_entries(v.deep_view()),
    decreases v@.len(),
{
    let mut v = v;
    if v.len() == 0 {
        proof {
            assert(v.deep_view() =~= Seq::<ListEntryView>::empty());
        }
        v
    } else {
        let ghost orig = v.deep_view();
        let last = v.pop().unwrap();
        proof {
            assert(v.deep_view() =~= orig.drop_last());
            assert(orig.last() == last@);
        }
        let sorted = sort_entries_exec(v);
        insert_entry(sorted, last)
    }
}

/// Holds when the entries stand in lexicographic order of their names.
pub open spec fn sorted_entries(s: Seq<ListEntryView>) -> bool {
    forall|i: int, j: int| 0 <= i < j < s.len() ==> !lex_lt(s[j].name, s[i].name)
}

/// Distinct characters have distinct code points.
proof fn lemma_char_neq(c: char, d: char)
    requires
        c != d,
    ensures
        (c as u32) != (d as u32),
{
    if (c as u32) == (d as u32) {
        assert(c == d);
    }
}

/// Strict lexicographic order is asymmetric.
proof fn lemma_lex_lt_asym(a: Seq<char>, b: Seq<char>)
    requires
        lex_lt(a, b),
    ensures
        !lex_lt(b, a),
    decreases a.len(),
{
    if b.len() == 0 {
    } else if a.len() == 0 {
    } else if a[0] != b[0] {
    } else {
        lemma_lex_lt_asym(a.skip(1), b.skip(1));
    }
}

/// Lexicographic order is transitive in its non-strict form.
proof fn lemma_lex_le_trans(a: Seq<char>, b: Seq<char>, c: Seq<char>)
    requires
        !lex_lt(b, a),
        !lex_lt(c, b),
    ensures
        !lex_lt(c, a),
    decreases a.len(),
{
    if a.len() == 0 {
    } else if c.len() == 0 {
    } else if b.len() == 0 {
        assert(lex_lt(b, a));
    } else {
        assert((a[0] as u32) <= (b[0] as u32));
        assert((b[0] as u32) <= (c[0] as u32));
        if a[0] == b[0] && b[0] == c[0] {
            lemma_lex_le_trans(a.skip(1), b.skip(1), c.skip(1));
        } else {
            if a[0] != b[0] {
                lemma_char_neq(a[0], b[0]);
            }
            if b[0] != c[0] {
                lemma_char_neq(b[0], c[0]);
            }
            assert((a[0] as u32) < (c[0] as u32));
            assert(a[0] != c[0]);
        }
    }
}

/// Inserting into a sorted entry sequence keeps it sorted, adds exactly the
/// new entry, and invents no entries.
proof fn lemma_insert_sorted_props(s: Seq<ListEntryView>, e: ListEntryView)
    requires
        sorted_entries(s),
    ensures
        sorted_entries(insert_sorted(s, e)),
        insert_sorted(s, e).to_multiset() == s.to_multiset().insert(e),
        forall|k: int|
            0 <= k < insert_sorted(s, e).len() ==> #[trigger] insert_sorted(s, e)[k] == e
                || s.contains(insert_sorted(s, e)[k]),
    decreases s.len(),
{
    broadcast use vstd::seq_lib::group_to_multiset_ensures;

    let r = insert_sorted(s, e);
    if s.len() == 0 {
        assert(r =~= seq![e]);
        assert(Seq::<ListEntryView>::empty().push(e) =~= seq![e]);
        assert(r.to_multiset() =~= s.to_multiset().insert(e));
    } else if lex_lt(e.name, s.last().name) {
        let d = s.drop_last();
        assert(sorted_entries(d)) by {
            assert(forall|i: int, j: int| 0 <= i < j < d.len() ==> d[i] == s[i] && d[j] == s[j]);
        }
        lemma_insert_sorted_props(d, e);
        let q = insert_sorted(d, e);
        assert(r == q.push(s.last()));
        assert(sorted_entries(r)) by {
            lemma_lex_lt_asym(e.name, s.last().name);
            assert(forall|k: int| 0 <= k < q.len() ==> !lex_lt(s.last().name, (#[trigger] q[k]).name))
                by {
                assert(forall|k: int|
                    0 <= k < q.len() ==> #[trigger] q[k] == e || d.contains(q[k]));
                assert(forall|j: int|
                    0 <= j < d.len() ==> !lex_lt(s.last().name, (#[trigger] d[j]).name)) by {
                    assert(forall|j: int|
                        0 <= j < d.len() ==> d[j] == s[j] && s.last() == s[s.len() - 1]);
                }
            }
            assert(forall|i: int, j: int|
                0 <= i < j < r.len() && j < q.len() ==> r[i] == q[i] && r[j] == q[j]);
            assert(forall|i: int| 0 <= i < q.len() ==> r[i] == q[i]);
            assert(r[r.len() - 1] == s.last());
        }
        assert(r.to_multiset() =~= s.to_multiset().insert(e)) by {
            assert(q.push(s.last()).to_multiset() =~= q.to_multiset().insert(s.last()));
            assert(d.push(s.last()) =~= s);
            assert(d.push(s.last()).to_multiset() =~= d.to_multiset().insert(s.last()));
        }
        assert(forall|k: int| 0 <= k < r.len() ==> #[trigger] r[k] == e || s.contains(r[k])) by {
            assert(forall|k: int| 0 <= k < q.len() ==> #[trigger] q[k] == e || d.contains(q[k]));
            assert(forall|j: int| 0 <= j < d.len() ==> #[trigger] d[j] == s[j]);
            assert(forall|k: int| 0 <= k < q.len() ==> r[k] == q[k]);
            assert(r[r.len() - 1] == s[s.len() - 1]);
        }
    } else {
        assert(r == s.push(e));
        assert(sorted_entries(r)) by {
            assert(forall|i: int|
                0 <= i < s.len() ==> !lex_lt(e.name, (#[trigger] s[i]).name)) by {
                assert(forall|i: int|
                    0 <= i < s.len() - 1 ==> !lex_lt(s.last().name, (#[trigger] s[i]).name)) by {
                    assert(s.last() == s[s.len() - 1]);
                }
                assert forall|i: int| 0 <= i < s.len() implies !lex_lt(
                    e.name,
                    (#[trigger] s[i]).name,
                ) by {
                    if i < s.len() - 1 {
                        lemma_lex_le_trans(s[i].name, s.last().name, e.name);
                    }
                }
            }
            assert(forall|i: int, j: int|
                0 <= i < j < r.len() && j < s.len() ==> r[i] == s[i] && r[j] == s[j]);
            assert(forall|i: int| 0 <= i < s.len() ==> r[i] == s[i]);
            assert(r[r.len() - 1] == e);
        }
        assert(r.to_multiset() =~= s.to_multiset().insert(e));
    }
}

/// The generated listing order is lawful: sorting the entries yields the
/// same entries, as a multiset, standing in lexicographic order of their
/// raw names.
pub proof fn lemma_sort_entries_sorted(s: Seq<ListEntryView>)
    ensures
        sorted_entries(sort_entries(s)),
        sort_entries(s).to_multiset() == s.to_multiset(),
    decreases s.len(),
{
    broadcast use vstd::seq_lib::group_to_multiset_ensures;

    if s.len() == 0 {
        assert(sort_entries(s) =~= Seq::<ListEntryView>::empty());
    } else {
        let d = s.drop_last();
        lemma_sort_entries_sorted(d);
        lemma_insert_sorted_props(sort_entries(d), s.last());
        assert(sort_entries(s).to_multiset() =~= s.to_multiset()) by {
            assert(d.push(s.last()) =~= s);
            assert(d.push(s.last()).to_multiset() =~= d.to_multiset().insert(s.last()));
        }
    }
}

/// One `<li>` line of a listing: a link to the child's page, tagged with the
/// listing class of the child's kind.
pub open spec fn li_frag(e: ListEntryView) -> Seq<char> {
    "<li class=\""@ + (if e.is_dir {
        "directory-listing"@
    } else {
        "file-listing"@
    }) + "\"><a href=\"/"@ + e.href + "\">"@ + e.name + "</a></li>"@
}

/// The `<li>` lines of a listing, in order.
pub open spec fn listing_body(s: Seq<ListEntryView>) -> Seq<char>
    decreases s.len(),
{
    if s.len() == 0 {
        Seq::empty()
    } else {
        listing_body(s.drop_last()) + li_frag(s.last())
    }
}

/// A directory's generated listing markup: its children sorted by name, one
/// line each, inside a `<ul>`.
pub open spec fn directory_list_html_spec(children: Seq<SourceNodeView>) -> Seq<char> {
    "<ul>"@ + listing_body(sort_entries(entries_of(children))) + "</ul>"@
}

/// The element-wise view of a node sequence, index by index.
pub proof fn lemma_source_seq_dv(s: Seq<SourceNode>)
    ensures
        source_seq_dv(s).len() == s.len(),
        forall|i: int| 0 <= i < s.len() ==> source_seq_dv(s)[i] == s[i].dv(),
    decreases s.len(),
{
    if s.len() > 0 {
        lemma_source_seq_dv(s.drop_last());
        assert(forall|i: int| 0 <= i < s.len() - 1 ==> s.drop_last()[i] == s[i]);
    }
}

/// Appends the `<li>` line of one entry to `out`.
fn push_li(out: &mut String, e: &ListEntry)
    ensures
        final(out)@ == old(out)@ + li_frag(e@),
{
    out.append("<li class=\"");
    if e.is_dir {
        out.append("directory-listing");
    } else {
        out.append("file-listing");
    }
    out.append("\"><a href=\"/");
    out.append(e.href.as_str());
    out.append("\">");
    out.append(e.name.as_str());
    out.append("</a></li>");
}

/// Renders the auto-generated listing of a directory's children: one linked
/// line per child, sorted lexicographically by raw name, directories and
/// files tagged apart but interleaved in one order. With no children the
/// body is an empty `<ul></ul>`.
pub fn directory_list_html(nodes: &Vec<SourceNode>) -> (r: String)
    ensures
        r@ == directory_list_html_spec(source_seq_dv(nodes@)),
        nodes@.len() == 0 ==> r@ == "<ul></ul>"@,
{
    proof {
        lemma_source_seq_dv(nodes@);
    }
    let ghost children = source_seq_dv(nodes@);
    let mut entries: Vec<ListEntry> = Vec::new();
    let mut i: usize = 0;
    while i < nodes.len()
        invariant
            i <= nodes@.len(),
            children == source_seq_dv(nodes@),
            children.len() == nodes@.len(),
            forall|j: int| 0 <= j < nodes@.len() ==> children[j] == nodes@[j].dv(),
            entries.deep_view() == entries_of(children.take(i as int)),
        decreases nodes@.len() - i,
    {
        let node = &nodes[i];
        let is_dir = match &node.content {
            crate::node::SourceContent::Dir { .. } => true,
            crate::node::SourceContent::File { .. } => false,
        };
        let ghost prev = entries.deep_view();
        entries.push(
            ListEntry {
                name: node.file_name.clone(),
                is_dir,
                href: crate::paths::file_name(&node.ancestors, node.file_name.as_str()),
            },
        );
        proof {
            assert(entries.deep_view() =~= prev.push(entry_of(children[i as int])));
            assert(entries.deep_view() =~= entries_of(children.take(i + 1 as int)));
        }
        i = i + 1;
    }
    proof {
        assert(children.take(children.len() as int) =~= children);
    }
    let sorted = sort_entries_exec(entries);
    let ghost sv = sort_entries(entries_of(children));
    let mut out = String::from_str("<ul>");
    let mut k: usize = 0;
    proof {
        assert(listing_body(sv.take(0)) =~= Seq::<char>::empty());
        assert(out@ + listing_body(sv.take(0)) =~= out@);
    }
    while k < sorted.len()
        invariant
            k <= sorted@.len(),
            sorted.deep_view() == sv,
            sorted@.len() == sv.len(),
            out@ == "<ul>"@ + listing_body(sv.take(k as int)),
        decreases sorted@.len() - k,
    {
        push_li(&mut out, &sorted[k]);
        proof {
            assert(sv.take(k + 1 as int).drop_last() =~= sv.take(k as int));
            assert(sv.take(k + 1 as int).last() == sorted[k as int]@);
        }
        k = k + 1;
    }
    out.append("</ul>");
    proof {
        assert(sv.take(sv.len() as int) =~= sv);
    }
    if nodes.len() == 0 {
        proof {
            reveal_strlit("<ul>");
            reveal_strlit("</ul>");
            reveal_strlit("<ul></ul>");
            assert(sort_entries(entries_of(children)) =~= Seq::<ListEntryView>::empty());
            assert(out@ =~= "<ul></ul>"@);
        }
    }
    out
}

} // verus!
