//! The path namer: rewrites markdown file names to their HTML output names
//! (`README.md` becomes `index.html`, any other `.md` becomes `.html`) and
//! joins ancestor path segments into output-relative paths.

use vstd::prelude::*;

use crate::node::Ancestor;
use crate::node::AncestorView;

verus! {

broadcast use vstd::seq::group_seq_axioms, vstd::std_specs::vec::group_vec_axioms;

/// Holds when `suf` is a suffix of `s`.
pub open spec fn ends_with(s: Seq<char>, suf: Seq<char>) -> bool {
    suf.len() <= s.len() && s.subrange(s.len() - suf.len(), s.len() as int) == suf
}

/// The text of `s` with every occurrence of `.md`, scanning left to right,
/// replaced by `.html`.
pub open spec fn replace_md(s: Seq<char>) -> Seq<char>
    decreases s.len(),
{
    if s.len() == 0 {
        Seq::empty()
    } else if s.len() >= 3 && s.subrange(0, 3) == ".md"@ {
        ".html"@ + replace_md(s.skip(3))
    } else {
        seq![s[0]] + replace_md(s.skip(1))
    }
}

/// The output name of a source file name: a name ending in `README.md` has
/// that suffix replaced by `index.html`; any other name has `.md` replaced
/// by `.html` throughout.
pub open spec fn rewrite_name_spec(name: Seq<char>) -> Seq<char> {
    if ends_with(name, "README.md"@) {
        name.take(name.len() - "README.md"@.len()) + "index.html"@
    } else {
        replace_md(name)
    }
}

/// Joins path segments with `/`, ignoring empty segments, as filesystem path
/// concatenation does.
pub open spec fn join_segs(segs: Seq<Seq<char>>) -> Seq<char>
    decreases segs.len(),
{
    if segs.len() == 0 {
        Seq::empty()
    } else {
        let rest = join_segs(segs.drop_last());
        let last = segs.last();
        if last.len() == 0 {
            rest
        } else if rest.len() == 0 {
            last
        } else {
            rest + "/"@ + last
        }
    }
}

/// The segments that make up a node's output-relative path: the ancestor
/// path segments followed by the rewritten file name, with the first entry
/// of the chain (the root, whose segment is empty) left out.
pub open spec fn seg_list(ancestors: Seq<AncestorView>, name: Seq<char>) -> Seq<Seq<char>> {
    ancestors.map_values(|a: AncestorView| a.path).push(rewrite_name_spec(name)).skip(1)
}

/// A node's output-relative path, as both filesystem key and URL key.
pub open spec fn file_name_spec(ancestors: Seq<AncestorView>, name: Seq<char>) -> Seq<char> {
    join_segs(seg_list(ancestors, name))
}

/// A node's output filesystem path: the output root, then the relative path.
pub open spec fn file_path_spec(
    out_dir: Seq<char>,
    ancestors: Seq<AncestorView>,
    name: Seq<char>,
) -> Seq<char> {
    let rel = file_name_spec(ancestors, name);
    if rel.len() == 0 {
        out_dir
    } else {
        out_dir + "/"@ + rel
    }
}

/// Holds when `s` opens with the literal `.md`.
pub open spec fn begins_md(s: Seq<char>) -> bool {
    s.len() >= 3 && s.subrange(0, 3) == ".md"@
}

/// Replacement never shortens a name: each `.md` grows by two characters.
proof fn lemma_replace_md_len(s: Seq<char>)
    ensures
        replace_md(s).len() >= s.len(),
    decreases s.len(),
{
    reveal_strlit(".html");
    if s.len() == 0 {
    } else if begins_md(s) {
        lemma_replace_md_len(s.skip(3));
    } else {
        lemma_replace_md_len(s.skip(1));
    }
}

/// A name that ends in `.md` rewrites to one that ends in `.html`.
pub proof fn lemma_replace_md_ends_html(s: Seq<char>)
    requires
        ends_with(s, ".md"@),
    ensures
        ends_with(replace_md(s), ".html"@),
    decreases s.len(),
{
    reveal_strlit(".md");
    reveal_strlit(".html");
    assert(s.len() >= 3);
    assert(s[s.len() - 3] == '.' && s[s.len() - 2] == 'm' && s[s.len() - 1] == 'd') by {
        assert(s.subrange(s.len() - 3, s.len() as int) == ".md"@);
        assert(s.subrange(s.len() - 3, s.len() as int)[0] == '.');
        assert(s.subrange(s.len() - 3, s.len() as int)[1] == 'm');
        assert(s.subrange(s.len() - 3, s.len() as int)[2] == 'd');
    }
    if begins_md(s) {
        assert(s[0] == '.' && s[1] == 'm' && s[2] == 'd') by {
            assert(s.subrange(0, 3)[0] == '.');
            assert(s.subrange(0, 3)[1] == 'm');
            assert(s.subrange(0, 3)[2] == 'd');
        }
        if s.len() == 3 {
            assert(replace_md(s.skip(3)) =~= Seq::<char>::empty());
            assert(replace_md(s) =~= ".html"@);
            assert(ends_with(".html"@, ".html"@)) by {
                assert(".html"@.subrange(0, 5) =~= ".html"@);
            }
        } else if s.len() == 4 {
            assert(false);
        } else if s.len() == 5 {
            assert(false);
        } else {
            assert(ends_with(s.skip(3), ".md"@)) by {
                assert(s.skip(3).subrange(s.len() - 6, s.len() - 3) =~= s.subrange(
                    s.len() - 3,
                    s.len() as int,
                ));
            }
            lemma_replace_md_ends_html(s.skip(3));
            let rest = replace_md(s.skip(3));
            assert(ends_with(".html"@ + rest, ".html"@)) by {
                assert((".html"@ + rest).subrange(
                    (".html"@ + rest).len() - 5,
                    (".html"@ + rest).len() as int,
                ) =~= rest.subrange(rest.len() - 5, rest.len() as int));
            }
        }
    } else {
        assert(s.len() >= 3);
        if s.len() == 3 {
            assert(s.subrange(0, 3) =~= s);
            assert(s.subrange(s.len() - 3, s.len() as int) =~= s);
            assert(false);
        } else {
            assert(ends_with(s.skip(1), ".md"@)) by {
                assert(s.skip(1).subrange(s.len() - 4, s.len() - 1) =~= s.subrange(
                    s.len() - 3,
                    s.len() as int,
                ));
            }
            lemma_replace_md_ends_html(s.skip(1));
            let rest = replace_md(s.skip(1));
            assert(ends_with(seq![s[0]] + rest, ".html"@)) by {
                assert((seq![s[0]] + rest).subrange(
                    (seq![s[0]] + rest).len() - 5,
                    (seq![s[0]] + rest).len() as int,
                ) =~= rest.subrange(rest.len() - 5, rest.len() as int));
            }
        }
    }
}

/// One peeling step of [`replace_md`]: where the target does not open with
/// a dot, the name and the target agree on their first character and the
/// replacement relation carries over to their tails.
proof fn lemma_peel(s: Seq<char>, t: Seq<char>)
    requires
        replace_md(s) == t,
        t.len() > 0,
        t[0] != '.',
    ensures
        s.len() > 0,
        s[0] == t[0],
        !begins_md(s),
        replace_md(s.skip(1)) == t.skip(1),
{
    reveal_strlit(".html");
    if s.len() == 0 {
        assert(false);
    } else if begins_md(s) {
        assert((".html"@ + replace_md(s.skip(3)))[0] == '.');
        assert(false);
    } else {
        assert((seq![s[0]] + replace_md(s.skip(1)))[0] == s[0]);
        assert(t.skip(1) =~= replace_md(s.skip(1))) by {
            assert(forall|j: int|
                0 <= j < replace_md(s.skip(1)).len() ==> t.skip(1)[j] == (seq![s[0]] + replace_md(
                    s.skip(1),
                ))[j + 1]);
        }
    }
}

/// The only names that rewrite to exactly `index.html` are `index.md` and
/// `index.html` itself.
pub proof fn lemma_rewrite_to_index(s: Seq<char>)
    requires
        replace_md(s) == "index.html"@,
    ensures
        s == "index.md"@ || s == "index.html"@,
{
    reveal_strlit("index.html");
    reveal_strlit("index.md");
    reveal_strlit(".md");
    reveal_strlit(".html");
    let t = "index.html"@;
    assert(t.len() == 10);
    lemma_peel(s, t);
    lemma_peel(s.skip(1), t.skip(1));
    assert(s.skip(1).skip(1) =~= s.skip(2));
    assert(t.skip(1).skip(1) =~= t.skip(2));
    lemma_peel(s.skip(2), t.skip(2));
    assert(s.skip(2).skip(1) =~= s.skip(3));
    assert(t.skip(2).skip(1) =~= t.skip(3));
    lemma_peel(s.skip(3), t.skip(3));
    assert(s.skip(3).skip(1) =~= s.skip(4));
    assert(t.skip(3).skip(1) =~= t.skip(4));
    lemma_peel(s.skip(4), t.skip(4));
    assert(s.skip(4).skip(1) =~= s.skip(5));
    assert(t.skip(4).skip(1) =~= t.skip(5));
    let s5 = s.skip(5);
    let t5 = t.skip(5);
    assert(replace_md(s5) == t5);
    assert(t5.len() == 5 && t5[0] == '.');
    assert(s5.len() > 0) by {
        if s5.len() == 0 {
            assert(replace_md(s5).len() == 0);
        }
    }
    if begins_md(s5) {
        let rest = replace_md(s5.skip(3));
        assert(".html"@ + rest == t5);
        assert(rest.len() == 0) by {
            assert((".html"@ + rest).len() == 5 + rest.len());
        }
        assert(s5.skip(3).len() == 0) by {
            lemma_replace_md_len(s5.skip(3));
        }
        assert(s5.len() == 3);
        assert(s5 =~= s5.subrange(0, 3));
        assert(s =~= "index.md"@) by {
            assert(s.len() == 8);
            assert(forall|j: int| 0 <= j < 5 ==> s[j] == t[j]);
            assert(s[5] == s5[0] && s[6] == s5[1] && s[7] == s5[2]);
            assert(s5[0] == ".md"@[0] && s5[1] == ".md"@[1] && s5[2] == ".md"@[2]);
        }
    } else {
        assert(s5[0] == '.' && replace_md(s5.skip(1)) == t5.skip(1)) by {
            assert(!(s5.len() == 0));
            assert((seq![s5[0]] + replace_md(s5.skip(1)))[0] == s5[0]);
            assert(t5.skip(1) =~= replace_md(s5.skip(1))) by {
                assert(forall|j: int|
                    0 <= j < replace_md(s5.skip(1)).len() ==> t5.skip(1)[j] == (seq![s5[0]]
                        + replace_md(s5.skip(1)))[j + 1]);
            }
        }
        assert(s5.skip(1) =~= s.skip(6));
        assert(t5.skip(1) =~= t.skip(6));
        lemma_peel(s.skip(6), t.skip(6));
        assert(s.skip(6).skip(1) =~= s.skip(7));
        assert(t.skip(6).skip(1) =~= t.skip(7));
        lemma_peel(s.skip(7), t.skip(7));
        assert(s.skip(7).skip(1) =~= s.skip(8));
        assert(t.skip(7).skip(1) =~= t.skip(8));
        lemma_peel(s.skip(8), t.skip(8));
        assert(s.skip(8).skip(1) =~= s.skip(9));
        assert(t.skip(8).skip(1) =~= t.skip(9));
        lemma_peel(s.skip(9), t.skip(9));
        assert(s.skip(9).skip(1) =~= s.skip(10));
        assert(t.skip(9).skip(1) =~= t.skip(10));
        assert(t.skip(10).len() == 0);
        assert(s.skip(10).len() == 0) by {
            lemma_replace_md_len(s.skip(10));
        }
        assert(s =~= t) by {
            assert(s.len() == 10);
            assert(forall|j: int| 0 <= j < 5 ==> s[j] == t[j]);
            assert(s[5] == s5[0] && s5[0] == '.' && t[5] == '.');
            assert(s[6] == t[6] && s[7] == t[7] && s[8] == t[8] && s[9] == t[9]);
        }
    }
}

/// The name `README.md` itself rewrites to exactly `index.html`.
pub proof fn lemma_readme_rewrites_to_index()
    ensures
        rewrite_name_spec("README.md"@) == "index.html"@,
{
    let name = "README.md"@;
    assert(name.subrange(name.len() - "README.md"@.len(), name.len() as int) =~= name);
    assert(name.take(name.len() - "README.md"@.len()) =~= Seq::<char>::empty());
    assert(Seq::<char>::empty() + "index.html"@ =~= "index.html"@);
}

/// Appending a non-empty segment leaves a path that ends in that segment.
proof fn lemma_join_push(segs: Seq<Seq<char>>, last: Seq<char>)
    requires
        last.len() > 0,
    ensures
        ends_with(join_segs(segs.push(last)), last),
{
    let whole = segs.push(last);
    assert(whole.drop_last() =~= segs);
    assert(whole.last() == last);
    let rest = join_segs(segs);
    if rest.len() == 0 {
        assert(join_segs(whole) == last);
        assert(last.subrange(last.len() - last.len(), last.len() as int) =~= last);
    } else {
        let r = rest + "/"@ + last;
        assert(join_segs(whole) == r);
        assert(r.subrange(r.len() - last.len(), r.len() as int) =~= last);
    }
}

/// Appending two different non-empty segments to one prefix yields two
/// different paths.
proof fn lemma_join_push_ne(segs: Seq<Seq<char>>, a: Seq<char>, b: Seq<char>)
    requires
        a.len() > 0,
        b.len() > 0,
        a != b,
    ensures
        join_segs(segs.push(a)) != join_segs(segs.push(b)),
{
    reveal_strlit("/");
    assert(segs.push(a).drop_last() =~= segs);
    assert(segs.push(b).drop_last() =~= segs);
    let rest = join_segs(segs);
    if rest.len() == 0 {
    } else {
        let ra = rest + "/"@ + a;
        let rb = rest + "/"@ + b;
        if ra == rb {
            assert(a =~= b) by {
                assert(ra.len() == rest.len() + 1 + a.len());
                assert(rb.len() == rest.len() + 1 + b.len());
                assert(a.len() == b.len());
                assert(forall|j: int|
                    0 <= j < a.len() ==> a[j] == ra[rest.len() + 1 + j] && b[j] == rb[rest.len()
                        + 1 + j]);
            }
        }
    }
}

/// Every `README.md` page lands on a path that ends in `index.html`,
/// whatever directory it stands in.
pub proof fn lemma_readme_path_ends_index_html(ancestors: Seq<AncestorView>)
    requires
        ancestors.len() >= 1,
    ensures
        ends_with(file_name_spec(ancestors, "README.md"@), "index.html"@),
{
    reveal_strlit("index.html");
    lemma_readme_rewrites_to_index();
    let paths = ancestors.map_values(|a: AncestorView| a.path);
    assert(seg_list(ancestors, "README.md"@) =~= paths.skip(1).push("index.html"@));
    lemma_join_push(paths.skip(1), "index.html"@);
}

/// A `README.md` and a sibling markdown file never land on the same output
/// path: besides `index.md`, no name ending in `.md` rewrites to the
/// `index.html` that `README.md` claims.
pub proof fn lemma_readme_no_collision(ancestors: Seq<AncestorView>, name: Seq<char>)
    requires
        ancestors.len() >= 1,
        ends_with(name, ".md"@),
        !ends_with(name, "README.md"@),
        name != "index.md"@,
    ensures
        file_name_spec(ancestors, name) != file_name_spec(ancestors, "README.md"@),
{
    reveal_strlit("index.html");
    reveal_strlit(".html");
    reveal_strlit(".md");
    reveal_strlit("index.md");
    lemma_readme_rewrites_to_index();
    let rw = rewrite_name_spec(name);
    assert(rw == replace_md(name));
    lemma_replace_md_ends_html(name);
    assert(rw.len() >= 5);
    assert(rw != "index.html"@) by {
        if rw == "index.html"@ {
            lemma_rewrite_to_index(name);
            if name == "index.html"@ {
                assert(name.subrange(name.len() - 3, name.len() as int)[0] == 't');
                assert(".md"@[0] == '.');
            }
        }
    }
    let paths = ancestors.map_values(|a: AncestorView| a.path);
    assert(seg_list(ancestors, name) =~= paths.skip(1).push(rw));
    assert(seg_list(ancestors, "README.md"@) =~= paths.skip(1).push("index.html"@));
    lemma_join_push_ne(paths.skip(1), rw, "index.html"@);
}

/// Compares two string slices for textual equality.
pub fn eq_str(a: &str, b: &str) -> (r: bool)
    ensures
        r == (a@ == b@),
{
    let an = a.unicode_len();
    let bn = b.unicode_len();
    if an != bn {
        return false;
    }
    let mut i: usize = 0;
    while i < an
        invariant
            an == a@.len(),
            bn == b@.len(),
            an == bn,
            i <= an,
            forall|j: int| 0 <= j < i ==> a@[j] == b@[j],
        decreases an - i,
    {
        if a.get_char(i) != b.get_char(i) {
            return false;
        }
        i = i + 1;
    }
    proof {
        assert(a@ =~= b@);
    }
    true
}

/// Rewrites a source file name to its output name.
pub fn rewrite_name(name: &str) -> (r: String)
    ensures
        r@ == rewrite_name_spec(name@),
{
    let n = name.unicode_len();
    proof {
        reveal_strlit("README.md");
    }
    if n >= 9 {
        let tail = name.substring_char(n - 9, n);
        if eq_str(tail, "README.md") {
            let mut out = String::from_str(name.substring_char(0, n - 9));
            out.append("index.html");
            proof {
                assert(ends_with(name@, "README.md"@));
                assert(name@.subrange(0, n - 9 as int) =~= name@.take(
                    name@.len() - "README.md"@.len(),
                ));
            }
            return out;
        }
    }
    proof {
        assert(!ends_with(name@, "README.md"@));
    }
    replace_md_exec(name)
}

/// Replaces every occurrence of `.md` in `name` with `.html`.
fn replace_md_exec(name: &str) -> (r: String)
    ensures
        r@ == replace_md(name@),
{
    let n = name.unicode_len();
    let mut out = String::new();
    let mut i: usize = 0;
    proof {
        reveal_strlit(".md");
        assert(".md"@ =~= seq!['.', 'm', 'd']);
        assert(name@.skip(0) =~= name@);
        assert(out@ + replace_md(name@) =~= replace_md(name@));
    }
    while i < n
        invariant
            n == name@.len(),
            i <= n,
            replace_md(name@) == out@ + replace_md(name@.skip(i as int)),
            ".md"@ =~= seq!['.', 'm', 'd'],
        decreases n - i,
    {
        let ghost pre = out@;
        if n - i >= 3 && name.get_char(i) == '.' && name.get_char(i + 1) == 'm' && name.get_char(
            i + 2,
        ) == 'd' {
            out.append(".html");
            proof {
                assert(name@.skip(i as int).subrange(0, 3) =~= ".md"@);
                assert(name@.skip(i as int).skip(3) =~= name@.skip(i + 3));
                assert(replace_md(name@.skip(i as int)) == ".html"@ + replace_md(
                    name@.skip(i + 3),
                ));
                assert(pre + (".html"@ + replace_md(name@.skip(i + 3))) =~= out@ + replace_md(
                    name@.skip(i + 3),
                ));
            }
            i = i + 3;
        } else {
            let c = name.substring_char(i, i + 1);
            out.append(c);
            proof {
                let s = name@.skip(i as int);
                assert(s.len() > 0);
                assert(!(s.len() >= 3 && s.subrange(0, 3) == ".md"@)) by {
                    if s.len() >= 3 && s.subrange(0, 3) == ".md"@ {
                        assert(s[0] == '.' && s[1] == 'm' && s[2] == 'd');
                        assert(name@[i as int] == '.');
                        assert(name@[i + 1] == 'm');
                        assert(name@[i + 2] == 'd');
                    }
                }
                assert(c@ =~= seq![s[0]]);
                assert(s.skip(1) =~= name@.skip(i + 1));
                assert(replace_md(s) == seq![s[0]] + replace_md(name@.skip(i + 1)));
                assert(pre + (seq![s[0]] + replace_md(name@.skip(i + 1))) =~= out@ + replace_md(
                    name@.skip(i + 1),
                ));
            }
            i = i + 1;
        }
    }
    proof {
        assert(name@.skip(n as int) =~= Seq::<char>::empty());
        assert(replace_md(Seq::<char>::empty()) =~= Seq::<char>::empty());
        assert(out@ + Seq::<char>::empty() =~= out@);
    }
    out
}

/// Appends one path segment to a path under construction: empty segments are
/// dropped, and a `/` separates a new segment from a non-empty path.
fn push_seg(acc: &mut String, seg: &str)
    ensures
        final(acc)@ == join_one(old(acc)@, seg@),
{
    if !seg.is_empty() {
        if acc.as_str().is_empty() {
            acc.append(seg);
        } else {
            acc.append("/");
            acc.append(seg);
        }
    }
}

/// One step of [`join_segs`]: the path so far, extended by one segment.
pub open spec fn join_one(acc: Seq<char>, seg: Seq<char>) -> Seq<char> {
    if seg.len() == 0 {
        acc
    } else if acc.len() == 0 {
        seg
    } else {
        acc + "/"@ + seg
    }
}

/// A node's output-relative path, computed from its ancestor chain and its
/// own file name. The first ancestor (the root) contributes no segment.
pub fn file_name(ancestors: &Vec<Ancestor>, name: &str) -> (r: String)
    ensures
        r@ == file_name_spec(ancestors.deep_view(), name@),
{
    let ghost segs = seg_list(ancestors.deep_view(), name@);
    let rw = rewrite_name(name);
    let mut acc = String::new();
    if ancestors.len() == 0 {
        proof {
            assert(segs =~= Seq::<Seq<char>>::empty());
        }
        return acc;
    }
    let mut i: usize = 1;
    proof {
        assert(segs.len() == ancestors.deep_view().len());
        assert(acc@ =~= join_segs(segs.take(0)));
    }
    while i < ancestors.len()
        invariant
            1 <= i <= ancestors.len(),
            segs == seg_list(ancestors.deep_view(), name@),
            segs.len() == ancestors.deep_view().len(),
            ancestors.deep_view().len() == ancestors@.len(),
            forall|j: int|
                0 <= j < ancestors@.len() - 1 ==> segs[j] == ancestors.deep_view()[j + 1].path,
            acc@ == join_segs(segs.take(i - 1)),
        decreases ancestors.len() - i,
    {
        push_seg(&mut acc, ancestors[i].path.as_str());
        proof {
            assert(segs.take(i as int).drop_last() =~= segs.take(i - 1));
            assert(segs.take(i as int).last() == ancestors.deep_view()[i as int].path);
            assert(acc@ == join_segs(segs.take(i as int)));
        }
        i = i + 1;
    }
    push_seg(&mut acc, rw.as_str());
    proof {
        assert(segs.take(segs.len() as int).drop_last() =~= segs.take(segs.len() - 1));
        assert(segs.last() == rewrite_name_spec(name@));
        assert(segs.take(segs.len() as int) =~= segs);
        assert(acc@ == join_segs(segs));
    }
    acc
}

/// A node's output filesystem path: the configured output root, then the
/// node's output-relative path.
pub fn file_path(out_dir: &str, ancestors: &Vec<Ancestor>, name: &str) -> (r: String)
    ensures
        r@ == file_path_spec(out_dir@, ancestors.deep_view(), name@),
{
    let rel = file_name(ancestors, name);
    let mut out = String::from_str(out_dir);
    if !rel.as_str().is_empty() {
        out.append("/");
        out.append(rel.as_str());
    }
    out
}

} // verus!
