use mdsite::breadcrumbs::breadcrumbs_html;
use mdsite::errors::{load_error_message, LoadErrorKind};
use mdsite::listing::directory_list_html;
use mdsite::load::annotate;
use mdsite::node::{Ancestor, RawNode, SourceContent, SourceNode};
use mdsite::paths::{file_name, file_path, rewrite_name};
use mdsite::plan::{build_plan, WriteStep};
use mdsite::render::render;
use mdsite::templates::{wrap_directory, wrap_root};

fn anc(name: &str, path: &str) -> Ancestor {
    Ancestor { name: name.to_string(), path: path.to_string() }
}

#[test]
fn rewrite_plain_markdown_name() {
    assert_eq!(rewrite_name("c.md"), "c.html");
}

#[test]
fn rewrite_readme_name() {
    assert_eq!(rewrite_name("README.md"), "index.html");
}

#[test]
fn rewrite_readme_suffix_keeps_prefix() {
    assert_eq!(rewrite_name("subREADME.md"), "subindex.html");
}

#[test]
fn rewrite_replaces_every_md_occurrence() {
    assert_eq!(rewrite_name("nested.md.md"), "nested.html.html");
}

#[test]
fn rewrite_leaves_other_names_alone() {
    assert_eq!(rewrite_name("Alpha"), "Alpha");
}

#[test]
fn file_name_joins_segments_without_root() {
    let chain = vec![anc("root", ""), anc("a", "a"), anc("b", "b")];
    assert_eq!(file_name(&chain, "c.md"), "a/b/c.html");
}

#[test]
fn file_name_for_root_directory_is_empty() {
    let chain: Vec<Ancestor> = Vec::new();
    assert_eq!(file_name(&chain, "root"), "");
}

#[test]
fn file_name_for_top_level_readme() {
    let chain = vec![anc("root", "")];
    assert_eq!(file_name(&chain, "README.md"), "index.html");
}

#[test]
fn file_path_prefixes_output_root() {
    let chain = vec![anc("root", ""), anc("a", "a")];
    assert_eq!(file_path("build", &chain, "x.md"), "build/a/x.html");
}

#[test]
fn file_path_of_root_directory_is_output_root() {
    let chain: Vec<Ancestor> = Vec::new();
    assert_eq!(file_path("build", &chain, "root"), "build");
}

#[test]
fn breadcrumbs_three_levels_deep() {
    let chain = vec![anc("a", "a"), anc("b", "b")];
    assert_eq!(
        breadcrumbs_html(&chain, "c.md"),
        r#"<a href="/a">a</a> / <a href="/a/b">b</a> / <span>c.md</span>"#
    );
}

#[test]
fn breadcrumbs_for_directory_own_readme() {
    let chain = vec![anc("a", "a"), anc("b", "b")];
    assert_eq!(breadcrumbs_html(&chain, "README.md"), r#"<a href="/a">a</a> / <span>b</span>"#);
}

#[test]
fn breadcrumbs_empty_for_root_page() {
    let chain: Vec<Ancestor> = Vec::new();
    assert_eq!(breadcrumbs_html(&chain, "anything.md"), "");
}

#[test]
fn breadcrumbs_root_segment_not_doubled() {
    let chain = vec![anc("root", ""), anc("a", "a")];
    assert_eq!(
        breadcrumbs_html(&chain, "x.md"),
        r#"<a href="/">root</a> / <a href="/a">a</a> / <span>x.md</span>"#
    );
}

fn listing_children() -> Vec<SourceNode> {
    let chain = vec![anc("root", ""), anc("docs", "docs")];
    vec![
        SourceNode {
            file_name: "zeta.md".to_string(),
            ancestors: chain.clone(),
            content: SourceContent::File { text: "z".to_string() },
        },
        SourceNode {
            file_name: "Alpha".to_string(),
            ancestors: chain.clone(),
            content: SourceContent::Dir { readme: None, children: Vec::new() },
        },
        SourceNode {
            file_name: "beta.md".to_string(),
            ancestors: chain.clone(),
            content: SourceContent::File { text: "b".to_string() },
        },
    ]
}

#[test]
fn listing_sorts_lexicographically_case_sensitive() {
    let html = directory_list_html(&listing_children());
    let mut expected = String::from("<ul>");
    expected.push_str(r#"<li class="directory-listing"><a href="/docs/Alpha">Alpha</a></li>"#);
    expected.push_str(r#"<li class="file-listing"><a href="/docs/beta.html">beta.md</a></li>"#);
    expected.push_str(r#"<li class="file-listing"><a href="/docs/zeta.html">zeta.md</a></li>"#);
    expected.push_str("</ul>");
    assert_eq!(html, expected);
}

#[test]
fn listing_of_no_children_is_empty_ul() {
    let none: Vec<SourceNode> = Vec::new();
    assert_eq!(directory_list_html(&none), "<ul></ul>");
}

#[test]
fn wrap_directory_substitutes_name_and_content() {
    assert_eq!(wrap_directory("docs", "<ul></ul>"), "<h1>docs</h1><ul></ul>");
}

#[test]
fn wrap_root_substitutes_content_and_breadcrumbs() {
    let chain = vec![anc("a", "a")];
    let mut expected = String::from("<!DOCTYPE html><html><body><nav>");
    expected.push_str(r#"<a href="/a">a</a> / <span>x.md</span>"#);
    expected.push_str("</nav><main><p>hi</p></main></body></html>");
    assert_eq!(wrap_root(&chain, "<p>hi</p>", "x.md"), expected);
}

#[test]
fn render_converts_markdown_in_file_page() {
    let node = SourceNode {
        file_name: "hello.md".to_string(),
        ancestors: vec![anc("root", "")],
        content: SourceContent::File { text: "# Hi".to_string() },
    };
    let page = render(&node, "build");
    assert_eq!(page.path, "build/hello.html");
    match page.content {
        mdsite::node::HtmlContent::File { html } => {
            let mut expected = String::from("<!DOCTYPE html><html><body><nav>");
            expected.push_str(r#"<a href="/">root</a> / <span>hello.md</span>"#);
            expected.push_str("</nav><main><h1>Hi</h1></main></body></html>");
            assert_eq!(html, expected);
        }
        _ => panic!("a file node must render to a file page"),
    }
}

#[test]
fn build_plan_for_asset_only_root_has_listing_index() {
    let raw = RawNode::Dir { name: "root".to_string(), readme: None, children: Vec::new() };
    let steps = build_plan(&raw, "build");
    let mut text = String::from("<!DOCTYPE html><html><body><nav></nav><main>");
    text.push_str("<h1>root</h1><ul></ul>");
    text.push_str("</main></body></html>");
    assert_eq!(
        steps,
        vec![
            WriteStep::MakeDir { path: "build".to_string() },
            WriteStep::WriteFile { path: "build/index.html".to_string(), text },
        ]
    );
}

fn sample_tree() -> RawNode {
    RawNode::Dir {
        name: "root".to_string(),
        readme: None,
        children: vec![
            RawNode::Dir {
                name: "a".to_string(),
                readme: None,
                children: vec![RawNode::Dir {
                    name: "b".to_string(),
                    readme: Some("hello *world*".to_string()),
                    children: vec![RawNode::File {
                        name: "c.md".to_string(),
                        text: "# C".to_string(),
                    }],
                }],
            },
            RawNode::File { name: "top.md".to_string(), text: "para".to_string() },
        ],
    }
}

#[test]
fn build_plan_is_deterministic_for_unchanged_input() {
    let first = build_plan(&sample_tree(), "build");
    let second = build_plan(&sample_tree(), "build");
    assert_eq!(first, second);
}

#[test]
fn build_plan_walks_tree_in_order_with_computed_paths() {
    let steps = build_plan(&sample_tree(), "build");
    let paths: Vec<String> = steps
        .iter()
        .map(|s| match s {
            WriteStep::MakeDir { path } => format!("dir:{path}"),
            WriteStep::WriteFile { path, .. } => format!("file:{path}"),
        })
        .collect();
    assert_eq!(
        paths,
        vec![
            "dir:build".to_string(),
            "file:build/index.html".to_string(),
            "dir:build/a".to_string(),
            "file:build/a/index.html".to_string(),
            "dir:build/a/b".to_string(),
            "file:build/a/b/index.html".to_string(),
            "file:build/a/b/c.html".to_string(),
            "file:build/top.html".to_string(),
        ]
    );
}

#[test]
fn readme_directory_page_uses_own_chain_and_markdown_body() {
    let steps = build_plan(&sample_tree(), "build");
    let b_index = steps
        .iter()
        .find_map(|s| match s {
            WriteStep::WriteFile { path, text } if path == "build/a/b/index.html" => Some(text),
            _ => None,
        })
        .expect("the readme directory must get an index page");
    let mut expected = String::from("<!DOCTYPE html><html><body><nav>");
    expected.push_str(r#"<a href="/">root</a> / <a href="/a">a</a> / <span>b</span>"#);
    expected.push_str("</nav><main><p>hello <em>world</em></p></main></body></html>");
    assert_eq!(b_index, &expected);
}

#[test]
fn annotate_extends_chains_top_down() {
    let source = annotate(&sample_tree(), Vec::new());
    match source.content {
        SourceContent::Dir { children, .. } => {
            let a = &children[0];
            assert_eq!(a.file_name, "a");
            assert_eq!(a.ancestors.len(), 1);
            assert_eq!(a.ancestors[0].name, "root");
            assert_eq!(a.ancestors[0].path, "");
            match &a.content {
                SourceContent::Dir { children, .. } => {
                    let b = &children[0];
                    assert_eq!(b.ancestors.len(), 2);
                    assert_eq!(b.ancestors[1].name, "a");
                    assert_eq!(b.ancestors[1].path, "a");
                }
                _ => panic!("a must be a directory"),
            }
        }
        _ => panic!("the root must be a directory"),
    }
}

#[test]
fn load_error_message_names_the_entry() {
    let msg = load_error_message(LoadErrorKind::FileRead, "bad.md", "permission denied");
    assert_eq!(msg, "unable to read file 'bad.md': permission denied");
    assert!(msg.contains("bad.md"));
}

#[test]
fn load_error_message_kinds_have_distinct_openings() {
    assert_eq!(
        load_error_message(LoadErrorKind::Metadata, "e", "c"),
        "unable to read metadata for 'e': c"
    );
    assert_eq!(
        load_error_message(LoadErrorKind::DirectoryRead, "d", "c"),
        "unable to read directory 'd': c"
    );
    assert_eq!(
        load_error_message(LoadErrorKind::Child, "d", "c"),
        "unable to get child in directory 'd': c"
    );
}
