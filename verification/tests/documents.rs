use sapling::env::{Commands, CustomErrorStage, RenderEnv};
use sapling::index::{ForwardIndex, ReverseIndex};
use sapling::load_memory::{
    build_forward_index, build_reverse_index, discover_content, document_indexable, documents_indexable,
    merge_forward_index, Discovered, DiscoveredEntry,
};
use sapling::parse_markdown::{
    front_matter_accepted, parse, parse_if_accepted, parse_text, read_frontmatter, ContentDocument,
    MDRenderOptions,
};
use sapling::yaml::{YamlEntry, YamlValue};

fn s(x: &str) -> YamlValue {
    YamlValue::String(x.to_string())
}

fn seq(xs: Vec<&str>) -> YamlValue {
    YamlValue::Sequence(xs.into_iter().map(s).collect())
}

fn map(pairs: Vec<(&str, YamlValue)>) -> YamlValue {
    YamlValue::Mapping(
        pairs
            .into_iter()
            .map(|(k, v)| YamlEntry { key: s(k), value: v })
            .collect(),
    )
}

fn doc_with(fm: YamlValue, name: &str) -> ContentDocument {
    let mut d = ContentDocument::new(name);
    d.frontmatter = Some(fm);
    d
}

#[test]
fn content_document_new_is_empty_but_named() {
    let d = ContentDocument::new("blog1");
    assert_eq!(d.name, Some("blog1".to_string()));
    assert!(d.frontmatter.is_none() && d.frontmatter_raw.is_none() && d.content.is_none());
    assert_eq!(d.forwardindex.map(|f| f.entries.len()), Some(0));
}

#[test]
fn md_render_options_default_is_safe() {
    assert!(!MDRenderOptions::default().unsafe_render);
}

#[test]
fn read_frontmatter_cleans_delimiters() {
    let raw = read_frontmatter("content/blogs/blog1.md", "---\ntitle: x\n---\n# Hi\n").unwrap();
    assert_eq!(raw.name, "blog1");
    assert_eq!(raw.frontmatter_raw, "\ntitle: x\n");
}

#[test]
fn read_frontmatter_defaults_without_front_matter() {
    let raw = read_frontmatter("notes.md.md", "# Just a title\n").unwrap();
    assert_eq!(raw.name, "notes");
    assert_eq!(raw.frontmatter_raw, "template: index.html\n");
}

#[test]
fn read_frontmatter_needs_a_file_name() {
    let e = read_frontmatter("content/..", "# x\n").err().unwrap();
    assert_eq!(e.stage, CustomErrorStage::ParseMarkdown);
    assert_eq!(e.error, "[ERROR] Couldn't find markdown files name from path : content/..");
}

#[test]
fn parse_builds_the_document() {
    let md = "---\ntitle: x\nname: home\n---\n# Hi\n";
    let fm = map(vec![("title", s("x")), ("name", s("home"))]);
    let doc = parse(&MDRenderOptions::default(), "content/index.md", md, Ok(Some(fm.duplicate())))
        .unwrap()
        .unwrap();
    assert_eq!(doc.name, Some("home".to_string()));
    assert_eq!(doc.frontmatter, Some(fm));
    assert_eq!(doc.frontmatter_raw, Some("\ntitle: x\nname: home\n".to_string()));
    assert_eq!(doc.content, Some("<h1>Hi</h1>\n".to_string()));
}

#[test]
fn parse_names_a_document_after_its_file() {
    let doc = parse(&MDRenderOptions::default(), "content/about.md", "text\n", Ok(Some(map(vec![("template", s("index.html"))]))))
        .unwrap()
        .unwrap();
    assert_eq!(doc.name, Some("about".to_string()));
    assert_eq!(doc.content, Some("<p>text</p>\n".to_string()));
}

#[test]
fn parse_keeps_raw_html_only_when_unsafe() {
    let md = "<div>hi</div>\n";
    let safe = parse(&MDRenderOptions { unsafe_render: false }, "a.md", md, Ok(Some(YamlValue::Null))).unwrap().unwrap();
    let raw = parse(&MDRenderOptions { unsafe_render: true }, "a.md", md, Ok(Some(YamlValue::Null))).unwrap().unwrap();
    assert_eq!(raw.content, Some("<div>hi</div>\n".to_string()));
    assert_ne!(safe.content, raw.content);
}

#[test]
fn parse_reports_yaml_errors() {
    let e = parse(&MDRenderOptions::default(), "a.md", "x\n", Err("bad indent".to_string())).err().unwrap();
    assert_eq!(e.stage, CustomErrorStage::ParseMarkdown);
    assert_eq!(e.error, "[ERROR] error parsing yaml : bad indent");
}

#[test]
fn forward_index_files_under_each_key() {
    let mut fi = ForwardIndex::new();
    let a = map(vec![("title", s("A")), ("forwardindex", s("blog"))]);
    let b = map(vec![("title", s("B")), ("forwardindex", seq(vec!["blog", "tags"]))]);
    build_forward_index(&mut fi, &doc_with(a.duplicate(), "a"));
    build_forward_index(&mut fi, &doc_with(b.duplicate(), "b"));
    build_forward_index(&mut fi, &doc_with(map(vec![("title", s("C"))]), "c"));
    assert_eq!(fi.entries.len(), 2);
    assert_eq!(fi.get("blog"), Some(&vec![a, b.duplicate()]));
    assert_eq!(fi.get("tags"), Some(&vec![b]));
    assert_eq!(fi.get("news"), None);
}

#[test]
fn reverse_index_files_under_each_value() {
    let mut ri = ReverseIndex::new();
    let a = map(vec![("tags", seq(vec!["rust", "go"])), ("author", s("navin")), ("reverseindex", seq(vec!["tags", "author"]))]);
    let b = map(vec![("tags", s("rust")), ("reverseindex", s("tags"))]);
    let c = map(vec![("tags", s("rust")), ("reverseindex", YamlValue::Bool(true))]);
    build_reverse_index(&mut ri, &doc_with(a.duplicate(), "a"));
    build_reverse_index(&mut ri, &doc_with(b.duplicate(), "b"));
    build_reverse_index(&mut ri, &doc_with(c, "c"));
    let tags = ri.get("tags").unwrap();
    assert_eq!(tags.get("rust"), Some(&vec![a.duplicate(), b]));
    assert_eq!(tags.get("go"), Some(&vec![a.duplicate()]));
    assert_eq!(ri.get("author").unwrap().get("navin"), Some(&vec![a]));
    assert!(ri.get("title").is_none());
}

#[test]
fn discover_content_stores_indexes_and_merges() {
    let a = map(vec![("title", s("A")), ("forwardindex", s("blog")), ("tags", s("x")), ("reverseindex", s("tags"))]);
    let b = map(vec![("title", s("B")), ("forwardindex", s("blog"))]);
    let found = vec![
        DiscoveredEntry { path: "content/a.md".to_string(), doc: doc_with(a.duplicate(), "a") },
        DiscoveredEntry { path: "content/b.md".to_string(), doc: doc_with(b.duplicate(), "b") },
    ];
    let mut all = Discovered::default();
    let ri = discover_content(&found, &mut all);
    assert_eq!(all.data.len(), 2);
    assert_eq!(all.data[0].path, "content/a.md");
    for e in all.data.iter() {
        let fi = e.doc.forwardindex.as_ref().unwrap();
        assert_eq!(fi.get("blog"), Some(&vec![a.duplicate(), b.duplicate()]));
    }
    assert_eq!(ri.get("tags").unwrap().get("x"), Some(&vec![a]));
}

#[test]
fn discovered_insert_replaces_the_same_path() {
    let mut all = Discovered::default();
    all.insert("p.md".to_string(), ContentDocument::new("one"));
    all.insert("q.md".to_string(), ContentDocument::new("two"));
    all.insert("p.md".to_string(), ContentDocument::new("three"));
    assert_eq!(all.data.len(), 2);
    assert_eq!(all.data[0].doc.name, Some("three".to_string()));
}

#[test]
fn merge_gives_every_document_the_index() {
    let mut all = Discovered::default();
    all.insert("p.md".to_string(), ContentDocument::new("one"));
    all.insert("q.md".to_string(), ContentDocument::new("two"));
    let mut fi = ForwardIndex::new();
    fi.file("blog", s("x"));
    merge_forward_index(&mut all, &fi);
    for e in all.data.iter() {
        assert_eq!(e.doc.forwardindex.as_ref().unwrap().get("blog"), Some(&vec![s("x")]));
    }
    assert_eq!(all.data[1].doc.name, Some("two".to_string()));
}

pub fn env() -> RenderEnv {
    RenderEnv {
        template_base: "templates".to_string(),
        content_base: "content".to_string(),
        static_base: "static".to_string(),
        settings_yaml: "settings.yaml".to_string(),
        css_base: "css".to_string(),
        assets_base: "assets".to_string(),
        default_template: "index.html".to_string(),
        debug: false,
        serve: false,
        serve_port: "80".to_string(),
        livereload: false,
        mode: Commands::Run,
    }
}

#[test]
fn env_fields_hold_their_defaults() {
    let e = env();
    assert_eq!(e.default_template, "index.html");
    assert!(matches!(e.mode, Commands::Run));
}

#[test]
fn front_matter_acceptance() {
    assert!(!front_matter_accepted(&None));
    assert!(front_matter_accepted(&Some(map(vec![("title", s("x"))]))));
    assert!(front_matter_accepted(&Some(map(vec![("name", s("home"))]))));
    assert!(!front_matter_accepted(&Some(map(vec![("name", YamlValue::Bool(true))]))));
    assert!(front_matter_accepted(&Some(s("plain text"))));
}

#[test]
fn indexable_documents() {
    let good = vec![
        DiscoveredEntry {
            path: "a.md".to_string(),
            doc: doc_with(
                map(vec![
                    ("forwardindex", seq(vec!["blogs"])),
                    ("reverseindex", s("tags")),
                    ("tags", seq(vec!["rust", "web"])),
                ]),
                "a",
            ),
        },
        DiscoveredEntry { path: "b.md".to_string(), doc: ContentDocument::new("b") },
    ];
    assert!(documents_indexable(&good));
    let bad_forward = vec![DiscoveredEntry {
        path: "c.md".to_string(),
        doc: doc_with(map(vec![("forwardindex", YamlValue::Bool(true))]), "c"),
    }];
    assert!(!documents_indexable(&bad_forward));
    let missing_attr = vec![DiscoveredEntry {
        path: "d.md".to_string(),
        doc: doc_with(map(vec![("reverseindex", seq(vec!["tags"]))]), "d"),
    }];
    assert!(!documents_indexable(&missing_attr));
    let bad_value = vec![DiscoveredEntry {
        path: "e.md".to_string(),
        doc: doc_with(
            map(vec![("reverseindex", seq(vec!["tags"])), ("tags", YamlValue::Number("3".to_string()))]),
            "e",
        ),
    }];
    assert!(!documents_indexable(&bad_value));
}

#[test]
fn parse_if_accepted_refuses_an_unusable_front_matter() {
    let md = "---\nname: 3\n---\n# Hi\n";
    let refused = parse_if_accepted(
        &MDRenderOptions::default(),
        "content/a.md",
        md,
        Ok(Some(map(vec![("name", YamlValue::Number("3".to_string()))]))),
    );
    assert!(refused.is_none());
    assert!(parse_if_accepted(&MDRenderOptions::default(), "content/a.md", md, Ok(None)).is_none());
    let read = parse_if_accepted(&MDRenderOptions::default(), "content/a.md", md, Ok(Some(map(vec![]))))
        .unwrap()
        .unwrap()
        .unwrap();
    assert_eq!(read.name, Some("a".to_string()));
    let yaml_error = parse_if_accepted(&MDRenderOptions::default(), "content/a.md", md, Err("bad".to_string()))
        .unwrap()
        .err()
        .unwrap();
    assert_eq!(yaml_error.error, "[ERROR] error parsing yaml : bad");
}

#[test]
fn parse_text_defaults_a_missing_front_matter() {
    let doc = parse_text(&MDRenderOptions::default(), "content/about.md", "# About\n").unwrap().unwrap().unwrap();
    assert_eq!(doc.name, Some("about".to_string()));
    assert_eq!(doc.frontmatter, Some(map(vec![("template", s("index.html"))])));
    assert_eq!(doc.content, Some("<h1>About</h1>\n".to_string()));
}

#[test]
fn parse_text_reads_the_yaml_front_matter() {
    let md = "---\ntitle: x\ntags: [a, b]\ncount: 3\nname: home\n---\n# Hi\n";
    let doc = parse_text(&MDRenderOptions::default(), "content/index.md", md).unwrap().unwrap().unwrap();
    assert_eq!(doc.name, Some("home".to_string()));
    assert_eq!(
        doc.frontmatter,
        Some(map(vec![
            ("title", s("x")),
            ("tags", seq(vec!["a", "b"])),
            ("count", YamlValue::Number("3".to_string())),
            ("name", s("home")),
        ]))
    );
}

#[test]
fn parse_text_leaves_out_unusable_front_matter() {
    assert!(parse_text(&MDRenderOptions::default(), "a.md", "---\nname: [1]\n---\nx\n").is_none());
    let e = parse_text(&MDRenderOptions::default(), "a.md", "---\ntitle: [\n---\nx\n").unwrap().err().unwrap();
    assert!(e.error.starts_with("[ERROR] error parsing yaml : "));
}

#[test]
fn a_document_with_a_bad_forward_key_is_not_indexable() {
    assert!(document_indexable(&ContentDocument::new("plain")));
    assert!(document_indexable(&doc_with(map(vec![("forwardindex", seq(vec!["blog"]))]), "a")));
    assert!(!document_indexable(&doc_with(map(vec![("forwardindex", YamlValue::Bool(true))]), "b")));
}
