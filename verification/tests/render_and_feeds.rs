use sapling::bootstrap::{bootstrap_plan, bootstrap_target_path, ProjectDir};
use sapling::env::{Commands, CustomErrorStage, RenderEnv};
use sapling::index::ReverseIndex;
use sapling::load_memory::Discovered;
use sapling::parse_markdown::ContentDocument;
use sapling::render_markdown::{
    decide_static_serve_path, parallel_static_render, render_plannable, static_render,
    validate_template_request,
};
use sapling::reverse_index::reverse_index_render;
use sapling::rss::{
    generate_rss_map_with_clock, render_rss, render_rss_with_clock, InternalRssItem, RssFeedItems, RssGroup,
    RssMap, RssOptions,
};
use sapling::rss_utils::{convert_to_rfc822, decide_static_rss_render_path, RssDateError};
use sapling::yaml::{YamlEntry, YamlValue};

fn s(x: &str) -> YamlValue {
    YamlValue::String(x.to_string())
}

fn map(pairs: Vec<(&str, YamlValue)>) -> YamlValue {
    YamlValue::Mapping(
        pairs
            .into_iter()
            .map(|(k, v)| YamlEntry { key: s(k), value: v })
            .collect(),
    )
}

fn env() -> RenderEnv {
    RenderEnv {
        template_base: "templates".to_string(),
        content_base: "content".to_string(),
        static_base: "static".to_string(),
        settings_yaml: "settings.yaml".to_string(),
        css_base: "css".to_string(),
        assets_base: "assets".to_string(),
        default_template: "index.html".to_string(),
        debug: false,
        serve: false,
        serve_port: "80".to_string(),
        livereload: false,
        mode: Commands::Run,
    }
}

fn doc(fm: YamlValue, name: &str) -> ContentDocument {
    let mut d = ContentDocument::new(name);
    d.frontmatter = Some(fm);
    d
}

fn templates() -> Vec<String> {
    vec!["index.html".to_string(), "blog.html".to_string()]
}

#[test]
fn template_request_uses_frontmatter_or_default() {
    let t = s("blog.html");
    assert_eq!(validate_template_request(&Some(&t), &env(), &templates()).unwrap(), "blog.html");
    assert_eq!(validate_template_request(&None, &env(), &templates()).unwrap(), "index.html");
}

#[test]
fn template_request_fails_for_unknown_template() {
    let t = s("tags.html");
    let e = validate_template_request(&Some(&t), &env(), &templates()).err().unwrap();
    assert_eq!(e.stage, CustomErrorStage::StaticRender);
    assert_eq!(e.error, "Error finding a proper template to render markdown.");
}

#[test]
fn serve_path_from_link() {
    let l = s("  /blogs/blog1/ ");
    let p = decide_static_serve_path(&env(), &Some(&l), "blog1");
    assert_eq!(p.dir, "static/blogs/blog1");
    assert_eq!(p.file, "static/blogs/blog1/index.html");
}

#[test]
fn serve_path_from_name() {
    let p = decide_static_serve_path(&env(), &None, "about");
    assert_eq!(p.dir, "static/about");
    assert_eq!(p.file, "static/about/index.html");
}

#[test]
fn parallel_render_plans_and_injects_links() {
    let mut all = Discovered::default();
    all.insert("content/a.md".to_string(), doc(map(vec![("link", s("/x/a")), ("template", s("blog.html"))]), "a"));
    all.insert("content/b.md".to_string(), doc(YamlValue::Null, "b"));
    let jobs = parallel_static_render(&env(), &templates(), &mut all).unwrap();
    assert_eq!(jobs.len(), 2);
    assert_eq!(jobs[0].source, "content/a.md");
    assert_eq!(jobs[0].serve_dir, "static/x/a");
    assert_eq!(jobs[0].static_path, "static/x/a/index.html");
    assert_eq!(jobs[0].template, "blog.html");
    assert_eq!(jobs[1].static_path, "static/b/index.html");
    assert_eq!(jobs[1].template, "index.html");
    let fm0 = all.data[0].doc.frontmatter.as_ref().unwrap();
    assert_eq!(fm0.get("link"), Some(&s("static/x/a/index.html")));
    assert_eq!(all.data[1].doc.frontmatter, Some(map(vec![("link", s("static/b/index.html"))])));
}

#[test]
fn parallel_render_stops_at_a_missing_template() {
    let mut all = Discovered::default();
    all.insert("content/a.md".to_string(), doc(map(vec![("template", s("nope.html"))]), "a"));
    all.insert("content/b.md".to_string(), doc(map(vec![]), "b"));
    let e = parallel_static_render(&env(), &templates(), &mut all).err().unwrap();
    assert_eq!(e.error, "Error finding a proper template to render markdown.");
    assert!(all.data[0].doc.frontmatter.as_ref().unwrap().get("link").is_some());
    assert!(all.data[1].doc.frontmatter.as_ref().unwrap().get("link").is_none());
}

#[test]
fn static_render_plans_without_injecting() {
    let mut all = Discovered::default();
    all.insert("content/a.md".to_string(), doc(s("plain text"), "a"));
    let jobs = static_render(&env(), &templates(), &all).unwrap();
    assert_eq!(jobs[0].static_path, "static/a/index.html");
    assert_eq!(all.data[0].doc.frontmatter, Some(s("plain text")));
}

#[test]
fn reverse_index_pages_per_value() {
    let mut ri = ReverseIndex::new();
    ri.file("tags", "rust", s("A"));
    ri.file("tags", "go", s("B"));
    ri.file("tags", "rust", s("C"));
    let jobs = reverse_index_render("tags", &ri);
    assert_eq!(jobs.len(), 2);
    assert_eq!(jobs[0].serve_dir, "static/tags/rust");
    assert_eq!(jobs[0].static_path, "static/tags/rust/index.html");
    assert_eq!(jobs[0].template, "reverseindex/tags.html");
    assert_eq!(jobs[0].reverseindexon, "rust");
    assert_eq!(jobs[0].reverseindex, vec![s("A"), s("C")]);
    assert_eq!(jobs[1].reverseindexon, "go");
}

#[test]
fn internal_rss_item_new_keeps_fields() {
    let it = InternalRssItem::new(
        "t".to_string(),
        "l".to_string(),
        "d".to_string(),
        "p".to_string(),
        "b".to_string(),
        "a".to_string(),
    );
    assert_eq!((it.title.as_str(), it.link.as_str(), it.description.as_str()), ("t", "l", "d"));
    assert_eq!((it.pub_date.as_str(), it.build_date.as_str(), it.author.as_str()), ("p", "b", "a"));
}

#[test]
fn rss_options_default_values() {
    let o = RssOptions::default();
    assert!(!o.enable);
    assert_eq!(o.date_format, Some("%d-%m-%Y".to_string()));
    assert!(o.rss_groups.is_empty() && o.website_author.is_none() && o.title.is_none());
}

#[test]
fn rfc822_conversion_reads_the_date() {
    let d = convert_to_rfc822("20-01-2002", "%d-%m-%Y").unwrap();
    assert!(d.starts_with("Sun, 20 Jan 2002 00:00:00 "));
    assert_eq!(convert_to_rfc822("2002/01/20", "%d-%m-%Y"), Err(RssDateError::Unparsable));
}

#[test]
fn rss_map_groups_entries() {
    let mut all = Discovered::default();
    all.insert(
        "a.md".to_string(),
        doc(map(vec![("title", s("A")), ("link", s("/a")), ("date", s("02-03-2024")), ("rss_group", YamlValue::Sequence(vec![s("all"), s("done")]))]), "a"),
    );
    all.insert(
        "b.md".to_string(),
        doc(map(vec![("title", s("B")), ("pub_date", s("yesterday")), ("rss_group", s("all"))]), "b"),
    );
    all.insert("c.md".to_string(), doc(map(vec![("title", s("C"))]), "c"));
    let m = generate_rss_map_with_clock(&all, &RssOptions::default(), &Some("05-06-2024".to_string())).unwrap();
    assert_eq!(m.groups.len(), 2);
    assert_eq!(m.groups[0].group, "all");
    assert_eq!(m.groups[0].items.len(), 2);
    let a = &m.groups[0].items[0];
    assert_eq!(a.title, "A");
    assert_eq!(a.link, "/a");
    assert_eq!(a.description, "A generic default description for posts");
    assert_eq!(a.author, "Jhon Doe");
    assert!(a.pub_date.starts_with("Sat, 02 Mar 2024"));
    assert!(a.build_date.starts_with("Wed, 05 Jun 2024"));
    let b = &m.groups[0].items[1];
    assert_eq!(b.title, "B");
    assert!(b.pub_date.starts_with("Wed, 05 Jun 2024 00:00:00 "));
    assert_eq!(b.description, "A generic default description for posts");
    assert_eq!(b.author, "Jhon Doe");
    assert_eq!(m.groups[1].group, "done");
    assert_eq!(m.groups[1].items[0].title, "A");
}

#[test]
fn rss_map_rejects_unreadable_dates() {
    let mut all = Discovered::default();
    all.insert("a.md".to_string(), doc(map(vec![("date", s("March 2")), ("rss_group", YamlValue::Sequence(vec![s("all")]))]), "a"));
    let r = generate_rss_map_with_clock(&all, &RssOptions::default(), &Some("05-06-2024".to_string()));
    assert!(matches!(r, Err(RssDateError::Unparsable)));
    let r = generate_rss_map_with_clock(&all, &RssOptions::default(), &None);
    assert!(matches!(r, Err(RssDateError::NoClock)));
}

fn group(id: &str, link: &str) -> RssGroup {
    RssGroup {
        name: id.to_string(),
        group_id: id.to_string(),
        link: link.to_string(),
        content_url: "https://example.com".to_string(),
        description: "posts".to_string(),
    }
}

#[test]
fn rss_feeds_only_for_configured_groups() {
    let item = InternalRssItem::new(
        "First".to_string(),
        "/blogs/first".to_string(),
        "d".to_string(),
        "Sun, 20 Jan 2002 00:00:00 +0000".to_string(),
        "Sun, 20 Jan 2002 00:00:00 +0000".to_string(),
        "a".to_string(),
    );
    let m = RssMap {
        groups: vec![
            RssFeedItems { group: "all".to_string(), items: vec![item] },
            RssFeedItems { group: "other".to_string(), items: vec![] },
        ],
    };
    let mut o = RssOptions::default();
    o.rss_groups = vec![group("all", "feeds/all.xml")];
    let jobs = render_rss_with_clock(&m, &o, "Mon, 01 Jan 2024 00:00:00 GMT");
    assert_eq!(jobs.len(), 1);
    assert_eq!(jobs[0].group, "all");
    assert_eq!(jobs[0].link, "feeds/all.xml");
    assert!(jobs[0].xml.contains("<title>all</title>"));
    assert!(jobs[0].xml.contains("https://example.com/blogs/first"));
}

#[test]
fn rss_render_path_for_files_and_directories() {
    let f = decide_static_rss_render_path(&env(), " /feeds/all.xml ", false);
    assert_eq!(f.dir, None);
    assert_eq!(f.file, "static/feeds/all.xml");
    let d = decide_static_rss_render_path(&env(), "feeds/", true);
    assert_eq!(d.dir, Some("static/feeds".to_string()));
    assert_eq!(d.file, "static/feeds/index.xml");
}

#[test]
fn bootstrap_refuses_a_non_empty_folder() {
    assert_eq!(bootstrap_plan(ProjectDir::Missing).unwrap(), true);
    assert_eq!(bootstrap_plan(ProjectDir::Empty).unwrap(), false);
    let e = bootstrap_plan(ProjectDir::NotEmpty).err().unwrap();
    assert_eq!(e.stage, CustomErrorStage::Bootstrap);
    assert_eq!(e.error, "[ERROR] Folder is not empty!");
}

#[test]
fn bootstrap_target_paths() {
    assert_eq!(bootstrap_target_path("site/", "/content/blogs"), "site/content/blogs");
    assert_eq!(bootstrap_target_path(".", ""), "./");
}

#[test]
fn plannable_until_the_first_missing_template() {
    let mut all = Discovered::default();
    all.insert("content/a.md".to_string(), doc(map(vec![("template", s("nope.html"))]), "a"));
    all.insert("content/b.md".to_string(), doc(map(vec![("link", YamlValue::Bool(true))]), "b"));
    assert!(render_plannable(&env(), &templates(), &all, true));
}

#[test]
fn not_plannable_with_a_link_that_is_not_a_string() {
    let mut all = Discovered::default();
    all.insert("content/a.md".to_string(), doc(map(vec![]), "a"));
    all.insert("content/b.md".to_string(), doc(map(vec![("link", YamlValue::Bool(true))]), "b"));
    assert!(!render_plannable(&env(), &templates(), &all, true));
}

#[test]
fn a_string_front_matter_cannot_take_a_link() {
    let mut all = Discovered::default();
    all.insert("content/a.md".to_string(), doc(s("plain text"), "a"));
    assert!(render_plannable(&env(), &templates(), &all, false));
    assert!(!render_plannable(&env(), &templates(), &all, true));
}

#[test]
fn render_rss_reads_the_clock_and_succeeds() {
    let m = RssMap { groups: vec![RssFeedItems { group: "all".to_string(), items: vec![] }] };
    let mut o = RssOptions::default();
    o.rss_groups = vec![group("all", "feeds/all.xml")];
    let jobs = render_rss(&m, &o).unwrap();
    assert_eq!(jobs.len(), 1);
    assert_eq!(jobs[0].link, "feeds/all.xml");
    assert!(jobs[0].xml.contains("GMT"));
}

#[test]
fn a_single_group_is_tagged_as_a_list_of_one() {
    let fields = |g: YamlValue| {
        map(vec![("title", s("T")), ("link", s("/t")), ("date", s("02-03-2024")), ("author", s("me")), ("rss_group", g)])
    };
    let mut one = Discovered::default();
    one.insert("t.md".to_string(), doc(fields(s("all")), "t"));
    let mut list = Discovered::default();
    list.insert("t.md".to_string(), doc(fields(YamlValue::Sequence(vec![s("all")])), "t"));
    let now = Some("05-06-2024".to_string());
    let a = generate_rss_map_with_clock(&one, &RssOptions::default(), &now).unwrap();
    let b = generate_rss_map_with_clock(&list, &RssOptions::default(), &now).unwrap();
    let (x, y) = (&a.groups[0].items[0], &b.groups[0].items[0]);
    assert_eq!(a.groups[0].group, b.groups[0].group);
    assert_eq!((&x.title, &x.link, &x.description, &x.pub_date, &x.author), (&y.title, &y.link, &y.description, &y.pub_date, &y.author));
    assert!(x.pub_date.starts_with("Sat, 02 Mar 2024 00:00:00 "));
}

#[test]
fn rss_map_without_tagged_documents_needs_no_clock() {
    let mut all = Discovered::default();
    all.insert("c.md".to_string(), doc(map(vec![("title", s("C"))]), "c"));
    let m = generate_rss_map_with_clock(&all, &RssOptions::default(), &None).unwrap();
    assert!(m.groups.is_empty());
}
