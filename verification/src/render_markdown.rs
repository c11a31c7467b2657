//! Deciding where each document is served and with which template.
use vstd::prelude::*;
use crate::env::{CustomError, CustomErrorStage, RenderEnv};
use crate::load_memory::{Discovered, DiscoveredEntry, DiscoveredItem};
use crate::parse_markdown::{ContentDocument, DocModel};
use crate::text::{concat, trim, trim_end_char, trim_end_matches, trim_start_char, trim_start_matches, trim_ws};
use crate::yaml::{law_set_keeps_other_keys, text_eq, YamlModel, YamlValue};

verus! {

broadcast use vstd::std_specs::vec::group_vec_axioms;

/// The template a document asks for: its front matter's `template`, else the default.
pub open spec fn spec_requested_template(requested: Option<YamlModel>, default_template: Seq<char>) -> Seq<char> {
    match requested {
        Some(t) => t->Text_0,
        None => default_template,
    }
}

/// Whether `name` is one of the templates.
pub open spec fn has_template(templates: Seq<String>, name: Seq<char>) -> bool {
    exists|i: int| 0 <= i < templates.len() && (#[trigger] templates[i])@ == name
}

/// The message for a document whose template does not exist.
pub open spec fn template_missing_message() -> Seq<char> {
    "Error finding a proper template to render markdown."@
}

/// The views of an optional reference to a value.
pub open spec fn opt_ref_view(v: Option<&YamlValue>) -> Option<YamlModel> {
    match v {
        Some(x) => Some(x@),
        None => None,
    }
}

/// The template a document asks for, if the templates have it. A requested
/// template must be a string.
pub fn validate_template_request(
    requested_frontmatter_template: &Option<&YamlValue>,
    local_render_env: &RenderEnv,
    parsed_templates: &Vec<String>,
) -> (r: Result<String, CustomError>)
    requires
        opt_ref_view(*requested_frontmatter_template) matches Some(t) ==> t is Text,
    ensures
        match r {
            Ok(t) => t@ == spec_requested_template(
                opt_ref_view(*requested_frontmatter_template),
                local_render_env.default_template@,
            ) && has_template(parsed_templates@, t@),
            Err(e) => e.stage == CustomErrorStage::StaticRender && e.error@ == template_missing_message()
                && !has_template(
                parsed_templates@,
                spec_requested_template(opt_ref_view(*requested_frontmatter_template), local_render_env.default_template@),
            ),
        },
{
    let requested: &String = match requested_frontmatter_template {
        Some(t) => match t.as_str() {
            Some(s) => s,
            None => &local_render_env.default_template,
        },
        None => &local_render_env.default_template,
    };
    let mut i: usize = 0;
    while i < parsed_templates.len()
        invariant
            i <= parsed_templates.len(),
            requested@ == spec_requested_template(
                opt_ref_view(*requested_frontmatter_template),
                local_render_env.default_template@,
            ),
            forall|j: int| 0 <= j < i ==> parsed_templates@[j]@ != requested@,
        decreases parsed_templates.len() - i,
    {
        if text_eq(parsed_templates[i].as_str(), requested.as_str()) {
            return Ok(requested.clone());
        }
        i = i + 1;
    }
    Err(CustomError {
        stage: CustomErrorStage::StaticRender,
        error: "Error finding a proper template to render markdown.".to_owned(),
    })
}

/// A serving link cleaned of surrounding white space and of leading and trailing `/`.
pub open spec fn clean_path(link: Seq<char>) -> Seq<char> {
    trim_start_char(trim_end_char(trim_ws(link), '/'), '/')
}

/// The directory a document is served from: the static directory, then its
/// link, or its name where it has no link.
pub open spec fn spec_serve_dir(static_base: Seq<char>, link: Option<YamlModel>, file_name: Seq<char>) -> Seq<char> {
    let l = match link {
        Some(v) => v->Text_0,
        None => file_name,
    };
    static_base + "/"@ + clean_path(l)
}

/// The file a document is rendered to: `index.html` in its directory.
pub open spec fn spec_serve_file(static_base: Seq<char>, link: Option<YamlModel>, file_name: Seq<char>) -> Seq<char> {
    spec_serve_dir(static_base, link, file_name) + "/index.html"@
}

/// Where a document is served: the directory to create and the file to write.
#[derive(Debug)]
pub struct ServePath {
    pub dir: String,
    pub file: String,
}

/// Where a document is served: under its `link`, else under its name. A link
/// must be a string.
pub fn decide_static_serve_path(
    local_render_env: &RenderEnv,
    requested_frontmatter_serve_path: &Option<&YamlValue>,
    file_name: &str,
) -> (r: ServePath)
    requires
        opt_ref_view(*requested_frontmatter_serve_path) matches Some(t) ==> t is Text,
    ensures
        r.dir@ == spec_serve_dir(local_render_env.static_base@, opt_ref_view(*requested_frontmatter_serve_path), file_name@),
        r.file@ == spec_serve_file(local_render_env.static_base@, opt_ref_view(*requested_frontmatter_serve_path), file_name@),
{
    let link: &str = match requested_frontmatter_serve_path {
        Some(v) => match v.as_str() {
            Some(s) => s.as_str(),
            None => file_name,
        },
        None => file_name,
    };
    let a = trim(link);
    let b = trim_end_matches(a.as_str(), '/');
    let clean = trim_start_matches(b.as_str(), '/');
    let base = concat(local_render_env.static_base.as_str(), "/");
    let dir = concat(base.as_str(), clean.as_str());
    let file = concat(dir.as_str(), "/index.html");
    ServePath { dir, file }
}

/// A document to render: where it came from, where it goes, with which template.
#[derive(Debug)]
pub struct RenderJob {
    /// The path of the document's source file.
    pub source: String,
    /// The directory to create for it.
    pub serve_dir: String,
    /// The file to write.
    pub static_path: String,
    /// The template to render it with.
    pub template: String,
}

/// The model of a render job.
pub struct RenderJobModel {
    pub source: Seq<char>,
    pub serve_dir: Seq<char>,
    pub static_path: Seq<char>,
    pub template: Seq<char>,
}

impl View for RenderJob {
    type V = RenderJobModel;

    open spec fn view(&self) -> RenderJobModel {
        RenderJobModel {
            source: self.source@,
            serve_dir: self.serve_dir@,
            static_path: self.static_path@,
            template: self.template@,
        }
    }
}

/// The document's `link`.
pub open spec fn doc_link(d: DocModel) -> Option<YamlModel> {
    d.frontmatter.unwrap().lookup("link"@)
}

/// The document's `template`.
pub open spec fn doc_template_request(d: DocModel) -> Option<YamlModel> {
    d.frontmatter.unwrap().lookup("template"@)
}

/// The template the document is rendered with.
pub open spec fn doc_template(d: DocModel, default_template: Seq<char>) -> Seq<char> {
    spec_requested_template(doc_template_request(d), default_template)
}

/// The document has a front matter and a name, and its `link` and `template`,
/// where present, are strings.
pub open spec fn doc_render_ready(d: DocModel) -> bool {
    &&& d.frontmatter is Some
    &&& d.name is Some
    &&& doc_link(d) matches Some(l) ==> l is Text
    &&& doc_template_request(d) matches Some(t) ==> t is Text
}

/// The render job of a document.
pub open spec fn job_of(item: DiscoveredItem, static_base: Seq<char>, default_template: Seq<char>) -> RenderJobModel {
    RenderJobModel {
        source: item.path,
        serve_dir: spec_serve_dir(static_base, doc_link(item.doc), item.doc.name.unwrap()),
        static_path: spec_serve_file(static_base, doc_link(item.doc), item.doc.name.unwrap()),
        template: doc_template(item.doc, default_template),
    }
}

/// The document with `link` set in its front matter to the file it is rendered to.
pub open spec fn with_link(item: DiscoveredItem, static_base: Seq<char>) -> DiscoveredItem {
    DiscoveredItem {
        path: item.path,
        doc: DocModel {
            frontmatter: Some(item.doc.frontmatter.unwrap().with_key(
                "link"@,
                YamlModel::Text(spec_serve_file(static_base, doc_link(item.doc), item.doc.name.unwrap())),
            )),
            ..item.doc
        },
    }
}

/// Every document that is reached (all before it have their template) can be
/// planned, and where `injecting`, its front matter can take a `link`.
pub open spec fn plannable(items: Seq<DiscoveredItem>, default_template: Seq<char>, templates: Seq<String>, injecting: bool) -> bool {
    forall|i: int|
        0 <= i < items.len() && (forall|j: int| 0 <= j < i ==> has_template(templates, doc_template(#[trigger] items[j].doc, default_template)))
            ==> doc_render_ready(#[trigger] items[i].doc) && (injecting ==> items[i].doc.frontmatter.unwrap().accepts_key())
}

/// Whether a document can be planned: it has a front matter and a name, its
/// `link` and `template` are strings where present, and, where `injecting`,
/// its front matter can take a `link`.
fn doc_ready(doc: &ContentDocument, injecting: bool) -> (r: bool)
    ensures
        r == (doc_render_ready(doc@) && (injecting ==> doc@.frontmatter.unwrap().accepts_key())),
{
    if doc.name.is_none() {
        return false;
    }
    match &doc.frontmatter {
        None => false,
        Some(fm) => {
            let link_ok = match fm.get("link") {
                Some(l) => l.as_str().is_some(),
                None => true,
            };
            let template_ok = match fm.get("template") {
                Some(t) => t.as_str().is_some(),
                None => true,
            };
            let key_ok = match fm {
                YamlValue::Null => true,
                YamlValue::Mapping(_) => true,
                _ => false,
            };
            link_ok && template_ok && (!injecting || key_ok)
        },
    }
}

/// Whether `parallel_static_render` (where `injecting`) or `static_render`
/// (where not) can take the documents: every document up to the first whose
/// template is missing can be planned.
pub fn render_plannable(
    local_render_env: &RenderEnv,
    parsed_templates: &Vec<String>,
    full_content: &Discovered,
    injecting: bool,
) -> (r: bool)
    ensures
        r == plannable(full_content@, local_render_env.default_template@, parsed_templates@, injecting),
{
    let ghost items = full_content@;
    let ghost dt = local_render_env.default_template@;
    let ghost ts = parsed_templates@;
    let mut i: usize = 0;
    while i < full_content.data.len()
        invariant
            i <= full_content.data.len(),
            items == full_content@,
            dt == local_render_env.default_template@,
            ts == parsed_templates@,
            forall|j: int| 0 <= j < i ==> has_template(ts, doc_template(#[trigger] items[j].doc, dt)),
            forall|j: int| 0 <= j < i ==> doc_render_ready(#[trigger] items[j].doc) && (injecting
                ==> items[j].doc.frontmatter.unwrap().accepts_key()),
        decreases full_content.data.len() - i,
    {
        let doc = &full_content.data[i].doc;
        assert(items[i as int].doc == doc@);
        if !doc_ready(doc, injecting) {
            return false;
        }
        let fm = match &doc.frontmatter {
            Some(fm) => fm,
            None => vstd::pervasive::unreached(),
        };
        let requested = fm.get("template");
        if validate_template_request(&requested, local_render_env, parsed_templates).is_err() {
            assert forall|k: int|
                0 <= k < items.len() && (forall|j: int| 0 <= j < k ==> has_template(ts, doc_template(#[trigger] items[j].doc, dt)))
                implies doc_render_ready(#[trigger] items[k].doc) && (injecting ==> items[k].doc.frontmatter.unwrap().accepts_key()) by {
                if k > i {
                    assert(has_template(ts, doc_template(items[i as int].doc, dt)));
                }
            }
            return true;
        }
        i = i + 1;
    }
    true
}

/// `k` is the first document whose template does not exist.
pub open spec fn first_missing_template(items: Seq<DiscoveredItem>, default_template: Seq<char>, templates: Seq<String>, k: int) -> bool {
    &&& 0 <= k < items.len()
    &&& !has_template(templates, doc_template(items[k].doc, default_template))
    &&& forall|j: int| 0 <= j < k ==> has_template(templates, doc_template(#[trigger] items[j].doc, default_template))
}

/// Reading `template` is not affected by setting `link`.
proof fn lemma_link_keeps_template(fm: YamlModel, file: Seq<char>)
    requires
        fm.accepts_key(),
    ensures
        fm.with_key("link"@, YamlModel::Text(file)).lookup("template"@) == fm.lookup("template"@),
{
    reveal_strlit("link");
    reveal_strlit("template");
    assert("link"@ != "template"@) by {
        assert("link"@[0] != "template"@[0]);
    }
    law_set_keeps_other_keys(fm, "link"@, "template"@, YamlModel::Text(file));
}

/// Plans the rendering of every document, in order: where it is served (its
/// `link`, else its name, under the static directory) and with which template
/// (its `template`, else the default). The chosen file is written back into
/// the document's front matter as its `link`. Stops with an error at the
/// first document whose template does not exist; the documents before it and
/// that document have their `link` set, the rest are unchanged.
pub fn parallel_static_render(
    local_render_env: &RenderEnv,
    parsed_templates: &Vec<String>,
    full_content: &mut Discovered,
) -> (r: Result<Vec<RenderJob>, CustomError>)
    requires
        plannable(old(full_content)@, local_render_env.default_template@, parsed_templates@, true),
    ensures
        final(full_content)@.len() == old(full_content)@.len(),
        match r {
            Ok(jobs) => {
                &&& jobs@.len() == old(full_content)@.len()
                &&& forall|i: int| 0 <= i < jobs@.len() ==> #[trigger] jobs@[i]@ == job_of(
                    old(full_content)@[i],
                    local_render_env.static_base@,
                    local_render_env.default_template@,
                ) && has_template(parsed_templates@, jobs@[i]@.template)
                &&& forall|i: int| 0 <= i < old(full_content)@.len() ==> #[trigger] final(full_content)@[i] == with_link(
                    old(full_content)@[i],
                    local_render_env.static_base@,
                )
            },
            Err(e) => {
                &&& e.stage == CustomErrorStage::StaticRender
                &&& e.error@ == template_missing_message()
                &&& exists|k: int| {
                    &&& first_missing_template(old(full_content)@, local_render_env.default_template@, parsed_templates@, k)
                    &&& forall|i: int| 0 <= i < old(full_content)@.len() ==> #[trigger] final(full_content)@[i] == if i <= k {
                        with_link(old(full_content)@[i], local_render_env.static_base@)
                    } else {
                        old(full_content)@[i]
                    }
                }
            },
        },
{
    let ghost before = full_content@;
    let ghost base = local_render_env.static_base@;
    let ghost deft = local_render_env.default_template@;
    let mut jobs: Vec<RenderJob> = Vec::new();
    let mut i: usize = 0;
    while i < full_content.data.len()
        invariant
            i <= full_content.data.len(),
            before == old(full_content)@,
            base == local_render_env.static_base@,
            deft == local_render_env.default_template@,
            plannable(before, deft, parsed_templates@, true),
            full_content@.len() == before.len(),
            jobs@.len() == i,
            forall|j: int| 0 <= j < i ==> has_template(parsed_templates@, doc_template(#[trigger] before[j].doc, deft)),
            forall|j: int| 0 <= j < i ==> #[trigger] jobs@[j]@ == job_of(before[j], base, deft),
            forall|j: int| 0 <= j < i ==> #[trigger] full_content@[j] == with_link(before[j], base),
            forall|j: int| i <= j < before.len() ==> #[trigger] full_content@[j] == before[j],
        decreases full_content.data.len() - i,
    {
        let ghost prev = full_content.data@;
        let ghost prev_view = full_content@;
        assert(full_content@[i as int] == before[i as int]);
        assert(prev[i as int]@ == before[i as int]);
        assert(doc_render_ready(before[i as int].doc));
        let mut entry = DiscoveredEntry { path: String::new(), doc: ContentDocument::new("") };
        std::mem::swap(&mut entry, &mut full_content.data[i]);
        assert(entry == prev[i as int]);
        let mut fm = match entry.doc.frontmatter {
            Some(f) => f,
            None => vstd::pervasive::unreached(),
        };
        let name = match &entry.doc.name {
            Some(n) => n.clone(),
            None => vstd::pervasive::unreached(),
        };
        let serve = decide_static_serve_path(local_render_env, &fm.get("link"), name.as_str());
        let ghost fm_before = fm@;
        fm.set_key("link", YamlValue::String(serve.file.clone()));
        proof { lemma_link_keeps_template(fm_before, serve.file@); }
        let template = validate_template_request(&fm.get("template"), local_render_env, parsed_templates);
        entry.doc.frontmatter = Some(fm);
        let source = entry.path.clone();
        full_content.data.set(i, entry);
        assert(full_content.data@ =~= prev.update(i as int, entry));
        assert(full_content@[i as int] == with_link(before[i as int], base));
        assert forall|j: int| 0 <= j < before.len() && j != i implies #[trigger] full_content@[j] == prev_view[j] by {
            assert(full_content.data@[j] == prev[j]);
        }
        match template {
            Ok(t) => {
                jobs.push(RenderJob { source, serve_dir: serve.dir, static_path: serve.file, template: t });
            },
            Err(e) => {
                assert(first_missing_template(before, deft, parsed_templates@, i as int));
                return Err(e);
            },
        }
        i = i + 1;
    }
    Ok(jobs)
}

/// Plans the rendering of every document, in order, as `parallel_static_render`
/// does, without writing the `link` back. Stops with an error at the first
/// document whose template does not exist.
pub fn static_render(
    local_render_env: &RenderEnv,
    parsed_templates: &Vec<String>,
    full_content: &Discovered,
) -> (r: Result<Vec<RenderJob>, CustomError>)
    requires
        plannable(full_content@, local_render_env.default_template@, parsed_templates@, false),
    ensures
        match r {
            Ok(jobs) => {
                &&& jobs@.len() == full_content@.len()
                &&& forall|i: int| 0 <= i < jobs@.len() ==> #[trigger] jobs@[i]@ == job_of(
                    full_content@[i],
                    local_render_env.static_base@,
                    local_render_env.default_template@,
                ) && has_template(parsed_templates@, jobs@[i]@.template)
            },
            Err(e) => {
                &&& e.stage == CustomErrorStage::StaticRender
                &&& e.error@ == template_missing_message()
                &&& exists|k: int| first_missing_template(full_content@, local_render_env.default_template@, parsed_templates@, k)
            },
        },
{
    let ghost items = full_content@;
    let ghost base = local_render_env.static_base@;
    let ghost deft = local_render_env.default_template@;
    let mut jobs: Vec<RenderJob> = Vec::new();
    let mut i: usize = 0;
    while i < full_content.data.len()
        invariant
            i <= full_content.data.len(),
            items == full_content@,
            base == local_render_env.static_base@,
            deft == local_render_env.default_template@,
            plannable(items, deft, parsed_templates@, false),
            jobs@.len() == i,
            forall|j: int| 0 <= j < i ==> has_template(parsed_templates@, doc_template(#[trigger] items[j].doc, deft)),
            forall|j: int| 0 <= j < i ==> #[trigger] jobs@[j]@ == job_of(items[j], base, deft),
        decreases full_content.data.len() - i,
    {
        let entry = &full_content.data[i];
        assert(items[i as int] == entry@);
        assert(doc_render_ready(items[i as int].doc));
        let (fm, name) = match (&entry.doc.frontmatter, &entry.doc.name) {
            (Some(f), Some(n)) => (f, n),
            _ => vstd::pervasive::unreached(),
        };
        let serve = decide_static_serve_path(local_render_env, &fm.get("link"), name.as_str());
        match validate_template_request(&fm.get("template"), local_render_env, parsed_templates) {
            Ok(t) => {
                jobs.push(RenderJob { source: entry.path.clone(), serve_dir: serve.dir, static_path: serve.file, template: t });
            },
            Err(e) => {
                assert(first_missing_template(items, deft, parsed_templates@, i as int));
                return Err(e);
            },
        }
        i = i + 1;
    }
    Ok(jobs)
}

/// After planning, a document's `link` reads back as the file it is rendered to.
pub proof fn law_link_reads_back(item: DiscoveredItem, static_base: Seq<char>)
    requires
        item.doc.frontmatter matches Some(fm) && fm.accepts_key(),
    ensures
        with_link(item, static_base).doc.frontmatter.unwrap().lookup("link"@) == Some(
            YamlModel::Text(spec_serve_file(static_base, doc_link(item.doc), item.doc.name.unwrap())),
        ),
{
    crate::yaml::law_get_after_set(
        item.doc.frontmatter.unwrap(),
        "link"@,
        YamlModel::Text(spec_serve_file(static_base, doc_link(item.doc), item.doc.name.unwrap())),
    );
}

} // verus!
