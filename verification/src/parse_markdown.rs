//! Reading one markdown document: its name, its front matter and its HTML.
use vstd::prelude::*;
use comrak::{format_html, nodes::NodeValue, parse_document, Arena, ComrakOptions};
use crate::env::{CustomError, CustomErrorStage};
use crate::index::{ForwardIndex, IndexBucket};
use crate::text::{concat, trim, trim_end_matches, trim_end_matches_str, trim_start_matches};
use crate::text::{trim_end_char, trim_end_str, trim_start_char, trim_ws};
use crate::yaml::{from_serde_value, YamlModel, YamlValue};
use serde_yaml::Value;

verus! {

/// A markdown document as the pipeline holds it.
#[derive(Debug)]
pub struct ContentDocument {
    /// The front matter as written (cleaned of its delimiters).
    pub frontmatter_raw: Option<String>,
    /// The front matter, read as YAML.
    pub frontmatter: Option<YamlValue>,
    /// The document rendered to HTML.
    pub content: Option<String>,
    /// The document's name: its `name` field, else its file name.
    pub name: Option<String>,
    /// The forward index of the whole site, once merged in.
    pub forwardindex: Option<ForwardIndex>,
}

/// The model of a document.
pub struct DocModel {
    pub frontmatter_raw: Option<Seq<char>>,
    pub frontmatter: Option<YamlModel>,
    pub content: Option<Seq<char>>,
    pub name: Option<Seq<char>>,
    pub forwardindex: Option<Seq<IndexBucket>>,
}

impl View for ContentDocument {
    type V = DocModel;

    open spec fn view(&self) -> DocModel {
        DocModel {
            frontmatter_raw: match self.frontmatter_raw {
                Some(s) => Some(s@),
                None => None,
            },
            frontmatter: match self.frontmatter {
                Some(v) => Some(v@),
                None => None,
            },
            content: match self.content {
                Some(s) => Some(s@),
                None => None,
            },
            name: match self.name {
                Some(s) => Some(s@),
                None => None,
            },
            forwardindex: match self.forwardindex {
                Some(f) => Some(f@),
                None => None,
            },
        }
    }
}

impl ContentDocument {
    /// An empty document with the given name and an empty forward index.
    pub fn new(file_name: &str) -> (r: ContentDocument)
        ensures
            r@ == (DocModel {
                frontmatter_raw: None,
                frontmatter: None,
                content: None,
                name: Some(file_name@),
                forwardindex: Some(Seq::empty()),
            }),
    {
        ContentDocument {
            frontmatter_raw: None,
            frontmatter: None,
            content: None,
            name: Some(file_name.to_owned()),
            forwardindex: Some(ForwardIndex::new()),
        }
    }

    /// A copy of the document.
    pub fn duplicate(&self) -> (r: ContentDocument)
        ensures
            r@ == self@,
    {
        ContentDocument {
            frontmatter_raw: match &self.frontmatter_raw {
                Some(s) => Some(s.clone()),
                None => None,
            },
            frontmatter: match &self.frontmatter {
                Some(v) => Some(v.duplicate()),
                None => None,
            },
            content: match &self.content {
                Some(s) => Some(s.clone()),
                None => None,
            },
            name: match &self.name {
                Some(s) => Some(s.clone()),
                None => None,
            },
            forwardindex: match &self.forwardindex {
                Some(f) => Some(f.duplicate()),
                None => None,
            },
        }
    }
}

/// The options for rendering markdown.
#[derive(Debug)]
pub struct MDRenderOptions {
    /// Pass raw HTML in the markdown through (otherwise it is left out).
    pub unsafe_render: bool,
}

impl MDRenderOptions {
    /// Raw HTML is left out.
    pub fn default() -> (r: MDRenderOptions)
        ensures
            !r.unsafe_render,
    {
        MDRenderOptions { unsafe_render: false }
    }
}

/// What `std::path::Path::file_name` returns for a path: its last component.
pub uninterp spec fn std_path_file_name(path: Seq<char>) -> Option<Seq<char>>;

/// Calls `std::path::Path::file_name` on `path`. Claimed: the result is the
/// function `std_path_file_name` of the path (nothing more is stated of it).
#[verifier::external_body]
fn path_file_name(path: &str) -> (r: Option<String>)
    ensures
        match r {
            Some(n) => std_path_file_name(path@) == Some(n@),
            None => std_path_file_name(path@) is None,
        },
{
    std::path::Path::new(path).file_name().map(|n| n.to_string_lossy().into_owned())
}

/// What comrak (with a `---` front-matter delimiter) finds as the front matter
/// of a markdown text: `Ok(Some(text))` when the document's first node is a
/// front matter, `Ok(None)` when there is none, `Err(message)` when its bytes
/// are not UTF-8.
pub uninterp spec fn comrak_front_matter(markdown: Seq<char>) -> Result<Option<Seq<char>>, Seq<char>>;

/// Parses `md` with `comrak::parse_document` (front matter delimited by `---`,
/// strikethrough, tables and task lists on) and reads the document's first
/// node. Claimed: the result is the function `comrak_front_matter` of the text.
#[verifier::external_body]
fn markdown_front_matter(md: &str) -> (r: Result<Option<String>, String>)
    ensures
        match r {
            Ok(Some(t)) => comrak_front_matter(md@) == Ok::<Option<Seq<char>>, Seq<char>>(Some(t@)),
            Ok(None) => comrak_front_matter(md@) == Ok::<Option<Seq<char>>, Seq<char>>(None),
            Err(e) => comrak_front_matter(md@) == Err::<Option<Seq<char>>, Seq<char>>(e@),
        },
{
    let mut o = ComrakOptions::default();
    o.extension.front_matter_delimiter = Some("---".to_owned());
    o.extension.strikethrough = true;
    o.extension.table = true;
    o.extension.tasklist = true;
    let arena = Arena::new();
    let root = parse_document(&arena, md, &o);
    let first = root.children().nth(0);
    match first.map(|n| n.data.borrow().value.clone()) {
        Some(NodeValue::FrontMatter(t)) => String::from_utf8(t).map(Some).map_err(|e| e.to_string()),
        _ => Ok(None),
    }
}

/// What comrak renders a markdown text to (same extensions; raw HTML kept when
/// `unsafe_render`): `Ok(html)`, or `Err(Some(message))` when formatting fails,
/// `Err(None)` when the output is not UTF-8.
pub uninterp spec fn comrak_html(markdown: Seq<char>, unsafe_render: bool) -> Result<Seq<char>, Option<Seq<char>>>;

/// Renders `md` with `comrak::parse_document` and `comrak::format_html`.
/// Claimed: the result is the function `comrak_html` of the text and the flag.
#[verifier::external_body]
fn markdown_html(md: &str, unsafe_render: bool) -> (r: Result<String, Option<String>>)
    ensures
        match r {
            Ok(h) => comrak_html(md@, unsafe_render) == Ok::<Seq<char>, Option<Seq<char>>>(h@),
            Err(Some(e)) => comrak_html(md@, unsafe_render) == Err::<Seq<char>, Option<Seq<char>>>(Some(e@)),
            Err(None) => comrak_html(md@, unsafe_render) == Err::<Seq<char>, Option<Seq<char>>>(None),
        },
{
    let mut o = ComrakOptions::default();
    o.extension.front_matter_delimiter = Some("---".to_owned());
    o.extension.strikethrough = true;
    o.extension.table = true;
    o.extension.tasklist = true;
    o.render.unsafe_ = unsafe_render;
    let arena = Arena::new();
    let mut html = vec![];
    match format_html(parse_document(&arena, md, &o), &o, &mut html) {
        Ok(_) => String::from_utf8(html).map_err(|_| None),
        Err(e) => Err(Some(e.to_string())),
    }
}

/// The front matter used when a document has none.
pub open spec fn default_front_matter() -> Seq<char> {
    "template: index.html\n"@
}

/// The front matter text with surrounding white space and `-` delimiters removed.
pub open spec fn clean_front_matter(t: Seq<char>) -> Seq<char> {
    trim_start_char(trim_end_char(trim_ws(t), '-'), '-')
}

/// The document's file name without its `.md` ending(s).
pub open spec fn spec_file_stem(path: Seq<char>) -> Option<Seq<char>> {
    match std_path_file_name(path) {
        Some(n) => Some(trim_end_str(n, ".md"@)),
        None => None,
    }
}

/// The document's name and raw front matter, or the error message.
pub open spec fn spec_read_front_matter(path: Seq<char>, md: Seq<char>) -> Result<(Seq<char>, Seq<char>), Seq<char>> {
    match spec_file_stem(path) {
        None => Err("[ERROR] Couldn't find markdown files name from path : "@ + path),
        Some(stem) => match comrak_front_matter(md) {
            Err(e) => Err("[ERROR] error parsing frontmatter in "@ + path + " : "@ + e),
            Ok(None) => Ok((stem, default_front_matter())),
            Ok(Some(t)) => Ok((stem, clean_front_matter(t))),
        },
    }
}

/// A document's file name and its raw front matter, before the front matter is read as YAML.
#[derive(Debug)]
pub struct RawDocument {
    pub name: String,
    pub frontmatter_raw: String,
}

/// The name (file name without `.md`) and the raw front matter of the markdown
/// text `md` read from `md_file_path`. A document without front matter gets
/// `template: index.html`.
pub fn read_frontmatter(md_file_path: &str, md: &str) -> (r: Result<RawDocument, CustomError>)
    ensures
        match r {
            Ok(d) => spec_read_front_matter(md_file_path@, md@) == Ok::<(Seq<char>, Seq<char>), Seq<char>>((d.name@, d.frontmatter_raw@)),
            Err(e) => e.stage == CustomErrorStage::ParseMarkdown
                && spec_read_front_matter(md_file_path@, md@) == Err::<(Seq<char>, Seq<char>), Seq<char>>(e.error@),
        },
{
    let file_name = match path_file_name(md_file_path) {
        Some(n) => n,
        None => {
            return Err(CustomError {
                stage: CustomErrorStage::ParseMarkdown,
                error: concat("[ERROR] Couldn't find markdown files name from path : ", md_file_path),
            });
        },
    };
    let name = trim_end_matches_str(file_name.as_str(), ".md");
    let frontmatter_raw = match markdown_front_matter(md) {
        Err(e) => {
            let m = concat("[ERROR] error parsing frontmatter in ", md_file_path);
            let m = concat(m.as_str(), " : ");
            return Err(CustomError { stage: CustomErrorStage::ParseMarkdown, error: concat(m.as_str(), e.as_str()) });
        },
        Ok(None) => "template: index.html\n".to_owned(),
        Ok(Some(t)) => {
            let a = trim(t.as_str());
            let b = trim_end_matches(a.as_str(), '-');
            trim_start_matches(b.as_str(), '-')
        },
    };
    Ok(RawDocument { name, frontmatter_raw })
}

/// The name a document gets: its front matter's `name`, else its file name.
pub open spec fn spec_doc_name(fm: YamlModel, stem: Seq<char>) -> Seq<char> {
    match fm.lookup("name"@) {
        Some(n) => n->Text_0,
        None => stem,
    }
}

/// The front matter as read from YAML is one that `parse` accepts: present, and
/// its `name` field, where there is one, a string.
pub open spec fn front_matter_acceptable(fm: Option<YamlModel>) -> bool {
    match fm {
        Some(v) => v.lookup("name"@) matches Some(n) ==> n is Text,
        None => false,
    }
}

/// Whether `parse` can take the front matter as read from YAML: it is present,
/// and its `name`, where it has one, is a string.
pub fn front_matter_accepted(fm: &Option<YamlValue>) -> (r: bool)
    ensures
        r == front_matter_acceptable(match fm {
            Some(v) => Some(v@),
            None => None,
        }),
{
    match fm {
        None => false,
        Some(v) => match v.get("name") {
            Some(n) => n.as_str().is_some(),
            None => true,
        },
    }
}

/// The document that `parse` makes, or the error message.
pub open spec fn spec_parse(
    path: Seq<char>,
    md: Seq<char>,
    unsafe_render: bool,
    fm: Result<Option<YamlModel>, Seq<char>>,
) -> Result<DocModel, Seq<char>> {
    match spec_read_front_matter(path, md) {
        Err(e) => Err(e),
        Ok((stem, raw)) => match fm {
            Err(e) => Err("[ERROR] error parsing yaml : "@ + e),
            Ok(f) => match comrak_html(md, unsafe_render) {
                Err(Some(e)) => Err("[ERROR] Error parsing html from markdown in file "@ + path + " : "@ + e),
                Err(None) => Err(html_encoding_message()),
                Ok(html) => Ok(DocModel {
                    frontmatter_raw: Some(raw),
                    frontmatter: f,
                    content: Some(html),
                    name: Some(spec_doc_name(f.unwrap(), stem)),
                    forwardindex: Some(Seq::empty()),
                }),
            },
        },
    }
}

/// The message for HTML output that is not UTF-8.
pub open spec fn html_encoding_message() -> Seq<char> {
    "[ERROR] Error formning string from parsed html vector, possibly bad encoding or illegal charecters. Please stick to utf-8"@
}

/// The views of a front matter as read from YAML.
pub open spec fn yaml_result_view(r: Result<Option<YamlValue>, String>) -> Result<Option<YamlModel>, Seq<char>> {
    match r {
        Ok(Some(v)) => Ok(Some(v@)),
        Ok(None) => Ok(None),
        Err(e) => Err(e@),
    }
}

/// `r` is what `parse` returns for these inputs: the document `spec_parse`
/// makes, or its error message at the markdown stage.
pub open spec fn parse_outcome(
    r: Result<Option<ContentDocument>, CustomError>,
    path: Seq<char>,
    md: Seq<char>,
    unsafe_render: bool,
    fm: Result<Option<YamlModel>, Seq<char>>,
) -> bool {
    match r {
        Ok(Some(d)) => spec_parse(path, md, unsafe_render, fm) == Ok::<DocModel, Seq<char>>(d@),
        Ok(None) => false,
        Err(e) => e.stage == CustomErrorStage::ParseMarkdown && spec_parse(path, md, unsafe_render, fm) == Err::<
            DocModel,
            Seq<char>,
        >(e.error@),
    }
}

/// Reads the markdown text `md` of the file `md_file_path` into a document.
/// `frontmatter` is the raw front matter (as `read_frontmatter` gives it) read
/// as YAML, or the parser's error message. The document's name is the front
/// matter's `name`, else the file name without `.md`; its content is the HTML.
pub fn parse(
    md_render_config: &MDRenderOptions,
    md_file_path: &str,
    md: &str,
    frontmatter: Result<Option<YamlValue>, String>,
) -> (r: Result<Option<ContentDocument>, CustomError>)
    requires
        spec_read_front_matter(md_file_path@, md@) is Ok ==> match frontmatter {
            Ok(f) => front_matter_acceptable(match f {
                Some(v) => Some(v@),
                None => None,
            }),
            Err(_) => true,
        },
    ensures
        parse_outcome(r, md_file_path@, md@, md_render_config.unsafe_render, yaml_result_view(frontmatter)),
{
    let raw = match read_frontmatter(md_file_path, md) {
        Ok(d) => d,
        Err(e) => return Err(e),
    };
    let fm = match frontmatter {
        Ok(Some(v)) => v,
        Ok(None) => vstd::pervasive::unreached(),
        Err(e) => {
            return Err(CustomError {
                stage: CustomErrorStage::ParseMarkdown,
                error: concat("[ERROR] error parsing yaml : ", e.as_str()),
            });
        },
    };
    let name = match fm.get("name") {
        Some(n) => match n.as_str() {
            Some(s) => s.clone(),
            None => raw.name.clone(),
        },
        None => raw.name.clone(),
    };
    let html = match markdown_html(md, md_render_config.unsafe_render) {
        Ok(h) => h,
        Err(Some(e)) => {
            let m = concat("[ERROR] Error parsing html from markdown in file ", md_file_path);
            let m = concat(m.as_str(), " : ");
            return Err(CustomError { stage: CustomErrorStage::ParseMarkdown, error: concat(m.as_str(), e.as_str()) });
        },
        Err(None) => {
            return Err(CustomError {
                stage: CustomErrorStage::ParseMarkdown,
                error: "[ERROR] Error formning string from parsed html vector, possibly bad encoding or illegal charecters. Please stick to utf-8".to_owned(),
            });
        },
    };
    let doc = ContentDocument {
        frontmatter_raw: Some(raw.frontmatter_raw),
        frontmatter: Some(fm),
        content: Some(html),
        name: Some(name),
        forwardindex: Some(ForwardIndex::new()),
    };
    Ok(Some(doc))
}

/// Reads the document as `parse` does where `parse` can take the front
/// matter given; `None` where the document's front matter reads but the YAML
/// front matter is empty or has a `name` that is not a string.
pub fn parse_if_accepted(
    md_render_config: &MDRenderOptions,
    md_file_path: &str,
    md: &str,
    frontmatter: Result<Option<YamlValue>, String>,
) -> (r: Option<Result<Option<ContentDocument>, CustomError>>)
    ensures
        r is None <==> (spec_read_front_matter(md_file_path@, md@) is Ok && match frontmatter {
            Ok(f) => !front_matter_acceptable(match f {
                Some(v) => Some(v@),
                None => None,
            }),
            Err(_) => false,
        }),
        r matches Some(x) ==> parse_outcome(
            x,
            md_file_path@,
            md@,
            md_render_config.unsafe_render,
            yaml_result_view(frontmatter),
        ),
{
    if read_frontmatter(md_file_path, md).is_ok() {
        if let Ok(f) = &frontmatter {
            if !front_matter_accepted(f) {
                return None;
            }
        }
    }
    Some(parse(md_render_config, md_file_path, md, frontmatter))
}

/// What serde_yaml reads from a YAML text as an optional value
/// (`serde_yaml::from_str::<Option<serde_yaml::Value>>`), as the library's
/// model of it (tags dropped, numbers as the text serde_yaml prints), or the
/// message of its error.
pub uninterp spec fn serde_yaml_read(text: Seq<char>) -> Result<Option<YamlModel>, Seq<char>>;

/// Reads a YAML text with `serde_yaml::from_str::<Option<serde_yaml::Value>>`
/// and converts what it reads. Claimed: the result is the function
/// `serde_yaml_read` of the text.
#[verifier::external_body]
pub(crate) fn read_yaml(text: &str) -> (r: Result<Option<YamlValue>, String>)
    ensures
        yaml_result_view(r) == serde_yaml_read(text@),
{
    match serde_yaml::from_str::<Option<Value>>(text) {
        Ok(v) => Ok(v.as_ref().map(from_serde_value)),
        Err(e) => Err(e.to_string()),
    }
}

/// The front matter of a markdown text as read from YAML, where its raw front
/// matter can be had (else the error message of reading it).
pub open spec fn text_front_matter(path: Seq<char>, md: Seq<char>) -> Result<Option<YamlModel>, Seq<char>> {
    match spec_read_front_matter(path, md) {
        Ok((_, raw)) => serde_yaml_read(raw),
        Err(e) => Err(e),
    }
}

/// Reads the markdown text `md` of the file `md_file_path` into a document:
/// its raw front matter (see `read_frontmatter`) is read as YAML and the
/// document is made as `parse` makes it. `None` where the front matter reads
/// as YAML but is empty or has a `name` that is not a string: such a document
/// is left out.
pub fn parse_text(md_render_config: &MDRenderOptions, md_file_path: &str, md: &str) -> (r: Option<
    Result<Option<ContentDocument>, CustomError>,
>)
    ensures
        r is None <==> (spec_read_front_matter(md_file_path@, md@) is Ok && match text_front_matter(md_file_path@, md@) {
            Ok(f) => !front_matter_acceptable(f),
            Err(_) => false,
        }),
        r matches Some(x) ==> parse_outcome(
            x,
            md_file_path@,
            md@,
            md_render_config.unsafe_render,
            text_front_matter(md_file_path@, md@),
        ),
{
    match read_frontmatter(md_file_path, md) {
        Err(e) => Some(Err(e)),
        Ok(raw) => {
            let fm = read_yaml(raw.frontmatter_raw.as_str());
            parse_if_accepted(md_render_config, md_file_path, md, fm)
        },
    }
}

} // verus!

