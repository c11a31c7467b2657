//! Sapling: the content pipeline of a static site generator.
//!
//! Markdown documents with a YAML front matter are read into memory, indexed
//! (forward and reverse indexes over front-matter fields), assigned a serving
//! path and a template, and collected into RSS feeds. Reading and writing
//! files, template rendering and serving stay with the caller.
pub mod bootstrap;
pub mod env;
pub mod index;
pub mod load_memory;
pub mod parse_markdown;
pub mod render_markdown;
pub mod reverse_index;
pub mod rss;
pub mod rss_utils;
pub mod setting_yaml;
pub mod text;
pub mod yaml;
