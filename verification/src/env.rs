//! The run configuration and the error type of the pipeline.
use vstd::prelude::*;

verus! {

/// The pipeline stage at which an error arose.
#[derive(Debug, PartialEq, Eq, Structural)]
pub enum CustomErrorStage {
    ParseTemplates,
    ParseMarkdown,
    StaticRender,
    Bootstrap,
}

/// An error of the pipeline: its stage and a message.
#[derive(Debug)]
pub struct CustomError {
    pub stage: CustomErrorStage,
    pub error: String,
}

/// What the program was asked to do.
#[derive(Debug)]
pub enum Commands {
    /// Create a new project at the given path.
    Bootstrap { project_name: Option<String> },
    /// Build the site (and serve it when asked).
    Run,
}

/// The run configuration: where the project's parts lie and how to serve it.
#[derive(Debug)]
pub struct RenderEnv {
    pub template_base: String,
    pub content_base: String,
    pub static_base: String,
    pub settings_yaml: String,
    pub css_base: String,
    pub assets_base: String,
    pub default_template: String,
    pub debug: bool,
    pub serve: bool,
    pub serve_port: String,
    pub livereload: bool,
    pub mode: Commands,
}

/// The levels of logging that the settings file can name.
#[derive(Debug, PartialEq, Eq, Structural)]
pub enum LogLevel {
    Off,
    Trace,
    Debug,
    Info,
    Warn,
    Error,
}

/// The level that the setting `logging.level` names; an unknown name means `Info`.
pub open spec fn spec_log_level(name: Seq<char>) -> LogLevel {
    if name == "OFF"@ {
        LogLevel::Off
    } else if name == "TRACE"@ {
        LogLevel::Trace
    } else if name == "INFO"@ {
        LogLevel::Info
    } else if name == "DEBUG"@ {
        LogLevel::Debug
    } else if name == "WARN"@ {
        LogLevel::Warn
    } else if name == "ERROR"@ {
        LogLevel::Error
    } else {
        LogLevel::Info
    }
}

/// The log level that a name from the settings file selects.
pub fn log_level_from_name(name: &str) -> (r: LogLevel)
    ensures
        r == spec_log_level(name@),
{
    if crate::yaml::text_eq(name, "OFF") {
        LogLevel::Off
    } else if crate::yaml::text_eq(name, "TRACE") {
        LogLevel::Trace
    } else if crate::yaml::text_eq(name, "INFO") {
        LogLevel::Info
    } else if crate::yaml::text_eq(name, "DEBUG") {
        LogLevel::Debug
    } else if crate::yaml::text_eq(name, "WARN") {
        LogLevel::Warn
    } else if crate::yaml::text_eq(name, "ERROR") {
        LogLevel::Error
    } else {
        LogLevel::Info
    }
}

} // verus!
