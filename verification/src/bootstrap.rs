//! Creating a new project from the starter project.
use vstd::prelude::*;
use crate::env::{CustomError, CustomErrorStage};
use crate::text::{concat, trim_end_char, trim_end_matches, trim_start_char, trim_start_matches};

verus! {

/// What is found at the path of the new project.
#[derive(Debug, PartialEq, Eq, Structural)]
pub enum ProjectDir {
    /// Nothing: the folder is to be created.
    Missing,
    /// An empty folder.
    Empty,
    /// A folder with something in it.
    NotEmpty,
}

/// Whether a new project can go where asked: into an existing empty folder
/// (`Ok(false)`), into a folder still to be created (`Ok(true)`); never into a
/// folder that is not empty.
pub fn bootstrap_plan(found: ProjectDir) -> (r: Result<bool, CustomError>)
    ensures
        match found {
            ProjectDir::Missing => r matches Ok(create) && create,
            ProjectDir::Empty => r matches Ok(create) && !create,
            ProjectDir::NotEmpty => r matches Err(e) && e.stage == CustomErrorStage::Bootstrap
                && e.error@ == "[ERROR] Folder is not empty!"@,
        },
{
    match found {
        ProjectDir::Missing => Ok(true),
        ProjectDir::Empty => Ok(false),
        ProjectDir::NotEmpty => Err(CustomError {
            stage: CustomErrorStage::Bootstrap,
            error: "[ERROR] Folder is not empty!".to_owned(),
        }),
    }
}

/// Where a file of the starter project, at `relative` inside it, goes in the
/// new project `project_name`.
pub fn bootstrap_target_path(project_name: &str, relative: &str) -> (r: String)
    ensures
        r@ == trim_end_char(project_name@, '/') + "/"@ + trim_start_char(relative@, '/'),
{
    let name = trim_end_matches(project_name, '/');
    let rel = trim_start_matches(relative, '/');
    let a = concat(name.as_str(), "/");
    concat(a.as_str(), rel.as_str())
}

} // verus!
