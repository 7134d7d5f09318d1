use vstd::prelude::*;

use parameters::{create_parameters, parameters_text};

pub mod parameters;

verus! {

/// Why the launch agent could not be described.
#[derive(Clone, Copy, Debug, PartialEq, Eq)]
pub enum DaemonError {
    /// The running executable's path is not valid UTF-8.
    ExePath,
}

impl DaemonError {
    pub fn message(&self) -> (r: &'static str)
        ensures
            r@ == "Executable path is invalid"@,
    {
        match self {
            DaemonError::ExePath => "Executable path is invalid",
        }
    }
}

/// The launch agent's property list for the executable at `exe_path`, which
/// is `None` where that path is not valid UTF-8.
pub fn create_launch_agent_plist_content(exe_path: Option<&str>, label: &str) -> (r: Result<
    String,
    DaemonError,
>)
    ensures
        exe_path is None ==> r == Err::<String, DaemonError>(DaemonError::ExePath),
        exe_path matches Some(p) ==> r matches Ok(s) && s@ == parameters_text(p@, label@),
{
    match exe_path {
        None => Err(DaemonError::ExePath),
        Some(path) => Ok(create_parameters(path, label)),
    }
}

} // verus!
