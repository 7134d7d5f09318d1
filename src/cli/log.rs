use vstd::prelude::*;

verus! {

/// How a line of terminal output is shown.
#[derive(Clone, Debug)]
pub enum Style {
    Message(String),
    Important(String),
    Error(String),
}

} // verus!
