use vstd::prelude::*;

verus! {

/// Property list up to the launch agent's label.
pub const PLIST_HEAD: &'static str = "\n<?xml version=\"1.0\" encoding=\"UTF-8\" ?>\n<!DOCTYPE plist PUBLIC \"-//Apple//DTD PLIST 1.0//EN\" \"http://www.apple.com/DTDs/PropertyList-1.0.dtd\">\n<plist version=\"1.0\">\n  <dict>\n    <key>Label</key>\n    <string>";

/// Between the label and the program path.
pub const PLIST_PROGRAM: &'static str = "</string>\n    <key>Program</key>\n    <string>";

/// Between the program path and the program path again, as first argument.
pub const PLIST_ARGUMENTS: &'static str = "</string>\n    <key>ProgramArguments</key>\n    <array>\n      <string>";

/// After the first argument: the `run` command, and a weekly start on
/// Mondays at 10:00.
pub const PLIST_TAIL: &'static str = "</string>\n      <string>run</string>\n    </array>\n    <key>StartCalendarInterval</key>\n    <array>\n      <dict>\n        <key>Weekday</key>\n        <integer>1</integer>\n        <key>Hour</key>\n        <integer>10</integer>\n        <key>Minute</key>\n        <integer>00</integer>\n      </dict>\n    </array>\n  </dict>\n</plist>\n";

pub open spec fn parameters_text(exe_path: Seq<char>, label: Seq<char>) -> Seq<char> {
    PLIST_HEAD@ + label + PLIST_PROGRAM@ + exe_path + PLIST_ARGUMENTS@ + exe_path + PLIST_TAIL@
}

/// The launch agent's property list: label `label`, running `exe_path run`
/// every Monday at 10:00.
pub fn create_parameters(exe_path: &str, label: &str) -> (r: String)
    ensures
        r@ == parameters_text(exe_path@, label@),
{
    String::from_str(PLIST_HEAD).concat(label).concat(PLIST_PROGRAM).concat(exe_path).concat(
        PLIST_ARGUMENTS,
    ).concat(exe_path).concat(PLIST_TAIL)
}

} // verus!
