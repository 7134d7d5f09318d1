use vstd::prelude::*;

use crate::config::Config;
use crate::text::str_equal;

pub mod log;
pub mod rundaemon;

verus! {

/// What the tool was asked to do on its command line.
#[derive(Clone, Copy, Debug, PartialEq, Eq)]
pub enum Command {
    Config,
    Run,
    RunD,
    InstallD,
    Invalid,
    Help,
}

/// The command named by the first command-line argument, if any.
pub open spec fn command_for(arg: Option<Seq<char>>) -> Command {
    match arg {
        Some(a) => if a == "run"@ {
            Command::Run
        } else if a == "rund"@ {
            Command::RunD
        } else if a == "config"@ {
            Command::Config
        } else if a == "installd"@ {
            Command::InstallD
        } else if a == "--help"@ || a == "-h"@ {
            Command::Help
        } else {
            Command::Invalid
        },
        None => Command::Invalid,
    }
}

/// One-line description of each command that does work.
pub open spec fn summary(c: Command) -> Seq<char> {
    match c {
        Command::Config => "allows to configure the slack hook, and repo path"@,
        Command::Run => "runs the program"@,
        Command::RunD => "it's designed to be used by the launch agent (daemon)"@,
        Command::InstallD => "installs the launch agent parameters in user's space"@,
        _ => Seq::empty(),
    }
}

/// The help text of each command; for `Help`, the usage of them all.
pub open spec fn help_text(c: Command) -> Seq<char> {
    match c {
        Command::Help => "\ngitretro v0.1.0\n\nCOMMANDS\nrun         "@ + summary(Command::Run)
            + "\nrund        "@ + summary(Command::RunD) + "\ninstalld    "@ + summary(
            Command::InstallD,
        ) + "\nconfig      "@ + summary(Command::Config) + "\nhelp        prints this message\n"@,
        Command::Invalid => Seq::empty(),
        _ => summary(c),
    }
}

fn summary_of(c: Command) -> (r: &'static str)
    ensures
        r@ == summary(c),
{
    match c {
        Command::Config => "allows to configure the slack hook, and repo path",
        Command::Run => "runs the program",
        Command::RunD => "it's designed to be used by the launch agent (daemon)",
        Command::InstallD => "installs the launch agent parameters in user's space",
        _ => {
            proof {
                reveal_strlit("");
            }
            ""
        },
    }
}

impl Command {
    /// The command named by `arg`, the first command-line argument.
    pub fn from_argument(arg: Option<&str>) -> (r: Command)
        ensures
            r == command_for(
                match arg {
                    Some(a) => Some(a@),
                    None => None,
                },
            ),
    {
        match arg {
            Some(a) => if str_equal(a, "run") {
                Command::Run
            } else if str_equal(a, "rund") {
                Command::RunD
            } else if str_equal(a, "config") {
                Command::Config
            } else if str_equal(a, "installd") {
                Command::InstallD
            } else if str_equal(a, "--help") || str_equal(a, "-h") {
                Command::Help
            } else {
                Command::Invalid
            },
            None => Command::Invalid,
        }
    }

    pub fn help(&self) -> (r: String)
        ensures
            r@ == help_text(*self),
    {
        match self {
            Command::Help => String::from_str("\ngitretro v0.1.0\n\nCOMMANDS\nrun         ").concat(
                summary_of(Command::Run),
            ).concat("\nrund        ").concat(summary_of(Command::RunD)).concat(
                "\ninstalld    ",
            ).concat(summary_of(Command::InstallD)).concat("\nconfig      ").concat(
                summary_of(Command::Config),
            ).concat("\nhelp        prints this message\n"),
            Command::Invalid => String::new(),
            _ => String::from_str(summary_of(*self)),
        }
    }
}

/// Why the answers to the configuration questions were refused.
#[derive(Clone, Copy, Debug, PartialEq, Eq)]
pub enum ConfigError {
    /// The repository path or the web hook was left empty.
    Incomplete,
}

impl ConfigError {
    pub fn message(&self) -> (r: &'static str)
        ensures
            r@ == "Failed to create a new config"@,
    {
        match self {
            ConfigError::Incomplete => "Failed to create a new config",
        }
    }
}

/// White space as `char::is_whitespace` defines it (the Unicode
/// `White_Space` property).
pub open spec fn is_white(c: char) -> bool {
    let u = c as int;
    ||| 9 <= u <= 13
    ||| u == 32
    ||| u == 0x85
    ||| u == 0xA0
    ||| u == 0x1680
    ||| 0x2000 <= u <= 0x200A
    ||| u == 0x2028
    ||| u == 0x2029
    ||| u == 0x202F
    ||| u == 0x205F
    ||| u == 0x3000
}

/// Index of the first character at or after `i` that is not white space.
pub open spec fn lead_end(s: Seq<char>, i: int) -> int
    decreases s.len() - i,
{
    if i < 0 || i >= s.len() || !is_white(s[i]) {
        i
    } else {
        lead_end(s, i + 1)
    }
}

/// Index just after the last character before `j` that is not white space.
pub open spec fn trail_start(s: Seq<char>, j: int) -> int
    decreases j,
{
    if j <= 0 || j > s.len() || !is_white(s[j - 1]) {
        j
    } else {
        trail_start(s, j - 1)
    }
}

/// `s` without leading and trailing white space, as `str::trim` leaves it.
pub open spec fn trimmed(s: Seq<char>) -> Seq<char> {
    let a = lead_end(s, 0);
    let b = trail_start(s, s.len() as int);
    if a >= b {
        Seq::empty()
    } else {
        s.subrange(a, b)
    }
}

fn is_white_char(c: char) -> (r: bool)
    ensures
        r == is_white(c),
{
    let u = c as u32;
    (9 <= u && u <= 13) || u == 32 || u == 0x85 || u == 0xA0 || u == 0x1680 || (0x2000 <= u && u
        <= 0x200A) || u == 0x2028 || u == 0x2029 || u == 0x202F || u == 0x205F || u == 0x3000
}

/// `s` without leading and trailing white space.
pub fn trim(s: &str) -> (r: String)
    ensures
        r@ == trimmed(s@),
{
    let n = s.unicode_len();
    let mut a: usize = 0;
    while a < n && is_white_char(s.get_char(a))
        invariant
            n == s@.len(),
            a <= n,
            lead_end(s@, 0) == lead_end(s@, a as int),
        decreases n - a,
    {
        a = a + 1;
    }
    let mut b: usize = n;
    while b > 0 && is_white_char(s.get_char(b - 1))
        invariant
            n == s@.len(),
            b <= n,
            trail_start(s@, n as int) == trail_start(s@, b as int),
        decreases b,
    {
        b = b - 1;
    }
    if a >= b {
        String::new()
    } else {
        String::from_str(s.substring_char(a, b))
    }
}

/// A configuration from an already trimmed repository path and web hook;
/// refused when either is empty.
pub fn config_from_fields(repo_path: &str, hook: &str) -> (r: Result<Config, ConfigError>)
    ensures
        r is Ok <==> (repo_path@.len() > 0 && hook@.len() > 0),
        r matches Ok(c) ==> c.repo_path@ == repo_path@ && c.slack_web_hook@ == hook@,
        r matches Err(e) ==> e == ConfigError::Incomplete,
{
    if repo_path.unicode_len() > 0 && hook.unicode_len() > 0 {
        Ok(Config::new(repo_path, hook))
    } else {
        Err(ConfigError::Incomplete)
    }
}

/// A configuration from the lines the user typed for the repository path
/// and the web hook, each trimmed; refused when either is then empty.
pub fn config_from_answers(path_line: &str, hook_line: &str) -> (r: Result<Config, ConfigError>)
    ensures
        r is Ok <==> (trimmed(path_line@).len() > 0 && trimmed(hook_line@).len() > 0),
        r matches Ok(c) ==> c.repo_path@ == trimmed(path_line@) && c.slack_web_hook@ == trimmed(
            hook_line@,
        ),
        r matches Err(e) ==> e == ConfigError::Incomplete,
{
    let path = trim(path_line);
    let hook = trim(hook_line);
    config_from_fields(path.as_str(), hook.as_str())
}

} // verus!
