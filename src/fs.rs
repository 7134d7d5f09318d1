use vstd::prelude::*;

use crate::environment::PRODUCTION;
use crate::APP_NAME;

verus! {

/// Why a file location could not be worked out.
#[derive(Clone, Copy, Debug, PartialEq, Eq)]
pub enum FsError {
    /// The user's home directory is unknown or not valid UTF-8.
    UserHome,
}

impl FsError {
    pub fn message(&self) -> (r: &'static str)
        ensures
            r@ == "HOME path is invalid"@,
    {
        match self {
            FsError::UserHome => "HOME path is invalid",
        }
    }
}

/// `part`, a relative path, appended to `base` with one separator between
/// them, as a path buffer appends it.
pub open spec fn join(base: Seq<char>, part: Seq<char>) -> Seq<char> {
    if base.len() == 0 || base.last() == '/' {
        base + part
    } else {
        base + seq!['/'] + part
    }
}

/// A file name: a single path component, neither `.` nor `..`. The file
/// is placed by appending the name to the directory and setting its
/// extension; a name with a separator would be a path of its own (an
/// absolute one replacing the directory), an empty one would only add a
/// separator, and `.` or `..` have no stem to give an extension, so none of
/// these names a configuration file.
pub open spec fn is_file_name(name: Seq<char>) -> bool {
    name.len() > 0 && !name.contains('/') && name != "."@ && name != ".."@
}

/// Index of the last `.` in `s`, or -1 where there is none.
pub open spec fn last_dot(s: Seq<char>) -> int
    decreases s.len(),
{
    if s.len() == 0 {
        -1
    } else if s.last() == '.' {
        s.len() - 1
    } else {
        last_dot(s.drop_last())
    }
}

/// The file name without its extension, as a path buffer reads it: all of
/// it where it has no `.` or only a leading one.
pub open spec fn file_stem(name: Seq<char>) -> Seq<char> {
    if last_dot(name) <= 0 {
        name
    } else {
        name.subrange(0, last_dot(name))
    }
}

/// The file name with its extension set to `toml`.
pub open spec fn with_toml(name: Seq<char>) -> Seq<char> {
    file_stem(name) + ".toml"@
}

/// Where the configuration file `name` lives under the home directory `home`.
pub open spec fn config_path(home: Seq<char>, name: Seq<char>) -> Seq<char> {
    join(join(join(home, ".config"@), APP_NAME@), with_toml(name))
}

/// `name` with its extension, if any, replaced by `toml`.
pub fn toml_file_name(name: &str) -> (r: String)
    ensures
        r@ == with_toml(name@),
{
    let n = name.unicode_len();
    let mut i = n;
    assert(name@.subrange(0, n as int) =~= name@);
    while i > 0 && name.get_char(i - 1) != '.'
        invariant
            n == name@.len(),
            i <= n,
            last_dot(name@) == last_dot(name@.subrange(0, i as int)),
        decreases i,
    {
        assert(name@.subrange(0, i as int).drop_last() =~= name@.subrange(0, i - 1));
        i = i - 1;
    }
    proof {
        if i > 0 {
            assert(name@.subrange(0, i as int).last() == name@[i - 1]);
        }
    }
    if i <= 1 {
        String::from_str(name).concat(".toml")
    } else {
        String::from_str(name.substring_char(0, i - 1)).concat(".toml")
    }
}

/// Where the launch agent `name` lives under the home directory `home`.
pub open spec fn launch_agent_path(home: Seq<char>, name: Seq<char>) -> Seq<char> {
    join(home, "Library/LaunchAgents/"@ + name + ".plist"@)
}

pub fn join_path(base: &str, part: &str) -> (r: String)
    ensures
        r@ == join(base@, part@),
{
    proof {
        reveal_strlit("/");
    }
    let n = base.unicode_len();
    if n == 0 || base.get_char(n - 1) == '/' {
        String::from_str(base).concat(part)
    } else {
        String::from_str(base).concat("/").concat(part)
    }
}

/// The configuration file `name` under the home directory `home`.
pub fn config_file_in(home: &str, name: &str) -> (r: String)
    requires
        is_file_name(name@),
    ensures
        r@ == config_path(home@, name@),
{
    let dir = join_path(home, ".config");
    let dir = join_path(dir.as_str(), APP_NAME);
    let file = toml_file_name(name);
    join_path(dir.as_str(), file.as_str())
}

/// The launch agent file `name` under the home directory `home`.
pub fn launch_agent_file_in(home: &str, name: &str) -> (r: String)
    ensures
        r@ == launch_agent_path(home@, name@),
{
    let file = String::from_str("Library/LaunchAgents/").concat(name).concat(".plist");
    join_path(home, file.as_str())
}

/// Relies on `directories::UserDirs::new` and `UserDirs::home_dir`: the
/// user's home directory, `None` where it is unknown or not valid UTF-8.
#[verifier::external_body]
fn user_home() -> (r: Option<String>) {
    directories::UserDirs::new().and_then(|d| d.home_dir().to_str().map(String::from))
}

/// The configuration file `name` of this tool in the user's home directory.
pub fn get_config_file(name: &str) -> (r: Result<String, FsError>)
    requires
        is_file_name(name@),
    ensures
        r matches Ok(p) ==> exists|home: Seq<char>| p@ == config_path(home, name@),
{
    match user_home() {
        Some(home) => Ok(config_file_in(home.as_str(), name)),
        None => Err(FsError::UserHome),
    }
}

/// The launch agent file `name` in the user's home directory.
pub fn get_launch_agent_file(name: &str) -> (r: Result<String, FsError>)
    ensures
        r matches Ok(p) ==> exists|home: Seq<char>| p@ == launch_agent_path(home, name@),
{
    match user_home() {
        Some(home) => Ok(launch_agent_file_in(home.as_str(), name)),
        None => Err(FsError::UserHome),
    }
}

/// Name of the file that records whether the daemon already reported
/// today, without its extension.
pub open spec fn savedata_name() -> Seq<char> {
    if PRODUCTION {
        "savedata"@
    } else {
        "savedata_dev"@
    }
}

/// The file that records whether the daemon already reported today.
pub fn get_savedata_file() -> (r: Result<String, FsError>)
    ensures
        r matches Ok(p) ==> exists|home: Seq<char>|
            p@ == #[trigger] config_path(home, savedata_name()),
{
    let name = if PRODUCTION {
        "savedata"
    } else {
        "savedata_dev"
    };
    proof {
        reveal_strlit("savedata");
        reveal_strlit("savedata_dev");
        reveal_strlit(".");
        reveal_strlit("..");
    }
    let r = get_config_file(name);
    proof {
        if r is Ok {
            let home = choose|home: Seq<char>| r->Ok_0@ == config_path(home, name@);
            assert(r->Ok_0@ == config_path(home, savedata_name()));
        }
    }
    r
}

} // verus!
