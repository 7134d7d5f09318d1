use vstd::prelude::*;

use crate::environment;
use crate::fs::{config_path, get_config_file, FsError};

verus! {

/// Where the repository lives and where its digest is posted.
#[derive(Clone, Debug)]
pub struct Config {
    pub repo_path: String,
    pub slack_web_hook: String,
}

impl Config {
    pub fn new(repo_path: &str, slack_web_hook: &str) -> (r: Config)
        ensures
            r.repo_path@ == repo_path@,
            r.slack_web_hook@ == slack_web_hook@,
    {
        Config { repo_path: String::from_str(repo_path), slack_web_hook: String::from_str(slack_web_hook) }
    }

    /// The configuration as it is shown to the user.
    pub open spec fn text(&self) -> Seq<char> {
        "{\n  repo_path: "@ + self.repo_path@ + "\n  slack_web_hook: "@ + self.slack_web_hook@ + "\n}"@
    }

    /// The configuration as it is shown to the user.
    pub fn to_text(&self) -> (r: String)
        ensures
            r@ == self.text(),
    {
        String::from_str("{\n  repo_path: ").concat(self.repo_path.as_str()).concat(
            "\n  slack_web_hook: ",
        ).concat(self.slack_web_hook.as_str()).concat("\n}")
    }

    /// Where the configuration is stored in the user's home directory.
    pub fn get_file_path() -> (r: Result<String, FsError>)
        ensures
            r matches Ok(p) ==> exists|home: Seq<char>|
                p@ == #[trigger] config_path(home, config_name()),
    {
        proof {
            reveal_strlit("config");
            reveal_strlit("config_dev");
        reveal_strlit(".");
        reveal_strlit("..");
        }
        let name = environment::get_config_file();
        let r = get_config_file(name);
        proof {
            if r is Ok {
                let home = choose|home: Seq<char>| r->Ok_0@ == config_path(home, name@);
                assert(r->Ok_0@ == config_path(home, config_name()));
            }
        }
        r
    }
}

/// Name of the configuration file, without its extension.
pub open spec fn config_name() -> Seq<char> {
    if environment::PRODUCTION {
        "config"@
    } else {
        "config_dev"@
    }
}

impl Default for Config {
    fn default() -> (r: Config)
        ensures
            r.repo_path@.len() == 0,
            r.slack_web_hook@.len() == 0,
    {
        Config { repo_path: String::new(), slack_web_hook: String::new() }
    }
}

} // verus!
