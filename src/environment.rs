use vstd::prelude::*;

verus! {

/// Whether this build uses the production file names rather than the
/// development ones, so that a development build never touches the files of
/// an installed tool.
pub const PRODUCTION: bool = false;

/// Name of the configuration file, without its extension.
pub fn get_config_file() -> (r: &'static str)
    ensures
        r@ == (if PRODUCTION { "config"@ } else { "config_dev"@ }),
{
    if PRODUCTION {
        "config"
    } else {
        "config_dev"
    }
}

/// Label of the launch agent, also the name of its property list file.
pub fn get_launch_agent_file() -> (r: &'static str)
    ensures
        r@ == (if PRODUCTION { "com.ionostafi.gitretro"@ } else { "com.ionostafi.gitretro_dev"@ }),
{
    if PRODUCTION {
        "com.ionostafi.gitretro"
    } else {
        "com.ionostafi.gitretro_dev"
    }
}

} // verus!
