use git_retrospective::cli::rundaemon::RunDaemon;
use git_retrospective::cli::{config_from_answers, config_from_fields, trim, Command, ConfigError};
use git_retrospective::config::Config;
use git_retrospective::environment;
use git_retrospective::fs::{config_file_in, join_path, launch_agent_file_in, toml_file_name, FsError};
use git_retrospective::launchd::parameters::create_parameters;
use git_retrospective::launchd::{create_launch_agent_plist_content, DaemonError};
use git_retrospective::text::{contains_str, decimal_string, str_equal, str_less};

#[test]
fn commands_from_arguments() {
    assert_eq!(Command::from_argument(Some("run")), Command::Run);
    assert_eq!(Command::from_argument(Some("rund")), Command::RunD);
    assert_eq!(Command::from_argument(Some("config")), Command::Config);
    assert_eq!(Command::from_argument(Some("installd")), Command::InstallD);
    assert_eq!(Command::from_argument(Some("--help")), Command::Help);
    assert_eq!(Command::from_argument(Some("-h")), Command::Help);
    assert_eq!(Command::from_argument(Some("runs")), Command::Invalid);
    assert_eq!(Command::from_argument(None), Command::Invalid);
}

#[test]
fn help_texts() {
    assert_eq!(Command::Run.help(), "runs the program");
    assert_eq!(Command::Invalid.help(), "");
    let help = Command::Help.help();
    assert!(help.starts_with("\ngitretro v0.1.0\n\nCOMMANDS\nrun         runs the program\n"));
    assert!(help.contains("installd    installs the launch agent parameters in user's space\n"));
    assert!(help.ends_with("help        prints this message\n"));
}

#[test]
fn config_answers_are_trimmed_and_required() {
    let cfg = config_from_answers("  /home/u/repo \n", "https://hooks.example/x\n").unwrap();
    assert_eq!(cfg.repo_path, "/home/u/repo");
    assert_eq!(cfg.slack_web_hook, "https://hooks.example/x");
    assert_eq!(config_from_answers(" \n", "hook").err(), Some(ConfigError::Incomplete));
    assert_eq!(config_from_fields("/repo", "").err(), Some(ConfigError::Incomplete));
    assert_eq!(ConfigError::Incomplete.message(), "Failed to create a new config");
}

#[test]
fn config_text() {
    let cfg = Config::new("/repo", "https://hook");
    assert_eq!(cfg.to_text(), "{\n  repo_path: /repo\n  slack_web_hook: https://hook\n}");
    let empty = Config::default();
    assert_eq!(empty.repo_path, "");
    assert_eq!(empty.slack_web_hook, "");
}

#[test]
fn file_names_and_paths() {
    assert_eq!(environment::get_config_file(), "config_dev");
    assert_eq!(environment::get_launch_agent_file(), "com.ionostafi.gitretro_dev");
    assert_eq!(config_file_in("/home/u", "config_dev"), "/home/u/.config/git-retrospective/config_dev.toml");
    assert_eq!(config_file_in("/home/u/", "savedata_dev"), "/home/u/.config/git-retrospective/savedata_dev.toml");
    assert_eq!(
        launch_agent_file_in("/Users/a", "com.ionostafi.gitretro"),
        "/Users/a/Library/LaunchAgents/com.ionostafi.gitretro.plist"
    );
    assert_eq!(join_path("", "x"), "x");
    assert_eq!(toml_file_name("config"), "config.toml");
    assert_eq!(toml_file_name("a.b.json"), "a.b.toml");
    assert_eq!(toml_file_name(".hidden"), ".hidden.toml");
    assert_eq!(toml_file_name("name."), "name.toml");
    assert_eq!(config_file_in("/h", "settings.ini"), "/h/.config/git-retrospective/settings.toml");
    assert_eq!(FsError::UserHome.message(), "HOME path is invalid");
}

#[test]
fn launch_agent_property_list() {
    let text = create_parameters("/usr/local/bin/gitretro", "com.ionostafi.gitretro");
    assert!(text.starts_with("\n<?xml version=\"1.0\" encoding=\"UTF-8\" ?>\n"));
    assert!(text.contains("<key>Label</key>\n    <string>com.ionostafi.gitretro</string>\n"));
    assert!(text.contains("<key>Program</key>\n    <string>/usr/local/bin/gitretro</string>\n"));
    assert!(text.contains("<string>/usr/local/bin/gitretro</string>\n      <string>run</string>\n"));
    assert!(text.ends_with("</plist>\n"));
    assert_eq!(create_launch_agent_plist_content(None, "x"), Err(DaemonError::ExePath));
    assert_eq!(create_launch_agent_plist_content(Some("/bin/g"), "x"), Ok(create_parameters("/bin/g", "x")));
    assert_eq!(DaemonError::ExePath.message(), "Executable path is invalid");
}

#[test]
fn daemon_alternates() {
    let fresh = RunDaemon::new(false);
    assert!(fresh.should_report());
    assert_eq!(fresh.after_run(), RunDaemon::new(true));
    assert!(!RunDaemon::new(true).should_report());
    assert_eq!(RunDaemon::new(true).after_run(), RunDaemon::new(false));
}

#[test]
fn text_helpers() {
    assert!(contains_str("origin/release-3", "release-"));
    assert!(!contains_str("rel", "release-"));
    assert!(contains_str("abc", ""));
    assert!(str_equal("abc", "abc"));
    assert!(!str_equal("abc", "abd"));
    assert!(str_less("al", "alice"));
    assert!(str_less("Zed", "al"));
    assert!(!str_less("b", "b"));
    assert_eq!(decimal_string(0), "0");
    assert_eq!(decimal_string(1203), "1203");
}

#[test]
fn trim_matches_std() {
    for s in ["  a b \t\n", "\u{3000}\u{2009}x\u{85}", "   ", "", "plain", "\u{200B}z\u{200B}"] {
        assert_eq!(trim(s), s.trim());
    }
}
