use lib::config::{flag_enabled, ConfigNote, EnvOverrides, LaunchConfig, CONFIG_TEMPLATE, DEFAULT_PORT};
use lib::paths::{
    config_choice, config_path, data_dir, seed_template, ConfigUse, join_path, log_path, now_ts, profile_dir, read_tail, server_log_path,
    timestamp, ConfigSlot,
};

fn no_env() -> EnvOverrides {
    EnvOverrides { port: None, ready_timeout_secs: None, server_command: None }
}

fn load(text: &str, env: &EnvOverrides) -> (LaunchConfig, Vec<ConfigNote>) {
    LaunchConfig::load("C:\\x\\dsh-launcher.conf".to_string(), Some(text.to_string()), env)
}

#[test]
fn defaults() {
    let c = LaunchConfig::default();
    assert_eq!(c.command, "npx --yes @deepseek-ai/dsh web");
    assert_eq!(c.extra_args, vec!["--no-open".to_string()]);
    assert_eq!(c.port, 3080);
    assert_eq!(DEFAULT_PORT, 3080);
    assert_eq!(c.url_marker, "dsh web:");
    assert_eq!(c.timeout_secs, 300);
    assert!(!c.test_command);
}

#[test]
fn template_holds_the_defaults() {
    let (c, notes) = load(CONFIG_TEMPLATE, &no_env());
    let d = LaunchConfig::default();
    assert_eq!(c.command, d.command);
    assert_eq!(c.extra_args, d.extra_args);
    assert_eq!(c.port, d.port);
    assert_eq!(c.url_marker, d.url_marker);
    assert_eq!(c.timeout_secs, d.timeout_secs);
    assert!(notes.is_empty());
    assert_eq!(c.path, "C:\\x\\dsh-launcher.conf");
}

#[test]
fn lines_override_defaults() {
    let text = "# comment\n\n  command =  node server.js web \r\nextra_args = --a   --b\nport=0\nurl_marker = ready at:\ntimeout_secs = 12\n";
    let (c, notes) = load(text, &no_env());
    assert_eq!(c.command, "node server.js web");
    assert_eq!(c.extra_args, vec!["--a".to_string(), "--b".to_string()]);
    assert_eq!(c.port, 0);
    assert_eq!(c.url_marker, "ready at:");
    assert_eq!(c.timeout_secs, 12);
    assert!(notes.is_empty());
}

#[test]
fn empty_extra_args_and_marker_are_taken() {
    let (c, _) = load("extra_args =\nurl_marker =\n", &no_env());
    assert!(c.extra_args.is_empty());
    assert_eq!(c.url_marker, "");
}

#[test]
fn bad_values_are_noted_and_ignored() {
    let (c, notes) = load("port = 70000\ntimeout_secs = -1\ncolour = red\ncommand =\nno equals sign\n", &no_env());
    assert_eq!(c.port, 3080);
    assert_eq!(c.timeout_secs, 300);
    assert_eq!(c.command, "npx --yes @deepseek-ai/dsh web");
    assert_eq!(notes.len(), 4);
    assert!(matches!(&notes[0], ConfigNote::BadPort { value, kept: 3080 } if value == "70000"));
    assert!(matches!(&notes[1], ConfigNote::BadTimeout { value } if value == "-1"));
    assert!(matches!(&notes[2], ConfigNote::UnknownKey { key } if key == "colour"));
    assert!(matches!(&notes[3], ConfigNote::UnknownKey { key } if key == "command"));
}

#[test]
fn trailing_comments_end_values() {
    let text = "command = npx --yes @deepseek-ai/dsh web    # how to start the UI\n\
extra_args = --no-open                      # arguments for the first attempt\n\
port = 0                                    # preferred port; 0 = always let dsh choose\n\
url_marker = dsh web:                       # text that marks the line carrying the URL\n\
timeout_secs = 120                          # readiness timeout\n";
    let (c, notes) = load(text, &no_env());
    assert_eq!(c.command, "npx --yes @deepseek-ai/dsh web");
    assert_eq!(c.extra_args, vec!["--no-open".to_string()]);
    assert_eq!(c.port, 0);
    assert_eq!(c.url_marker, "dsh web:");
    assert_eq!(c.timeout_secs, 120);
    assert!(notes.is_empty());
}

#[test]
fn hash_inside_a_value_is_kept() {
    let (c, _) = load("url_marker = ready#1\ncommand =#x\n", &no_env());
    assert_eq!(c.url_marker, "ready#1");
    assert_eq!(c.command, "#x");
    let (c, notes) = load("port =  # nothing\n", &no_env());
    assert_eq!(c.port, 3080);
    assert!(matches!(&notes[0], ConfigNote::BadPort { value, .. } if value.is_empty()));
}

#[test]
fn later_lines_win() {
    let (c, _) = load("port = 1\nport = 2\n", &no_env());
    assert_eq!(c.port, 2);
}

#[test]
fn value_may_hold_equals_signs() {
    let (c, _) = load("command = run --flag=1\n", &no_env());
    assert_eq!(c.command, "run --flag=1");
}

#[test]
fn unreadable_file_gives_defaults() {
    let (c, notes) = LaunchConfig::load("p".to_string(), None, &no_env());
    assert_eq!(c.port, 3080);
    assert!(notes.is_empty());
}

#[test]
fn environment_overrides() {
    let env = EnvOverrides {
        port: Some("3099".to_string()),
        ready_timeout_secs: Some("60".to_string()),
        server_command: Some(" pwsh stub.ps1 ".to_string()),
    };
    let (c, _) = load("port = 4000\n", &env);
    assert_eq!(c.port, 3099);
    assert_eq!(c.timeout_secs, 60);
    assert_eq!(c.command, " pwsh stub.ps1 ");
    assert!(c.test_command);
}

#[test]
fn unusable_environment_values_are_ignored() {
    let env = EnvOverrides {
        port: Some("x".to_string()),
        ready_timeout_secs: Some("".to_string()),
        server_command: Some("   ".to_string()),
    };
    let (c, _) = load("", &env);
    assert_eq!(c.port, 3080);
    assert_eq!(c.timeout_secs, 300);
    assert!(!c.test_command);
    assert_eq!(c.command, "npx --yes @deepseek-ai/dsh web");
}

#[test]
fn flags() {
    assert!(flag_enabled("1"));
    assert!(flag_enabled("true"));
    assert!(flag_enabled("TRUE"));
    assert!(flag_enabled("True"));
    assert!(!flag_enabled("0"));
    assert!(!flag_enabled("yes"));
    assert!(!flag_enabled(" true"));
    assert!(!flag_enabled(""));
}

#[test]
fn joining_paths() {
    assert_eq!(join_path("C:\\Users\\a\\AppData\\Local", "dsh-launcher"), "C:\\Users\\a\\AppData\\Local\\dsh-launcher");
    assert_eq!(join_path("C:\\data\\", "x"), "C:\\data\\x");
    assert_eq!(join_path("C:/data/", "x"), "C:/data/x");
    assert_eq!(join_path("", "x"), "x");
    assert_eq!(join_path("C:", "x"), "C:x");
    assert_eq!(join_path("\\\\?\\C:\\x/", "launcher.log"), "\\\\?\\C:\\x/\\launcher.log");
    assert_eq!(join_path("\\\\?\\C:\\x\\", "launcher.log"), "\\\\?\\C:\\x\\launcher.log");
}

#[test]
fn data_directory() {
    assert_eq!(data_dir(Some("D:\\t".to_string()), Some("L".to_string()), "T".to_string()), "D:\\t");
    assert_eq!(data_dir(Some(String::new()), Some("L".to_string()), "T".to_string()), "L\\dsh-launcher");
    assert_eq!(data_dir(None, None, "T".to_string()), "T\\dsh-launcher");
}

#[test]
fn log_files() {
    assert_eq!(log_path("D"), "D\\launcher.log");
    assert_eq!(server_log_path("D"), "D\\server.log");
}

#[test]
fn timestamps() {
    assert_eq!(timestamp(0), "[0]");
    assert_eq!(timestamp(1725029869), "[1725029869]");
    let now = now_ts();
    assert!(now.starts_with('[') && now.ends_with(']'));
    assert!(now[1..now.len() - 1].chars().all(|c| c.is_ascii_digit()));
}

#[test]
fn profile_directories() {
    assert_eq!(profile_dir("D", 42), "D\\profiles\\run-42");
}

#[test]
fn config_candidates() {
    let given = config_path(Some("E:\\c.conf".to_string()), Some("P".to_string()), "D");
    assert_eq!(given.len(), 1);
    assert_eq!(given[0].path, "E:\\c.conf");
    assert!(matches!(given[0].slot, ConfigSlot::Given));
    let usual = config_path(Some(String::new()), Some("P".to_string()), "D");
    assert_eq!(usual.len(), 2);
    assert_eq!(usual[0].path, "P\\dsh-launcher.conf");
    assert!(matches!(usual[0].slot, ConfigSlot::BesideProgram));
    assert_eq!(usual[1].path, "D\\dsh-launcher.conf");
    assert!(matches!(usual[1].slot, ConfigSlot::DataDir));
    let no_exe = config_path(None, None, "D");
    assert_eq!(no_exe.len(), 1);
    assert!(matches!(no_exe[0].slot, ConfigSlot::DataDir));
}

#[test]
fn log_tails() {
    assert_eq!(read_tail(b"hello world", 5), "world");
    assert_eq!(read_tail(b"hi", 2000), "hi");
    assert_eq!(read_tail(b"ab\xffcd", 3), "\u{fffd}cd");
}

#[test]
fn config_candidate_decisions() {
    assert!(seed_template(false));
    assert!(!seed_template(true));
    assert!(config_choice(&ConfigSlot::Given, false, false) == ConfigUse::Use);
    assert!(config_choice(&ConfigSlot::DataDir, false, false) == ConfigUse::Use);
    assert!(config_choice(&ConfigSlot::BesideProgram, true, false) == ConfigUse::Use);
    assert!(config_choice(&ConfigSlot::BesideProgram, false, true) == ConfigUse::UseNewlyWritten);
    assert!(config_choice(&ConfigSlot::BesideProgram, false, false) == ConfigUse::Skip);
}

#[test]
fn two_readings_two_profiles_one_parent() {
    let a = profile_dir("D", 1);
    let b = profile_dir("D", 10);
    assert_ne!(a, b);
    assert!(a.starts_with("D\\profiles\\") && b.starts_with("D\\profiles\\"));
}

#[test]
fn logs_differ_in_the_data_directory() {
    assert_ne!(log_path("D\\"), server_log_path("D\\"));
    assert_eq!(log_path("D\\"), "D\\launcher.log");
    assert_eq!(server_log_path("D\\"), "D\\server.log");
}
