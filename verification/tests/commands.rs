use lib::attempts::{build_attempts, kill_tree_args, shell_args};
use lib::browser::{chrome_args, chrome_path, fake_chrome_args, retry_profile_removal};
use lib::config::{EnvOverrides, LaunchConfig};

#[test]
fn attempts_fall_back_in_order() {
    let cfg = LaunchConfig::default();
    let a = build_attempts(&cfg, Some(3080));
    assert_eq!(a.len(), 3);
    assert_eq!(a[0].cmdline, "npx --yes @deepseek-ai/dsh web --no-open --port 3080");
    assert_eq!(a[0].probe_port, Some(3080));
    assert_eq!(a[0].label, "command + extra args + port");
    assert_eq!(a[1].cmdline, "npx --yes @deepseek-ai/dsh web --no-open");
    assert_eq!(a[1].probe_port, None);
    assert_eq!(a[2].cmdline, "npx --yes @deepseek-ai/dsh web");
    assert_eq!(a[2].probe_port, None);
    assert_eq!(a[2].label, "command only");
}

#[test]
fn busy_port_lets_the_server_choose() {
    let cfg = LaunchConfig::default();
    let a = build_attempts(&cfg, None);
    assert_eq!(a[0].cmdline, "npx --yes @deepseek-ai/dsh web --no-open --port 0");
    assert_eq!(a[0].probe_port, None);
}

#[test]
fn no_extra_args() {
    let mut cfg = LaunchConfig::default();
    cfg.extra_args = Vec::new();
    let a = build_attempts(&cfg, Some(1));
    assert_eq!(a[0].cmdline, "npx --yes @deepseek-ai/dsh web --port 1");
    assert_eq!(a[1].cmdline, "npx --yes @deepseek-ai/dsh web");
}

#[test]
fn test_command_runs_alone() {
    let env = EnvOverrides { port: None, ready_timeout_secs: None, server_command: Some("stub 3099".to_string()) };
    let (cfg, _) = LaunchConfig::load("p".to_string(), None, &env);
    let a = build_attempts(&cfg, Some(3099));
    assert_eq!(a.len(), 1);
    assert_eq!(a[0].cmdline, "stub 3099");
    assert_eq!(a[0].probe_port, Some(3099));
    assert_eq!(a[0].label, "test command");
}

#[test]
fn process_arguments() {
    assert_eq!(kill_tree_args(28400), vec!["/PID", "28400", "/T", "/F"]);
    assert_eq!(shell_args("npx x"), vec!["/C", "npx x"]);
}

#[test]
fn chrome_arguments() {
    assert_eq!(
        chrome_args("http://127.0.0.1:1/?token=a", "D\\profiles\\run-1"),
        vec![
            "--user-data-dir=D\\profiles\\run-1",
            "--new-window",
            "--no-first-run",
            "--no-default-browser-check",
            "--disable-background-mode",
            "--disable-session-crashed-bubble",
            "http://127.0.0.1:1/?token=a",
        ]
    );
}

#[test]
fn fake_chrome_sends_twice_the_requested_pings() {
    assert_eq!(fake_chrome_args(3), vec!["/C", "ping", "-n", "6", "127.0.0.1", ">", "nul"]);
    assert_eq!(fake_chrome_args(0)[3], "2");
}

#[test]
fn chrome_candidates() {
    let c = chrome_path(Some("X:\\chrome.exe".to_string()), Some("PF".to_string()), None, Some("L".to_string()));
    assert_eq!(
        c,
        vec![
            "X:\\chrome.exe",
            "PF\\Google\\Chrome\\Application\\chrome.exe",
            "L\\Google\\Chrome\\Application\\chrome.exe",
        ]
    );
    assert!(chrome_path(Some(String::new()), None, None, None).is_empty());
}

#[test]
fn profile_removal_is_tried_ten_times() {
    assert!(retry_profile_removal(0));
    assert!(retry_profile_removal(9));
    assert!(!retry_profile_removal(10));
}
