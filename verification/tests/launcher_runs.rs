use lib::config::{EnvOverrides, LaunchConfig};
use lib::launcher::{exit_code, Ending, Failure, LaunchAction, LaunchEvent, LaunchNote, Launcher};

fn config(port: &str) -> LaunchConfig {
    let env = EnvOverrides { port: Some(port.to_string()), ready_timeout_secs: None, server_command: None };
    LaunchConfig::load("p".to_string(), None, &env).0
}

fn step(m: Launcher, e: LaunchEvent) -> (Launcher, Option<LaunchNote>) {
    m.step(e)
}

const SEC: u128 = 1_000_000_000;

#[test]
fn scenario_a_free_port_starts_and_stops_own_server() {
    let (m, note) = Launcher::begin(config("3099"));
    assert!(note.is_none());
    assert!(matches!(m.action(), LaunchAction::QueryStatus(3099)));
    let (m, _) = step(m, LaunchEvent::Status(None));
    assert!(matches!(m.action(), LaunchAction::ProbePort(3099)));
    let (m, note) = step(m, LaunchEvent::PortProbed { open: false, at_ns: 0 });
    assert!(matches!(note, Some(LaunchNote::PreferredFree(3099))));
    assert!(matches!(m.action(), LaunchAction::StartServer(0)));
    assert_eq!(m.attempt(0).unwrap().cmdline, "npx --yes @deepseek-ai/dsh web --no-open --port 3099");
    let (m, _) = step(m, LaunchEvent::ServerStarted { pid: 77, log_from: 5 });
    assert!(matches!(m.action(), LaunchAction::ReadLog));
    let log = b"old: http://127.0.0.1:3099/?token=stale\n  dsh web: http://127.0.0.1:3099/?token=fresh\n".to_vec();
    let (m, note) = step(m, LaunchEvent::LogRead(Some(log.clone())));
    assert!(note.is_none());
    assert!(matches!(m.action(), LaunchAction::ProbePort(3099)));
    let (m, note) = step(m, LaunchEvent::PortProbed { open: true, at_ns: SEC });
    assert!(matches!(&note, Some(LaunchNote::ServerReady(u)) if u == "http://127.0.0.1:3099/?token=fresh"));
    assert!(matches!(m.action(), LaunchAction::OpenBrowser(u) if u == "http://127.0.0.1:3099/?token=fresh"));
    let (m, _) = step(m, LaunchEvent::BrowserOpened(true));
    assert!(matches!(m.action(), LaunchAction::PollBrowser));
    let (m, _) = step(m, LaunchEvent::BrowserPolled(false));
    assert!(matches!(m.action(), LaunchAction::PollServer));
    let (m, _) = step(m, LaunchEvent::ServerPolled { exited: false, at_ns: 0 });
    assert!(matches!(m.action(), LaunchAction::Sleep(250)));
    let (m, _) = step(m, LaunchEvent::Done);
    let (m, note) = step(m, LaunchEvent::BrowserPolled(true));
    assert!(matches!(note, Some(LaunchNote::BrowserClosed { stopping: true })));
    assert!(matches!(m.action(), LaunchAction::StopServer(77)));
    let (m, _) = step(m, LaunchEvent::Done);
    assert!(matches!(m.action(), LaunchAction::CleanupProfile));
    let (m, _) = step(m, LaunchEvent::Done);
    assert!(matches!(m.action(), LaunchAction::Exit));
}

#[test]
fn scenario_b_token_service_gets_a_separate_instance() {
    let (m, _) = Launcher::begin(config("3099"));
    let (m, note) = step(m, LaunchEvent::Status(Some(401)));
    assert!(matches!(note, Some(LaunchNote::PreferredNeedsToken { port: 3099, status: 401 })));
    assert!(matches!(m.action(), LaunchAction::StartServer(0)));
    assert_eq!(m.attempt(0).unwrap().cmdline, "npx --yes @deepseek-ai/dsh web --no-open --port 0");
    let (m, _) = step(m, LaunchEvent::ServerStarted { pid: 9, log_from: 0 });
    let (m, _) = step(m, LaunchEvent::LogRead(Some(b"dsh web: http://127.0.0.1:50123/?token=k\n".to_vec())));
    assert!(matches!(m.action(), LaunchAction::ProbePort(50123)));
    let (m, _) = step(m, LaunchEvent::PortProbed { open: true, at_ns: 1 });
    let (m, _) = step(m, LaunchEvent::BrowserOpened(true));
    let (m, _) = step(m, LaunchEvent::BrowserPolled(true));
    assert!(matches!(m.action(), LaunchAction::StopServer(9)));
}

#[test]
fn scenario_c_tokenless_service_is_reused_and_left_running() {
    let (m, _) = Launcher::begin(config("3099"));
    let (m, note) = step(m, LaunchEvent::Status(Some(200)));
    assert!(matches!(note, Some(LaunchNote::PreferredReused(3099))));
    assert!(matches!(m.action(), LaunchAction::OpenBrowser(u) if u == "http://127.0.0.1:3099/"));
    let (m, _) = step(m, LaunchEvent::BrowserOpened(true));
    let (m, _) = step(m, LaunchEvent::BrowserPolled(false));
    assert!(matches!(m.action(), LaunchAction::Sleep(250)));
    let (m, _) = step(m, LaunchEvent::Done);
    let (m, note) = step(m, LaunchEvent::BrowserPolled(true));
    assert!(matches!(note, Some(LaunchNote::BrowserClosed { stopping: false })));
    assert!(matches!(m.action(), LaunchAction::CleanupProfile));
    let (m, _) = step(m, LaunchEvent::Done);
    assert!(matches!(m.action(), LaunchAction::Exit));
}

#[test]
fn redirect_counts_as_tokenless() {
    let (m, _) = Launcher::begin(config("3080"));
    let (m, _) = step(m, LaunchEvent::Status(Some(303)));
    assert!(matches!(m.action(), LaunchAction::OpenBrowser(u) if u == "http://127.0.0.1:3080/"));
}

#[test]
fn open_port_without_http_gets_a_separate_instance() {
    let (m, _) = Launcher::begin(config("3080"));
    let (m, _) = step(m, LaunchEvent::Status(None));
    let (m, note) = step(m, LaunchEvent::PortProbed { open: true, at_ns: 0 });
    assert!(matches!(note, Some(LaunchNote::PreferredNotHttp(3080))));
    assert_eq!(m.attempt(0).unwrap().cmdline, "npx --yes @deepseek-ai/dsh web --no-open --port 0");
}

#[test]
fn port_zero_starts_at_once() {
    let (m, note) = Launcher::begin(config("0"));
    assert!(matches!(note, Some(LaunchNote::PortChosenByServer)));
    assert!(matches!(m.action(), LaunchAction::StartServer(0)));
    assert_eq!(m.attempt_count(), 3);
}

fn started_on_free_port() -> Launcher {
    let (m, _) = Launcher::begin(config("3099"));
    let (m, _) = step(m, LaunchEvent::Status(None));
    let (m, _) = step(m, LaunchEvent::PortProbed { open: false, at_ns: 0 });
    let (m, _) = step(m, LaunchEvent::ServerStarted { pid: 5, log_from: 0 });
    m
}

#[test]
fn early_exits_fall_back_to_simpler_commands() {
    let m = started_on_free_port();
    let (m, _) = step(m, LaunchEvent::LogRead(None));
    assert!(matches!(m.action(), LaunchAction::ProbePort(3099)));
    let (m, _) = step(m, LaunchEvent::PortProbed { open: false, at_ns: 0 });
    assert!(matches!(m.action(), LaunchAction::PollServer));
    let (m, note) = step(m, LaunchEvent::ServerPolled { exited: true, at_ns: 0 });
    assert!(matches!(note, Some(LaunchNote::AttemptExited)));
    assert!(matches!(m.action(), LaunchAction::KillTree(5)));
    let (m, note) = step(m, LaunchEvent::Done);
    assert!(matches!(note, Some(LaunchNote::Retrying)));
    assert!(matches!(m.action(), LaunchAction::StartServer(1)));
    let (m, _) = step(m, LaunchEvent::ServerStarted { pid: 6, log_from: 0 });
    let (m, _) = step(m, LaunchEvent::LogRead(Some(Vec::new())));
    assert!(matches!(m.action(), LaunchAction::PollServer));
    let (m, _) = step(m, LaunchEvent::ServerPolled { exited: true, at_ns: 0 });
    let (m, _) = step(m, LaunchEvent::Done);
    assert!(matches!(m.action(), LaunchAction::StartServer(2)));
    let (m, _) = step(m, LaunchEvent::ServerStarted { pid: 7, log_from: 0 });
    let (m, _) = step(m, LaunchEvent::LogRead(None));
    let (m, _) = step(m, LaunchEvent::ServerPolled { exited: true, at_ns: 0 });
    assert!(matches!(m.action(), LaunchAction::KillTree(7)));
    let (m, _) = step(m, LaunchEvent::Done);
    assert!(matches!(m.action(), LaunchAction::Fail(Failure::ServerExited { attempt: 2 })));
}

#[test]
fn times_out_at_the_deadline() {
    let m = started_on_free_port();
    let (m, _) = step(m, LaunchEvent::LogRead(None));
    let (m, _) = step(m, LaunchEvent::PortProbed { open: false, at_ns: 0 });
    let (m, _) = step(m, LaunchEvent::ServerPolled { exited: false, at_ns: 300 * SEC - 1 });
    assert!(matches!(m.action(), LaunchAction::Sleep(300)));
    let (m, _) = step(m, LaunchEvent::Done);
    assert!(matches!(m.action(), LaunchAction::ReadLog));
    let (m, _) = step(m, LaunchEvent::LogRead(None));
    let (m, _) = step(m, LaunchEvent::PortProbed { open: false, at_ns: 0 });
    let (m, note) = step(m, LaunchEvent::ServerPolled { exited: false, at_ns: 300 * SEC });
    assert!(matches!(note, Some(LaunchNote::NotReadyInTime)));
    assert!(matches!(m.action(), LaunchAction::KillTree(5)));
    let (m, _) = step(m, LaunchEvent::Done);
    assert!(matches!(m.action(), LaunchAction::Fail(Failure::Timeout { attempt: 0 })));
}

fn wait_grace(m: Launcher, first_open: u128, later: u128) -> Launcher {
    let (m, _) = step(m, LaunchEvent::LogRead(None));
    let (m, _) = step(m, LaunchEvent::PortProbed { open: true, at_ns: first_open });
    assert!(matches!(m.action(), LaunchAction::PollServer));
    let (m, _) = step(m, LaunchEvent::ServerPolled { exited: false, at_ns: first_open });
    let (m, _) = step(m, LaunchEvent::Done);
    let (m, _) = step(m, LaunchEvent::LogRead(None));
    let (m, _) = step(m, LaunchEvent::PortProbed { open: true, at_ns: later });
    m
}

#[test]
fn bare_url_used_only_when_it_answers_ok() {
    let m = wait_grace(started_on_free_port(), SEC, 6 * SEC);
    assert!(matches!(m.action(), LaunchAction::QueryStatus(3099)));
    let (m, note) = step(m, LaunchEvent::Status(Some(200)));
    assert!(matches!(note, Some(LaunchNote::BareUrlUsable)));
    assert!(matches!(m.action(), LaunchAction::OpenBrowser(u) if u == "http://127.0.0.1:3099/"));
}

#[test]
fn grace_period_is_waited_out() {
    let m = wait_grace(started_on_free_port(), SEC, 6 * SEC - 1);
    assert!(matches!(m.action(), LaunchAction::PollServer));
}

#[test]
fn rejected_bare_url_without_printed_url_fails() {
    let m = wait_grace(started_on_free_port(), 0, 5 * SEC);
    let (m, note) = step(m, LaunchEvent::Status(Some(401)));
    assert!(matches!(note, Some(LaunchNote::BareUrlRejected { port: 3099, status: 401 })));
    assert!(matches!(m.action(), LaunchAction::KillTree(5)));
    let (m, _) = step(m, LaunchEvent::Done);
    assert!(matches!(m.action(), LaunchAction::Fail(Failure::NoLaunchUrl { port: 3099 })));
}

#[test]
fn silent_port_keeps_waiting() {
    let m = wait_grace(started_on_free_port(), 0, 5 * SEC);
    let (m, _) = step(m, LaunchEvent::Status(None));
    assert!(matches!(m.action(), LaunchAction::PollServer));
}

#[test]
fn printed_url_on_closed_port_is_not_used_yet() {
    let m = started_on_free_port();
    let (m, _) = step(m, LaunchEvent::LogRead(Some(b"dsh web: http://127.0.0.1:3099/?token=a\n".to_vec())));
    let (m, _) = step(m, LaunchEvent::PortProbed { open: false, at_ns: 0 });
    assert!(matches!(m.action(), LaunchAction::ProbePort(3099)));
}

#[test]
fn printed_url_without_port_is_used_at_once() {
    let m = started_on_free_port();
    let (m, note) = step(m, LaunchEvent::LogRead(Some(b"dsh web: https://ui.example/?token=a\n".to_vec())));
    assert!(matches!(&note, Some(LaunchNote::ServerReady(u)) if u == "https://ui.example/?token=a"));
    assert!(matches!(m.action(), LaunchAction::OpenBrowser(_)));
}

#[test]
fn spawn_failure_ends_the_run() {
    let (m, _) = Launcher::begin(config("0"));
    let (m, _) = step(m, LaunchEvent::SpawnFailed);
    assert!(matches!(m.action(), LaunchAction::Fail(Failure::SpawnFailed { attempt: 0 })));
}

#[test]
fn browser_failure_cleans_up_then_fails() {
    let (m, _) = Launcher::begin(config("3099"));
    let (m, _) = step(m, LaunchEvent::Status(Some(200)));
    let (m, _) = step(m, LaunchEvent::BrowserOpened(false));
    assert!(matches!(m.action(), LaunchAction::CleanupProfile));
    let (m, _) = step(m, LaunchEvent::Done);
    assert!(matches!(m.action(), LaunchAction::Fail(Failure::BrowserFailed)));
}

#[test]
fn server_death_while_browsing_fails() {
    let m = started_on_free_port();
    let (m, _) = step(m, LaunchEvent::LogRead(Some(b"dsh web: http://127.0.0.1:3099/?token=a\n".to_vec())));
    let (m, _) = step(m, LaunchEvent::PortProbed { open: true, at_ns: 0 });
    let (m, _) = step(m, LaunchEvent::BrowserOpened(true));
    let (m, _) = step(m, LaunchEvent::BrowserPolled(false));
    let (m, note) = step(m, LaunchEvent::ServerPolled { exited: true, at_ns: 0 });
    assert!(matches!(note, Some(LaunchNote::ServerDiedWhileOpen)));
    assert!(matches!(m.action(), LaunchAction::Fail(Failure::ServerDied)));
}

#[test]
fn unexpected_observations_change_nothing() {
    let (m, _) = Launcher::begin(config("3099"));
    let (m, note) = step(m, LaunchEvent::Done);
    assert!(note.is_none());
    assert!(matches!(m.action(), LaunchAction::QueryStatus(3099)));
    let _ = Ending::Success;
}

#[test]
fn exit_codes() {
    assert_eq!(exit_code(&LaunchAction::Exit), Some(0));
    assert_eq!(exit_code(&LaunchAction::Fail(Failure::ServerDied)), Some(1));
    assert_eq!(exit_code(&LaunchAction::Fail(Failure::BrowserFailed)), Some(1));
    assert_eq!(exit_code(&LaunchAction::ReadLog), None);
    assert_eq!(exit_code(&LaunchAction::Sleep(300)), None);
}
