//! The launcher's decisions, as a state machine: from its state and what the
//! last action observed to its next state and the next action.
//!
//! The program drives it: it performs each action (a probe of a port, a
//! process start, a read of the server's log, a pause, opening the browser)
//! and hands back what it observed. The machine decides whether to reuse a
//! service already on the preferred port, which launch command to try next,
//! when the server is ready and with which URL, and what to stop at the end.

use vstd::prelude::*;

use crate::attempts::{attempts_for, attempts_view, build_attempts, LaunchAttempt, LaunchAttemptView};
use crate::config::{LaunchConfig, LaunchConfigView};
use crate::url::{
    bare_url, find_launch_url, launch_url_in, lossy_utf8, scan_start, url_for, url_port, url_port_of,
};

verus! {

/// How long, in nanoseconds, the launcher keeps waiting for a printed launch
/// URL once the probed port accepts connections.
pub const LAUNCH_URL_GRACE_NS: u128 = 5_000_000_000;

/// The pause between two readiness checks, in milliseconds.
pub const READY_POLL_MS: u64 = 300;

/// The pause between two checks of the open browser, in milliseconds.
pub const WATCH_POLL_MS: u64 = 250;

/// Why the launcher gives up.
#[derive(Clone, Copy, PartialEq, Eq, Structural)]
pub enum Failure {
    /// The server process of this attempt could not be started.
    SpawnFailed { attempt: usize },
    /// The port serves something that refuses the bare URL, and the server
    /// printed no launch URL.
    NoLaunchUrl { port: u16 },
    /// The last attempt's server exited before it was ready.
    ServerExited { attempt: usize },
    /// The server of this attempt was not ready in time.
    Timeout { attempt: usize },
    /// The browser could not be opened.
    BrowserFailed,
    /// The server exited while the browser was open.
    ServerDied,
}

/// How a run ends.
#[derive(Clone, Copy, PartialEq, Eq, Structural)]
pub enum Ending {
    Success,
    Fail(Failure),
}

/// What follows once a failed attempt's process tree is stopped.
#[derive(Clone, Copy, PartialEq, Eq, Structural)]
pub enum AfterKill {
    /// Try the next launch attempt.
    Retry,
    /// Give up.
    GiveUp(Failure),
}

/// Where the launcher stands, and what it waits to observe.
pub enum Stage {
    /// Waiting for the status of `GET /` on the preferred port.
    PreferredStatus,
    /// Waiting to learn whether the preferred port accepts connections.
    PreferredOpen,
    /// Waiting for the current attempt's server process to start.
    Spawning,
    /// Waiting for the server's log.
    ScanLog,
    /// Waiting to learn whether the port of the printed URL is open.
    UrlPortOpen { url: String, port: u16 },
    /// Waiting to learn whether the probed port accepts connections.
    ReadyPortOpen,
    /// Waiting for the status of `GET /` on the probed port.
    ReadyStatus,
    /// Waiting to learn whether the server has exited.
    ServerCheck,
    /// Waiting out the pause between readiness checks.
    Pause,
    /// Waiting for a failed attempt's process tree to be stopped.
    KillAttempt { then: AfterKill },
    /// Waiting for the browser to open at `url`.
    OpenBrowser { url: String },
    /// Waiting to learn whether the browser has closed.
    WatchBrowser,
    /// Waiting to learn whether the server has exited while the browser is open.
    WatchServer,
    /// Waiting out the pause between checks of the browser.
    WatchPause,
    /// Waiting for the launcher's own server to be stopped.
    StopServer,
    /// Waiting for the browser profile to be removed.
    Cleanup { ending: Ending },
    /// Done.
    Ended(Ending),
}

pub enum StageView {
    PreferredStatus,
    PreferredOpen,
    Spawning,
    ScanLog,
    UrlPortOpen { url: Seq<char>, port: u16 },
    ReadyPortOpen,
    ReadyStatus,
    ServerCheck,
    Pause,
    KillAttempt { then: AfterKill },
    OpenBrowser { url: Seq<char> },
    WatchBrowser,
    WatchServer,
    WatchPause,
    StopServer,
    Cleanup { ending: Ending },
    Ended(Ending),
}

impl View for Stage {
    type V = StageView;

    open spec fn view(&self) -> StageView {
        match self {
            Stage::PreferredStatus => StageView::PreferredStatus,
            Stage::PreferredOpen => StageView::PreferredOpen,
            Stage::Spawning => StageView::Spawning,
            Stage::ScanLog => StageView::ScanLog,
            Stage::UrlPortOpen { url, port } => StageView::UrlPortOpen { url: url@, port: *port },
            Stage::ReadyPortOpen => StageView::ReadyPortOpen,
            Stage::ReadyStatus => StageView::ReadyStatus,
            Stage::ServerCheck => StageView::ServerCheck,
            Stage::Pause => StageView::Pause,
            Stage::KillAttempt { then } => StageView::KillAttempt { then: *then },
            Stage::OpenBrowser { url } => StageView::OpenBrowser { url: url@ },
            Stage::WatchBrowser => StageView::WatchBrowser,
            Stage::WatchServer => StageView::WatchServer,
            Stage::WatchPause => StageView::WatchPause,
            Stage::StopServer => StageView::StopServer,
            Stage::Cleanup { ending } => StageView::Cleanup { ending: *ending },
            Stage::Ended(e) => StageView::Ended(*e),
        }
    }
}

/// What the program observed when it performed the last action.
pub enum LaunchEvent {
    /// The status code of `GET /`, or `None` when nothing answered HTTP.
    Status(Option<u16>),
    /// Whether the port accepts connections, and the time of the probe in
    /// nanoseconds since the current server was started.
    PortProbed { open: bool, at_ns: u128 },
    /// The server process started, with the length its log had before.
    ServerStarted { pid: u32, log_from: u64 },
    /// The server process could not be started.
    SpawnFailed,
    /// The whole server log, or `None` when it could not be read.
    LogRead(Option<Vec<u8>>),
    /// Whether the server has exited, and the time of the check in
    /// nanoseconds since it was started.
    ServerPolled { exited: bool, at_ns: u128 },
    /// Whether the browser opened.
    BrowserOpened(bool),
    /// Whether the browser has closed.
    BrowserPolled(bool),
    /// The action is done.
    Done,
}

pub enum LaunchEventView {
    Status(Option<u16>),
    PortProbed { open: bool, at_ns: u128 },
    ServerStarted { pid: u32, log_from: u64 },
    SpawnFailed,
    LogRead(Option<Seq<u8>>),
    ServerPolled { exited: bool, at_ns: u128 },
    BrowserOpened(bool),
    BrowserPolled(bool),
    Done,
}

impl View for LaunchEvent {
    type V = LaunchEventView;

    open spec fn view(&self) -> LaunchEventView {
        match self {
            LaunchEvent::Status(s) => LaunchEventView::Status(*s),
            LaunchEvent::PortProbed { open, at_ns } => LaunchEventView::PortProbed {
                open: *open,
                at_ns: *at_ns,
            },
            LaunchEvent::ServerStarted { pid, log_from } => LaunchEventView::ServerStarted {
                pid: *pid,
                log_from: *log_from,
            },
            LaunchEvent::SpawnFailed => LaunchEventView::SpawnFailed,
            LaunchEvent::LogRead(b) => LaunchEventView::LogRead(
                match b {
                    Some(v) => Some(v@),
                    None => None,
                },
            ),
            LaunchEvent::ServerPolled { exited, at_ns } => LaunchEventView::ServerPolled {
                exited: *exited,
                at_ns: *at_ns,
            },
            LaunchEvent::BrowserOpened(b) => LaunchEventView::BrowserOpened(*b),
            LaunchEvent::BrowserPolled(b) => LaunchEventView::BrowserPolled(*b),
            LaunchEvent::Done => LaunchEventView::Done,
        }
    }
}

/// What the program is to do next.
pub enum LaunchAction {
    /// Ask `GET /` of the port; answer with `Status`.
    QueryStatus(u16),
    /// Try to connect to the port; answer with `PortProbed`.
    ProbePort(u16),
    /// Start the server of this launch attempt, in a kill-on-close job, its
    /// output appended to the server log; answer with `ServerStarted` or
    /// `SpawnFailed`.
    StartServer(usize),
    /// Read the server log; answer with `LogRead`.
    ReadLog,
    /// Check whether the server has exited; answer with `ServerPolled`.
    PollServer,
    /// Pause for this many milliseconds; answer with `Done`.
    Sleep(u64),
    /// Stop the process tree of a failed attempt's server; answer with `Done`.
    KillTree(u32),
    /// Open a fresh browser window at the URL; answer with `BrowserOpened`.
    OpenBrowser(String),
    /// Check whether the browser has closed; answer with `BrowserPolled`.
    PollBrowser,
    /// Stop the launcher's own server (its process tree, its job and the
    /// process itself); answer with `Done`.
    StopServer(u32),
    /// Remove the browser profile; answer with `Done`.
    CleanupProfile,
    /// Exit successfully.
    Exit,
    /// Report the failure and exit with an error.
    Fail(Failure),
}

pub enum LaunchActionView {
    QueryStatus(u16),
    ProbePort(u16),
    StartServer(usize),
    ReadLog,
    PollServer,
    Sleep(u64),
    KillTree(u32),
    OpenBrowser(Seq<char>),
    PollBrowser,
    StopServer(u32),
    CleanupProfile,
    Exit,
    Fail(Failure),
}

impl View for LaunchAction {
    type V = LaunchActionView;

    open spec fn view(&self) -> LaunchActionView {
        match self {
            LaunchAction::QueryStatus(p) => LaunchActionView::QueryStatus(*p),
            LaunchAction::ProbePort(p) => LaunchActionView::ProbePort(*p),
            LaunchAction::StartServer(i) => LaunchActionView::StartServer(*i),
            LaunchAction::ReadLog => LaunchActionView::ReadLog,
            LaunchAction::PollServer => LaunchActionView::PollServer,
            LaunchAction::Sleep(ms) => LaunchActionView::Sleep(*ms),
            LaunchAction::KillTree(p) => LaunchActionView::KillTree(*p),
            LaunchAction::OpenBrowser(u) => LaunchActionView::OpenBrowser(u@),
            LaunchAction::PollBrowser => LaunchActionView::PollBrowser,
            LaunchAction::StopServer(p) => LaunchActionView::StopServer(*p),
            LaunchAction::CleanupProfile => LaunchActionView::CleanupProfile,
            LaunchAction::Exit => LaunchActionView::Exit,
            LaunchAction::Fail(f) => LaunchActionView::Fail(*f),
        }
    }
}

/// What the launcher decided, for its log.
pub enum LaunchNote {
    /// The preferred port serves the UI without a token; it is reused.
    PreferredReused(u16),
    /// The preferred port is served but answers with this status; a separate
    /// instance is started on a port of its own choosing.
    PreferredNeedsToken { port: u16, status: u16 },
    /// The preferred port is open but does not answer HTTP.
    PreferredNotHttp(u16),
    /// The preferred port is free; the server is started there.
    PreferredFree(u16),
    /// The configured port is 0; the server picks its port.
    PortChosenByServer,
    /// The server is ready at this URL.
    ServerReady(String),
    /// No launch URL was printed, but the bare URL answers 200 or 303.
    BareUrlUsable,
    /// No launch URL was printed and the bare URL of the port answers this status.
    BareUrlRejected { port: u16, status: u16 },
    /// The attempt's server exited before it was ready.
    AttemptExited,
    /// The next, simpler launch command is tried.
    Retrying,
    /// The server was not ready in time.
    NotReadyInTime,
    /// The browser window opened.
    BrowserOpened,
    /// The browser closed; the launcher's own server is stopped when it has
    /// one, and a reused service is left running.
    BrowserClosed { stopping: bool },
    /// The server exited while the browser was open.
    ServerDiedWhileOpen,
}

pub enum LaunchNoteView {
    PreferredReused(u16),
    PreferredNeedsToken { port: u16, status: u16 },
    PreferredNotHttp(u16),
    PreferredFree(u16),
    PortChosenByServer,
    ServerReady(Seq<char>),
    BareUrlUsable,
    BareUrlRejected { port: u16, status: u16 },
    AttemptExited,
    Retrying,
    NotReadyInTime,
    BrowserOpened,
    BrowserClosed { stopping: bool },
    ServerDiedWhileOpen,
}

impl View for LaunchNote {
    type V = LaunchNoteView;

    open spec fn view(&self) -> LaunchNoteView {
        match self {
            LaunchNote::PreferredReused(p) => LaunchNoteView::PreferredReused(*p),
            LaunchNote::PreferredNeedsToken { port, status } => LaunchNoteView::PreferredNeedsToken {
                port: *port,
                status: *status,
            },
            LaunchNote::PreferredNotHttp(p) => LaunchNoteView::PreferredNotHttp(*p),
            LaunchNote::PreferredFree(p) => LaunchNoteView::PreferredFree(*p),
            LaunchNote::PortChosenByServer => LaunchNoteView::PortChosenByServer,
            LaunchNote::ServerReady(u) => LaunchNoteView::ServerReady(u@),
            LaunchNote::BareUrlUsable => LaunchNoteView::BareUrlUsable,
            LaunchNote::BareUrlRejected { port, status } => LaunchNoteView::BareUrlRejected {
                port: *port,
                status: *status,
            },
            LaunchNote::AttemptExited => LaunchNoteView::AttemptExited,
            LaunchNote::Retrying => LaunchNoteView::Retrying,
            LaunchNote::NotReadyInTime => LaunchNoteView::NotReadyInTime,
            LaunchNote::BrowserOpened => LaunchNoteView::BrowserOpened,
            LaunchNote::BrowserClosed { stopping } => LaunchNoteView::BrowserClosed {
                stopping: *stopping,
            },
            LaunchNote::ServerDiedWhileOpen => LaunchNoteView::ServerDiedWhileOpen,
        }
    }
}

pub open spec fn note_view(n: Option<LaunchNote>) -> Option<LaunchNoteView> {
    match n {
        Some(x) => Some(x@),
        None => None,
    }
}

/// The launcher's state.
pub struct Launcher {
    cfg: LaunchConfig,
    attempts: Vec<LaunchAttempt>,
    index: usize,
    pid: u32,
    log_from: u64,
    open_since: Option<u128>,
    spawned: bool,
    own_server: bool,
    reused: bool,
    stage: Stage,
}

pub struct LauncherView {
    /// The configuration.
    pub cfg: LaunchConfigView,
    /// The launch attempts, once the port to bind is decided.
    pub attempts: Seq<LaunchAttemptView>,
    /// The current attempt.
    pub index: int,
    /// The process id of the last server started.
    pub pid: u32,
    /// The length of the server log before the last server was started.
    pub log_from: u64,
    /// When the probed port was first seen open.
    pub open_since: Option<u128>,
    /// A server process has been started.
    pub spawned: bool,
    /// The launcher's own server is ready and serves the browser.
    pub own_server: bool,
    /// A service already on the preferred port is reused.
    pub reused: bool,
    pub stage: StageView,
}

impl View for Launcher {
    type V = LauncherView;

    closed spec fn view(&self) -> LauncherView {
        LauncherView {
            cfg: self.cfg@,
            attempts: attempts_view(self.attempts@),
            index: self.index as int,
            pid: self.pid,
            log_from: self.log_from,
            open_since: self.open_since,
            spawned: self.spawned,
            own_server: self.own_server,
            reused: self.reused,
            stage: self.stage@,
        }
    }
}

pub open spec fn is_ok_status(s: Option<u16>) -> bool {
    s == Some(200u16) || s == Some(303u16)
}

pub open spec fn with_stage(s: LauncherView, st: StageView) -> LauncherView {
    LauncherView { stage: st, ..s }
}

/// The port the current attempt may probe, when it knows it.
pub open spec fn probe_port_of(s: LauncherView) -> Option<u16> {
    if 0 <= s.index < s.attempts.len() {
        s.attempts[s.index].probe_port
    } else {
        None
    }
}

/// The launch attempts for the decided port to bind, starting with the first.
pub open spec fn begin_attempts(s: LauncherView, bind_port: Option<u16>) -> LauncherView {
    LauncherView {
        attempts: attempts_for(s.cfg.command, s.cfg.extra_args, s.cfg.test_command, bind_port),
        index: 0,
        stage: StageView::Spawning,
        ..s
    }
}

/// After the printed URL was not usable: probe the port when it is known,
/// else check the server.
pub open spec fn after_url_check(s: LauncherView) -> LauncherView {
    match probe_port_of(s) {
        Some(_) => with_stage(s, StageView::ReadyPortOpen),
        None => with_stage(s, StageView::ServerCheck),
    }
}

/// The launcher's own server is ready at `url`.
pub open spec fn server_ready(s: LauncherView, url: Seq<char>) -> LauncherView {
    LauncherView { own_server: true, stage: StageView::OpenBrowser { url }, ..s }
}

/// The launch URL in this run's part of the server log.
pub open spec fn printed_url(s: LauncherView, log: Option<Seq<u8>>) -> Option<Seq<char>> {
    match log {
        Some(b) => launch_url_in(lossy_utf8(b.skip(scan_start(b.len(), s.log_from) as int)), s.cfg.url_marker),
        None => None,
    }
}

/// Whether `at_ns` is at or past the readiness deadline.
pub open spec fn past_deadline(s: LauncherView, at_ns: u128) -> bool {
    at_ns >= s.cfg.timeout_secs * 1_000_000_000
}

/// The state and note after an observation.
pub open spec fn launch_step(s: LauncherView, e: LaunchEventView) -> (LauncherView, Option<LaunchNoteView>) {
    let port = s.cfg.port;
    match (s.stage, e) {
        (StageView::PreferredStatus, LaunchEventView::Status(st)) => {
            if is_ok_status(st) {
                (
                    LauncherView {
                        reused: true,
                        stage: StageView::OpenBrowser { url: bare_url(port as nat) },
                        ..s
                    },
                    Some(LaunchNoteView::PreferredReused(port)),
                )
            } else {
                match st {
                    Some(c) => (
                        begin_attempts(s, None),
                        Some(LaunchNoteView::PreferredNeedsToken { port, status: c }),
                    ),
                    None => (with_stage(s, StageView::PreferredOpen), None),
                }
            }
        },
        (StageView::PreferredOpen, LaunchEventView::PortProbed { open, at_ns }) => {
            if open {
                (begin_attempts(s, None), Some(LaunchNoteView::PreferredNotHttp(port)))
            } else {
                (begin_attempts(s, Some(port)), Some(LaunchNoteView::PreferredFree(port)))
            }
        },
        (StageView::Spawning, LaunchEventView::ServerStarted { pid, log_from }) => (
            LauncherView {
                pid,
                log_from,
                open_since: None,
                spawned: true,
                stage: StageView::ScanLog,
                ..s
            },
            None,
        ),
        (StageView::Spawning, LaunchEventView::SpawnFailed) => (
            with_stage(
                s,
                StageView::Ended(Ending::Fail(Failure::SpawnFailed { attempt: s.index as usize })),
            ),
            None,
        ),
        (StageView::ScanLog, LaunchEventView::LogRead(log)) => {
            match printed_url(s, log) {
                Some(u) => match url_port_of(u) {
                    None => (server_ready(s, u), Some(LaunchNoteView::ServerReady(u))),
                    Some(p) => (
                        with_stage(s, StageView::UrlPortOpen { url: u, port: p as u16 }),
                        None,
                    ),
                },
                None => (after_url_check(s), None),
            }
        },
        (StageView::UrlPortOpen { url, port: _ }, LaunchEventView::PortProbed { open, at_ns }) => {
            if open {
                (server_ready(s, url), Some(LaunchNoteView::ServerReady(url)))
            } else {
                (after_url_check(s), None)
            }
        },
        (StageView::ReadyPortOpen, LaunchEventView::PortProbed { open, at_ns }) => {
            if open {
                let since = match s.open_since {
                    Some(t) => t,
                    None => at_ns,
                };
                let s1 = LauncherView { open_since: Some(since), ..s };
                if at_ns >= since && at_ns - since >= LAUNCH_URL_GRACE_NS {
                    (with_stage(s1, StageView::ReadyStatus), None)
                } else {
                    (with_stage(s1, StageView::ServerCheck), None)
                }
            } else {
                (with_stage(s, StageView::ServerCheck), None)
            }
        },
        (StageView::ReadyStatus, LaunchEventView::Status(st)) => {
            let p = match probe_port_of(s) {
                Some(p) => p,
                None => 0u16,
            };
            if is_ok_status(st) {
                (server_ready(s, bare_url(p as nat)), Some(LaunchNoteView::BareUrlUsable))
            } else {
                match st {
                    Some(c) => (
                        with_stage(
                            s,
                            StageView::KillAttempt {
                                then: AfterKill::GiveUp(Failure::NoLaunchUrl { port: p }),
                            },
                        ),
                        Some(LaunchNoteView::BareUrlRejected { port: p, status: c }),
                    ),
                    None => (with_stage(s, StageView::ServerCheck), None),
                }
            }
        },
        (StageView::ServerCheck, LaunchEventView::ServerPolled { exited, at_ns }) => {
            if exited {
                let then = if s.index + 1 >= s.attempts.len() {
                    AfterKill::GiveUp(Failure::ServerExited { attempt: s.index as usize })
                } else {
                    AfterKill::Retry
                };
                (with_stage(s, StageView::KillAttempt { then }), Some(LaunchNoteView::AttemptExited))
            } else if past_deadline(s, at_ns) {
                (
                    with_stage(
                        s,
                        StageView::KillAttempt {
                            then: AfterKill::GiveUp(Failure::Timeout { attempt: s.index as usize }),
                        },
                    ),
                    Some(LaunchNoteView::NotReadyInTime),
                )
            } else {
                (with_stage(s, StageView::Pause), None)
            }
        },
        (StageView::Pause, LaunchEventView::Done) => (with_stage(s, StageView::ScanLog), None),
        (StageView::KillAttempt { then }, LaunchEventView::Done) => match then {
            AfterKill::Retry => if s.index + 1 < s.attempts.len() {
                (
                    LauncherView { index: s.index + 1, stage: StageView::Spawning, ..s },
                    Some(LaunchNoteView::Retrying),
                )
            } else {
                (
                    with_stage(
                        s,
                        StageView::Ended(
                            Ending::Fail(Failure::ServerExited { attempt: s.index as usize }),
                        ),
                    ),
                    None,
                )
            },
            AfterKill::GiveUp(f) => (with_stage(s, StageView::Ended(Ending::Fail(f))), None),
        },
        (StageView::OpenBrowser { url: _ }, LaunchEventView::BrowserOpened(ok)) => {
            if ok {
                (with_stage(s, StageView::WatchBrowser), Some(LaunchNoteView::BrowserOpened))
            } else {
                (
                    with_stage(s, StageView::Cleanup { ending: Ending::Fail(Failure::BrowserFailed) }),
                    None,
                )
            }
        },
        (StageView::WatchBrowser, LaunchEventView::BrowserPolled(closed)) => {
            if closed {
                if s.own_server {
                    (
                        with_stage(s, StageView::StopServer),
                        Some(LaunchNoteView::BrowserClosed { stopping: true }),
                    )
                } else {
                    (
                        with_stage(s, StageView::Cleanup { ending: Ending::Success }),
                        Some(LaunchNoteView::BrowserClosed { stopping: false }),
                    )
                }
            } else if s.own_server {
                (with_stage(s, StageView::WatchServer), None)
            } else {
                (with_stage(s, StageView::WatchPause), None)
            }
        },
        (StageView::WatchServer, LaunchEventView::ServerPolled { exited, at_ns }) => {
            if exited {
                (
                    with_stage(s, StageView::Ended(Ending::Fail(Failure::ServerDied))),
                    Some(LaunchNoteView::ServerDiedWhileOpen),
                )
            } else {
                (with_stage(s, StageView::WatchPause), None)
            }
        },
        (StageView::WatchPause, LaunchEventView::Done) => (with_stage(s, StageView::WatchBrowser), None),
        (StageView::StopServer, LaunchEventView::Done) => (
            with_stage(s, StageView::Cleanup { ending: Ending::Success }),
            None,
        ),
        (StageView::Cleanup { ending }, LaunchEventView::Done) => (with_stage(s, StageView::Ended(ending)), None),
        _ => (s, None),
    }
}

/// The action that the state asks for.
pub open spec fn launch_action(s: LauncherView) -> LaunchActionView {
    let probe = match probe_port_of(s) {
        Some(p) => p,
        None => 0u16,
    };
    match s.stage {
        StageView::PreferredStatus => LaunchActionView::QueryStatus(s.cfg.port),
        StageView::PreferredOpen => LaunchActionView::ProbePort(s.cfg.port),
        StageView::Spawning => LaunchActionView::StartServer(s.index as usize),
        StageView::ScanLog => LaunchActionView::ReadLog,
        StageView::UrlPortOpen { url: _, port } => LaunchActionView::ProbePort(port),
        StageView::ReadyPortOpen => LaunchActionView::ProbePort(probe),
        StageView::ReadyStatus => LaunchActionView::QueryStatus(probe),
        StageView::ServerCheck => LaunchActionView::PollServer,
        StageView::Pause => LaunchActionView::Sleep(READY_POLL_MS),
        StageView::KillAttempt { then: _ } => LaunchActionView::KillTree(s.pid),
        StageView::OpenBrowser { url } => LaunchActionView::OpenBrowser(url),
        StageView::WatchBrowser => LaunchActionView::PollBrowser,
        StageView::WatchServer => LaunchActionView::PollServer,
        StageView::WatchPause => LaunchActionView::Sleep(WATCH_POLL_MS),
        StageView::StopServer => LaunchActionView::StopServer(s.pid),
        StageView::Cleanup { ending: _ } => LaunchActionView::CleanupProfile,
        StageView::Ended(Ending::Success) => LaunchActionView::Exit,
        StageView::Ended(Ending::Fail(f)) => LaunchActionView::Fail(f),
    }
}

/// The state a run starts in, for `cfg`: a preferred port is asked first;
/// with port 0 the server is started at once and picks its port.
pub open spec fn launch_begin(cfg: LaunchConfigView) -> (LauncherView, Option<LaunchNoteView>) {
    let s = LauncherView {
        cfg,
        attempts: Seq::empty(),
        index: 0,
        pid: 0,
        log_from: 0,
        open_since: None,
        spawned: false,
        own_server: false,
        reused: false,
        stage: StageView::PreferredStatus,
    };
    if cfg.port != 0 {
        (s, None)
    } else {
        (begin_attempts(s, None), Some(LaunchNoteView::PortChosenByServer))
    }
}

impl Launcher {
    /// A run for `cfg`, with the note of its first decision.
    pub fn begin(cfg: LaunchConfig) -> (r: (Launcher, Option<LaunchNote>))
        ensures
            (r.0@, note_view(r.1)) == launch_begin(cfg@),
    {
        let port = cfg.port;
        let mut l = Launcher {
            cfg,
            attempts: Vec::new(),
            index: 0,
            pid: 0,
            log_from: 0,
            open_since: None,
            spawned: false,
            own_server: false,
            reused: false,
            stage: Stage::PreferredStatus,
        };
        assert(attempts_view(l.attempts@) =~= Seq::<LaunchAttemptView>::empty());
        if port != 0 {
            (l, None)
        } else {
            l.attempts = build_attempts(&l.cfg, None);
            l.stage = Stage::Spawning;
            (l, Some(LaunchNote::PortChosenByServer))
        }
    }

    /// The configuration of this run.
    pub fn config(&self) -> (c: &LaunchConfig)
        ensures
            c@ == self@.cfg,
    {
        &self.cfg
    }

    /// The launch attempt `i`, once the attempts are decided.
    pub fn attempt(&self, i: usize) -> (a: Option<&LaunchAttempt>)
        ensures
            a matches Some(x) ==> 0 <= i < self@.attempts.len() && x@ == self@.attempts[i as int],
            a is None ==> i >= self@.attempts.len(),
    {
        if i < self.attempts.len() {
            Some(&self.attempts[i])
        } else {
            None
        }
    }

    /// The number of launch attempts, once they are decided.
    pub fn attempt_count(&self) -> (n: usize)
        ensures
            n == self@.attempts.len(),
    {
        self.attempts.len()
    }

    fn probe_port(&self) -> (p: Option<u16>)
        ensures
            p == probe_port_of(self@),
    {
        if self.index < self.attempts.len() {
            self.attempts[self.index].probe_port
        } else {
            None
        }
    }

    /// What the program is to do next.
    pub fn action(&self) -> (a: LaunchAction)
        ensures
            a@ == launch_action(self@),
    {
        let probe = match self.probe_port() {
            Some(p) => p,
            None => 0u16,
        };
        match &self.stage {
            Stage::PreferredStatus => LaunchAction::QueryStatus(self.cfg.port),
            Stage::PreferredOpen => LaunchAction::ProbePort(self.cfg.port),
            Stage::Spawning => LaunchAction::StartServer(self.index),
            Stage::ScanLog => LaunchAction::ReadLog,
            Stage::UrlPortOpen { url: _, port } => LaunchAction::ProbePort(*port),
            Stage::ReadyPortOpen => LaunchAction::ProbePort(probe),
            Stage::ReadyStatus => LaunchAction::QueryStatus(probe),
            Stage::ServerCheck => LaunchAction::PollServer,
            Stage::Pause => LaunchAction::Sleep(READY_POLL_MS),
            Stage::KillAttempt { then: _ } => LaunchAction::KillTree(self.pid),
            Stage::OpenBrowser { url } => LaunchAction::OpenBrowser(url.clone()),
            Stage::WatchBrowser => LaunchAction::PollBrowser,
            Stage::WatchServer => LaunchAction::PollServer,
            Stage::WatchPause => LaunchAction::Sleep(WATCH_POLL_MS),
            Stage::StopServer => LaunchAction::StopServer(self.pid),
            Stage::Cleanup { ending: _ } => LaunchAction::CleanupProfile,
            Stage::Ended(Ending::Success) => LaunchAction::Exit,
            Stage::Ended(Ending::Fail(f)) => LaunchAction::Fail(*f),
        }
    }

    /// The state after the program observed `event`, with the note of the
    /// decision taken. An observation that does not answer the pending action
    /// changes nothing.
    pub fn step(self, event: LaunchEvent) -> (r: (Launcher, Option<LaunchNote>))
        ensures
            (r.0@, note_view(r.1)) == launch_step(self@, event@),
    {
        let ghost s0 = self@;
        let ghost e0 = event@;
        let port = self.cfg.port;
        let probe = self.probe_port();
        let stage = self.stage;
        let mut s = Launcher { stage: Stage::Ended(Ending::Success), ..self };
        match (stage, event) {
            (Stage::PreferredStatus, LaunchEvent::Status(st)) => {
                if st == Some(200u16) || st == Some(303u16) {
                    s.reused = true;
                    s.stage = Stage::OpenBrowser { url: url_for(port) };
                    (s, Some(LaunchNote::PreferredReused(port)))
                } else {
                    match st {
                        Some(c) => {
                            s.attempts = build_attempts(&s.cfg, None);
                            s.index = 0;
                            s.stage = Stage::Spawning;
                            (s, Some(LaunchNote::PreferredNeedsToken { port, status: c }))
                        },
                        None => {
                            s.stage = Stage::PreferredOpen;
                            (s, None)
                        },
                    }
                }
            },
            (Stage::PreferredOpen, LaunchEvent::PortProbed { open, at_ns: _ }) => {
                s.index = 0;
                s.stage = Stage::Spawning;
                if open {
                    s.attempts = build_attempts(&s.cfg, None);
                    (s, Some(LaunchNote::PreferredNotHttp(port)))
                } else {
                    s.attempts = build_attempts(&s.cfg, Some(port));
                    (s, Some(LaunchNote::PreferredFree(port)))
                }
            },
            (Stage::Spawning, LaunchEvent::ServerStarted { pid, log_from }) => {
                s.pid = pid;
                s.log_from = log_from;
                s.open_since = None;
                s.spawned = true;
                s.stage = Stage::ScanLog;
                (s, None)
            },
            (Stage::Spawning, LaunchEvent::SpawnFailed) => {
                s.stage = Stage::Ended(Ending::Fail(Failure::SpawnFailed { attempt: s.index }));
                (s, None)
            },
            (Stage::ScanLog, LaunchEvent::LogRead(log)) => {
                let found = match log {
                    Some(bytes) => find_launch_url(bytes.as_slice(), s.log_from, s.cfg.url_marker.as_str()),
                    None => None,
                };
                match found {
                    Some(u) => match url_port(u.as_str()) {
                        None => {
                            s.own_server = true;
                            s.stage = Stage::OpenBrowser { url: u.clone() };
                            (s, Some(LaunchNote::ServerReady(u)))
                        },
                        Some(p) => {
                            s.stage = Stage::UrlPortOpen { url: u, port: p };
                            (s, None)
                        },
                    },
                    None => {
                        s.stage = match probe {
                            Some(_) => Stage::ReadyPortOpen,
                            None => Stage::ServerCheck,
                        };
                        (s, None)
                    },
                }
            },
            (Stage::UrlPortOpen { url, port: _ }, LaunchEvent::PortProbed { open, at_ns: _ }) => {
                if open {
                    s.own_server = true;
                    s.stage = Stage::OpenBrowser { url: url.clone() };
                    (s, Some(LaunchNote::ServerReady(url)))
                } else {
                    s.stage = match probe {
                        Some(_) => Stage::ReadyPortOpen,
                        None => Stage::ServerCheck,
                    };
                    (s, None)
                }
            },
            (Stage::ReadyPortOpen, LaunchEvent::PortProbed { open, at_ns }) => {
                if open {
                    let since = match s.open_since {
                        Some(t) => t,
                        None => at_ns,
                    };
                    s.open_since = Some(since);
                    if at_ns >= since && at_ns - since >= LAUNCH_URL_GRACE_NS {
                        s.stage = Stage::ReadyStatus;
                    } else {
                        s.stage = Stage::ServerCheck;
                    }
                    (s, None)
                } else {
                    s.stage = Stage::ServerCheck;
                    (s, None)
                }
            },
            (Stage::ReadyStatus, LaunchEvent::Status(st)) => {
                let p = match probe {
                    Some(p) => p,
                    None => 0u16,
                };
                if st == Some(200u16) || st == Some(303u16) {
                    s.own_server = true;
                    s.stage = Stage::OpenBrowser { url: url_for(p) };
                    (s, Some(LaunchNote::BareUrlUsable))
                } else {
                    match st {
                        Some(c) => {
                            s.stage = Stage::KillAttempt {
                                then: AfterKill::GiveUp(Failure::NoLaunchUrl { port: p }),
                            };
                            (s, Some(LaunchNote::BareUrlRejected { port: p, status: c }))
                        },
                        None => {
                            s.stage = Stage::ServerCheck;
                            (s, None)
                        },
                    }
                }
            },
            (Stage::ServerCheck, LaunchEvent::ServerPolled { exited, at_ns }) => {
                if exited {
                    let then = if s.index >= s.attempts.len() || s.attempts.len() - s.index <= 1 {
                        AfterKill::GiveUp(Failure::ServerExited { attempt: s.index })
                    } else {
                        AfterKill::Retry
                    };
                    s.stage = Stage::KillAttempt { then };
                    (s, Some(LaunchNote::AttemptExited))
                } else if at_ns >= (s.cfg.timeout_secs as u128) * 1_000_000_000u128 {
                    s.stage = Stage::KillAttempt {
                        then: AfterKill::GiveUp(Failure::Timeout { attempt: s.index }),
                    };
                    (s, Some(LaunchNote::NotReadyInTime))
                } else {
                    s.stage = Stage::Pause;
                    (s, None)
                }
            },
            (Stage::Pause, LaunchEvent::Done) => {
                s.stage = Stage::ScanLog;
                (s, None)
            },
            (Stage::KillAttempt { then }, LaunchEvent::Done) => match then {
                AfterKill::Retry => {
                    if s.index < s.attempts.len() && s.attempts.len() - s.index > 1 {
                        s.index = s.index + 1;
                        s.stage = Stage::Spawning;
                        (s, Some(LaunchNote::Retrying))
                    } else {
                        s.stage = Stage::Ended(
                            Ending::Fail(Failure::ServerExited { attempt: s.index }),
                        );
                        (s, None)
                    }
                },
                AfterKill::GiveUp(f) => {
                    s.stage = Stage::Ended(Ending::Fail(f));
                    (s, None)
                },
            },
            (Stage::OpenBrowser { url: _ }, LaunchEvent::BrowserOpened(ok)) => {
                if ok {
                    s.stage = Stage::WatchBrowser;
                    (s, Some(LaunchNote::BrowserOpened))
                } else {
                    s.stage = Stage::Cleanup { ending: Ending::Fail(Failure::BrowserFailed) };
                    (s, None)
                }
            },
            (Stage::WatchBrowser, LaunchEvent::BrowserPolled(closed)) => {
                if closed {
                    if s.own_server {
                        s.stage = Stage::StopServer;
                        (s, Some(LaunchNote::BrowserClosed { stopping: true }))
                    } else {
                        s.stage = Stage::Cleanup { ending: Ending::Success };
                        (s, Some(LaunchNote::BrowserClosed { stopping: false }))
                    }
                } else if s.own_server {
                    s.stage = Stage::WatchServer;
                    (s, None)
                } else {
                    s.stage = Stage::WatchPause;
                    (s, None)
                }
            },
            (Stage::WatchServer, LaunchEvent::ServerPolled { exited, at_ns: _ }) => {
                if exited {
                    s.stage = Stage::Ended(Ending::Fail(Failure::ServerDied));
                    (s, Some(LaunchNote::ServerDiedWhileOpen))
                } else {
                    s.stage = Stage::WatchPause;
                    (s, None)
                }
            },
            (Stage::WatchPause, LaunchEvent::Done) => {
                s.stage = Stage::WatchBrowser;
                (s, None)
            },
            (Stage::StopServer, LaunchEvent::Done) => {
                s.stage = Stage::Cleanup { ending: Ending::Success };
                (s, None)
            },
            (Stage::Cleanup { ending }, LaunchEvent::Done) => {
                s.stage = Stage::Ended(ending);
                (s, None)
            },
            (stage, _) => {
                s.stage = stage;
                (s, None)
            },
        }
    }
}

/// The stages in which a launch attempt is under way.
pub open spec fn attempt_phase(st: StageView) -> bool {
    ||| st is Spawning
    ||| st is ScanLog
    ||| st is UrlPortOpen
    ||| st is ReadyPortOpen
    ||| st is ReadyStatus
    ||| st is ServerCheck
    ||| st is Pause
    ||| st is KillAttempt
}

/// The stages in which a reused service serves the browser.
pub open spec fn reuse_phase(st: StageView) -> bool {
    ||| st is OpenBrowser
    ||| st is WatchBrowser
    ||| st is WatchPause
    ||| st is Cleanup
    ||| st is Ended
}

/// What holds of every state a run reaches.
pub open spec fn launcher_inv(s: LauncherView) -> bool {
    &&& s.reused ==> !s.own_server && !s.spawned && reuse_phase(s.stage)
    &&& s.own_server ==> s.spawned
    &&& (s.stage is KillAttempt || s.stage is StopServer) ==> s.spawned
    &&& s.stage is StopServer ==> s.own_server
    &&& (s.stage is ReadyPortOpen || s.stage is ReadyStatus) ==> probe_port_of(s) is Some
    &&& attempt_phase(s.stage) ==> 0 <= s.index < s.attempts.len()
    &&& attempt_phase(s.stage) && !(s.stage is Spawning) ==> s.spawned
    &&& (s.stage is PreferredStatus || s.stage is PreferredOpen) ==> s.index == 0 && !s.spawned
        && !s.reused
}

/// A run starts in a state that satisfies the invariant.
pub proof fn law_begin_satisfies_invariant(cfg: LaunchConfigView)
    ensures
        launcher_inv(launch_begin(cfg).0),
{
}

/// Every step keeps the invariant.
pub proof fn law_step_keeps_invariant(s: LauncherView, e: LaunchEventView)
    requires
        launcher_inv(s),
    ensures
        launcher_inv(launch_step(s, e).0),
{
}

/// A service that was already on the preferred port and is reused is never
/// stopped, and no server is started beside it.
pub proof fn law_reused_service_left_alone(s: LauncherView)
    requires
        launcher_inv(s),
        s.reused,
    ensures
        !(launch_action(s) is StartServer),
        !(launch_action(s) is KillTree),
        !(launch_action(s) is StopServer),
{
}

/// The launcher only stops the process tree of a server it started itself:
/// the one whose process id the last start reported.
pub proof fn law_stops_only_its_own_server(s: LauncherView)
    requires
        launcher_inv(s),
    ensures
        launch_action(s) matches LaunchActionView::KillTree(p) ==> s.spawned && p == s.pid,
        launch_action(s) matches LaunchActionView::StopServer(p) ==> s.spawned && s.own_server
            && p == s.pid,
{
}

/// The status of an observation that answered 200 or 303.
pub open spec fn ok_status_event(e: LaunchEventView) -> bool {
    match e {
        LaunchEventView::Status(st) => is_ok_status(st),
        _ => false,
    }
}

/// The launch URL found in the log that an observation read.
pub open spec fn url_read(s: LauncherView, e: LaunchEventView) -> Option<Seq<char>> {
    match e {
        LaunchEventView::LogRead(log) => printed_url(s, log),
        _ => None,
    }
}

/// An observation that found the probed port open.
pub open spec fn port_open_event(e: LaunchEventView) -> bool {
    match e {
        LaunchEventView::PortProbed { open, at_ns: _ } => open,
        _ => false,
    }
}

/// The process id reported by a server start.
pub open spec fn started_pid(e: LaunchEventView) -> Option<u32> {
    match e {
        LaunchEventView::ServerStarted { pid, log_from: _ } => Some(pid),
        _ => None,
    }
}

/// An observation that the server has exited.
pub open spec fn exit_event(e: LaunchEventView) -> bool {
    match e {
        LaunchEventView::ServerPolled { exited, at_ns: _ } => exited,
        _ => false,
    }
}

/// An observation that the server is still running past the deadline.
pub open spec fn deadline_event(s: LauncherView, e: LaunchEventView) -> bool {
    match e {
        LaunchEventView::ServerPolled { exited, at_ns } => !exited && past_deadline(s, at_ns),
        _ => false,
    }
}

/// The process id the launcher stops is only ever the one a server start
/// reported.
pub proof fn law_pid_from_server_start(s: LauncherView, e: LaunchEventView)
    ensures
        launch_step(s, e).0.pid != s.pid ==> s.stage is Spawning && started_pid(e) == Some(
            launch_step(s, e).0.pid,
        ),
{
}

/// A preferred port that answers `GET /` with 200 or 303 needs no token:
/// that service is reused and its bare URL opened.
pub proof fn law_reuse_tokenless_service(s: LauncherView, st: Option<u16>)
    requires
        s.stage is PreferredStatus,
        is_ok_status(st),
    ensures
        launch_step(s, LaunchEventView::Status(st)).0.reused,
        launch_action(launch_step(s, LaunchEventView::Status(st)).0) == LaunchActionView::OpenBrowser(
            bare_url(s.cfg.port as nat),
        ),
{
}

/// A preferred port that answers anything else, or nothing, is not reused.
pub proof fn law_no_reuse_of_token_service(s: LauncherView, e: LaunchEventView)
    requires
        !s.reused,
        !(s.stage is PreferredStatus && ok_status_event(e)),
    ensures
        !launch_step(s, e).0.reused,
{
}

/// The browser is sent to a URL only when it is usable: the launch URL the
/// server printed in this run (after its port, if it names one, accepted a
/// connection), or a bare URL that answered 200 or 303.
pub proof fn law_browser_url_is_usable(s: LauncherView, e: LaunchEventView)
    requires
        launcher_inv(s),
        !(s.stage is OpenBrowser),
        launch_step(s, e).0.stage is OpenBrowser,
    ensures
        ({
            let u = launch_step(s, e).0.stage->OpenBrowser_url;
            ||| (s.stage is PreferredStatus && ok_status_event(e) && u == bare_url(s.cfg.port as nat))
            ||| (s.stage is ReadyStatus && ok_status_event(e) && probe_port_of(s) is Some && u
                == bare_url(probe_port_of(s)->0 as nat))
            ||| (s.stage is ScanLog && url_read(s, e) == Some(u) && url_port_of(u) is None)
            ||| (s.stage is UrlPortOpen && s.stage->UrlPortOpen_url == u && port_open_event(e))
        }),
{
}

/// A printed URL that names a port waits for that port before it is used.
pub proof fn law_printed_url_port_checked(s: LauncherView, e: LaunchEventView)
    requires
        s.stage is ScanLog,
        url_read(s, e) is Some,
        url_port_of(url_read(s, e)->0) is Some,
    ensures
        launch_step(s, e).0.stage is UrlPortOpen,
{
}

/// Launch attempts are tried in order: the attempt changes only to the next
/// one, once the previous attempt's process tree is stopped.
pub proof fn law_attempts_in_order(s: LauncherView, e: LaunchEventView)
    requires
        launcher_inv(s),
        launch_step(s, e).0.index != s.index,
    ensures
        s.stage == (StageView::KillAttempt { then: AfterKill::Retry }),
        e == LaunchEventView::Done,
        launch_step(s, e).0.index == s.index + 1,
        launch_step(s, e).0.index < s.attempts.len(),
{
}

/// The next attempt is taken only when the current server exited before it
/// was ready, and there is a next attempt.
pub proof fn law_retry_only_after_early_exit(s: LauncherView, e: LaunchEventView)
    requires
        !(s.stage is KillAttempt),
        launch_step(s, e).0.stage == (StageView::KillAttempt { then: AfterKill::Retry }),
    ensures
        s.stage is ServerCheck,
        exit_event(e),
        s.index + 1 < s.attempts.len(),
{
}

/// The launcher gives up waiting only past the configured timeout.
pub proof fn law_timeout_only_past_deadline(s: LauncherView, e: LaunchEventView, attempt: usize)
    requires
        !(s.stage is KillAttempt),
        launch_step(s, e).0.stage == (StageView::KillAttempt {
            then: AfterKill::GiveUp(Failure::Timeout { attempt }),
        }),
    ensures
        deadline_event(s, e),
{
}

/// A preferred port that is served by something that needs a token, or that
/// is open without answering HTTP, makes the launcher start its own server on
/// a port the server chooses; a free preferred port is bound.
pub proof fn law_busy_port_lets_the_server_choose(s: LauncherView, e: LaunchEventView)
    requires
        (s.stage is PreferredStatus && !ok_status_event(e) && e is Status && e->Status_0 is Some)
            || (s.stage is PreferredOpen && e is PortProbed),
    ensures
        launch_step(s, e).0.stage is Spawning,
        launch_step(s, e).0.index == 0,
        launch_step(s, e).0.attempts == attempts_for(
            s.cfg.command,
            s.cfg.extra_args,
            s.cfg.test_command,
            if s.stage is PreferredOpen && !port_open_event(e) {
                Some(s.cfg.port)
            } else {
                None
            },
        ),
{
}

/// Closing the browser window stops the launcher's own server.
pub proof fn law_closing_the_browser_stops_the_server(s: LauncherView)
    requires
        s.stage is WatchBrowser,
        s.own_server,
    ensures
        launch_action(launch_step(s, LaunchEventView::BrowserPolled(true)).0)
            == LaunchActionView::StopServer(s.pid),
{
}

/// The state a run for `cfg` is in after the program handed back `events`.
pub open spec fn run_state(cfg: LaunchConfigView, events: Seq<LaunchEventView>) -> LauncherView
    decreases events.len(),
{
    if events.len() == 0 {
        launch_begin(cfg).0
    } else {
        launch_step(run_state(cfg, events.drop_last()), events.last()).0
    }
}

/// In the run, a server start that reported `pid` answered the action that
/// started a server.
pub open spec fn started_in_run(cfg: LaunchConfigView, events: Seq<LaunchEventView>, pid: u32) -> bool {
    exists|j: int|
        0 <= j < events.len() && (#[trigger] run_state(cfg, events.take(j))).stage is Spawning
            && started_pid(events[j]) == Some(pid)
}

/// In the run, the browser was seen closed while the launcher watched it.
pub open spec fn browser_closed_in_run(cfg: LaunchConfigView, events: Seq<LaunchEventView>) -> bool {
    exists|j: int|
        0 <= j < events.len() && (#[trigger] run_state(cfg, events.take(j))).stage is WatchBrowser
            && events[j] == LaunchEventView::BrowserPolled(true)
}

/// The stages that come only after the browser was closed.
pub open spec fn after_close(st: StageView) -> bool {
    ||| st is StopServer
    ||| st == (StageView::Cleanup { ending: Ending::Success })
    ||| st == StageView::Ended(Ending::Success)
}

proof fn lemma_run_facts(cfg: LaunchConfigView, events: Seq<LaunchEventView>)
    ensures
        launcher_inv(run_state(cfg, events)),
        run_state(cfg, events).spawned ==> started_in_run(cfg, events, run_state(cfg, events).pid),
        after_close(run_state(cfg, events).stage) ==> browser_closed_in_run(cfg, events),
    decreases events.len(),
{
    if events.len() > 0 {
        let prev = events.drop_last();
        let n = prev.len() as int;
        let s = run_state(cfg, prev);
        let e = events.last();
        let r = run_state(cfg, events);
        lemma_run_facts(cfg, prev);
        law_step_keeps_invariant(s, e);
        assert(events.take(n) =~= prev);
        assert(events[n] == e);
        if r.spawned {
            if r.pid == s.pid && s.spawned {
                let j = choose|j: int|
                    0 <= j < prev.len() && (#[trigger] run_state(cfg, prev.take(j))).stage is Spawning
                        && started_pid(prev[j]) == Some(s.pid);
                assert(events.take(j) =~= prev.take(j));
                assert(run_state(cfg, events.take(j)) == run_state(cfg, prev.take(j)));
            } else {
                assert(run_state(cfg, events.take(n)).stage is Spawning);
            }
        }
        if after_close(r.stage) {
            if after_close(s.stage) {
                let j = choose|j: int|
                    0 <= j < prev.len() && (#[trigger] run_state(cfg, prev.take(j))).stage is WatchBrowser
                        && prev[j] == LaunchEventView::BrowserPolled(true);
                assert(events.take(j) =~= prev.take(j));
                assert(run_state(cfg, events.take(j)) == run_state(cfg, prev.take(j)));
            } else {
                assert(run_state(cfg, events.take(n)).stage is WatchBrowser);
            }
        }
    }
}

/// Every state of a run satisfies the invariant.
pub proof fn law_run_keeps_invariant(cfg: LaunchConfigView, events: Seq<LaunchEventView>)
    ensures
        launcher_inv(run_state(cfg, events)),
{
    lemma_run_facts(cfg, events);
}

/// Over a whole run, the launcher stops only servers it started itself: the
/// process id it stops was reported by a start of its own server in this run.
pub proof fn law_run_stops_only_servers_it_started(cfg: LaunchConfigView, events: Seq<LaunchEventView>)
    ensures
        launch_action(run_state(cfg, events)) matches LaunchActionView::KillTree(p) ==> started_in_run(
            cfg,
            events,
            p,
        ),
        launch_action(run_state(cfg, events)) matches LaunchActionView::StopServer(p) ==> started_in_run(
            cfg,
            events,
            p,
        ),
{
    lemma_run_facts(cfg, events);
}

pub proof fn lemma_reused_stays(cfg: LaunchConfigView, events: Seq<LaunchEventView>, k: int)
    requires
        0 <= k <= events.len(),
        run_state(cfg, events.take(k)).reused,
    ensures
        run_state(cfg, events).reused,
    decreases events.len(),
{
    if k < events.len() {
        let prev = events.drop_last();
        assert(prev.take(k) =~= events.take(k));
        lemma_reused_stays(cfg, prev, k);
    } else {
        assert(events.take(k) =~= events);
    }
}

/// Once a run reuses a service already on the preferred port, it never
/// starts a server and never stops anything, to its end.
pub proof fn law_run_leaves_reused_service_alone(cfg: LaunchConfigView, events: Seq<LaunchEventView>, k: int)
    requires
        0 <= k <= events.len(),
        run_state(cfg, events.take(k)).reused,
    ensures
        !(launch_action(run_state(cfg, events)) is StartServer),
        !(launch_action(run_state(cfg, events)) is KillTree),
        !(launch_action(run_state(cfg, events)) is StopServer),
{
    lemma_reused_stays(cfg, events, k);
    lemma_run_facts(cfg, events);
}

/// A run ends successfully only after the browser window was closed.
pub proof fn law_run_succeeds_only_after_close(cfg: LaunchConfigView, events: Seq<LaunchEventView>)
    ensures
        launch_action(run_state(cfg, events)) == LaunchActionView::Exit ==> browser_closed_in_run(
            cfg,
            events,
        ),
{
    lemma_run_facts(cfg, events);
}

/// A run asks to exit successfully exactly when it ended without failure, and
/// to report a failure exactly when it ended with that failure; once ended it
/// stays so whatever is observed.
pub proof fn law_endings_are_final(s: LauncherView, e: LaunchEventView)
    ensures
        (launch_action(s) == LaunchActionView::Exit) == (s.stage == StageView::Ended(Ending::Success)),
        forall|f: Failure|
            (launch_action(s) == LaunchActionView::Fail(f)) == (s.stage == StageView::Ended(
                Ending::Fail(f),
            )),
        s.stage is Ended ==> launch_step(s, e).0 == s,
{
}

/// The exit code an action ends the program with: 0 for `Exit`, 1 for
/// `Fail`; the other actions do not end it.
pub open spec fn exit_code_of(a: LaunchActionView) -> Option<i32> {
    match a {
        LaunchActionView::Exit => Some(0i32),
        LaunchActionView::Fail(_) => Some(1i32),
        _ => None,
    }
}

/// The exit code the action ends the program with, if it ends it.
pub fn exit_code(a: &LaunchAction) -> (c: Option<i32>)
    ensures
        c == exit_code_of(a@),
{
    match a {
        LaunchAction::Exit => Some(0),
        LaunchAction::Fail(_) => Some(1),
        _ => None,
    }
}

/// Over a whole run: the program exits with 1, reporting the failure, exactly
/// when the run ended with that failure; it exits with 0 exactly when the run
/// ended without failure, which is only after the browser was closed; before
/// the run has ended it does not exit.
pub proof fn law_run_exit_code(cfg: LaunchConfigView, events: Seq<LaunchEventView>)
    ensures
        ({
            let s = run_state(cfg, events);
            let code = exit_code_of(launch_action(s));
            &&& (code == Some(1i32)) == (s.stage is Ended && s.stage->Ended_0 is Fail)
            &&& forall|f: Failure|
                (launch_action(s) == LaunchActionView::Fail(f)) == (s.stage == StageView::Ended(
                    Ending::Fail(f),
                ))
            &&& (code == Some(0i32)) == (s.stage == StageView::Ended(Ending::Success))
            &&& code == Some(0i32) ==> browser_closed_in_run(cfg, events)
            &&& code is None == !(s.stage is Ended)
        }),
{
    lemma_run_facts(cfg, events);
}

/// A server start records the log length it reports: the run scans the
/// server log from there on, and only a server start changes where.
pub proof fn law_server_start_sets_scan_offset(s: LauncherView, e: LaunchEventView)
    ensures
        s.stage is Spawning ==> (e matches LaunchEventView::ServerStarted { pid, log_from } ==> (
        launch_step(s, e).0.log_from == log_from && launch_step(s, e).0.pid == pid)),
        launch_step(s, e).0.log_from != s.log_from ==> s.stage is Spawning
            && e is ServerStarted && launch_step(s, e).0.log_from == e->ServerStarted_log_from,
{
}

/// Two reads of the server log that agree from the scan offset on lead to
/// the same decision: output the log held before the server started never
/// matters.
pub proof fn law_log_before_start_is_ignored(s: LauncherView, b1: Seq<u8>, b2: Seq<u8>)
    requires
        s.log_from <= b1.len(),
        s.log_from <= b2.len(),
        b1.skip(s.log_from as int) == b2.skip(s.log_from as int),
    ensures
        launch_step(s, LaunchEventView::LogRead(Some(b1))) == launch_step(
            s,
            LaunchEventView::LogRead(Some(b2)),
        ),
{
    assert(b1.skip(scan_start(b1.len(), s.log_from) as int) =~= b1.skip(s.log_from as int));
    assert(b2.skip(scan_start(b2.len(), s.log_from) as int) =~= b2.skip(s.log_from as int));
}

} // verus!
