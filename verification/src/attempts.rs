//! The ways of starting the UI server, tried in order, and the command lines
//! the launcher hands to Windows.

use vstd::prelude::*;

use crate::config::LaunchConfig;
use crate::number::{decimal, push_decimal};
use crate::text::{is_word, lemma_words_append_word, push_str, string_from_chars, words};

verus! {

/// One way of starting the server. Attempts are tried in order, and the next
/// one only when the previous server exits before it is ready.
pub struct LaunchAttempt {
    pub label: &'static str,
    pub cmdline: String,
    /// The port to probe for readiness when it is known; `None` when the
    /// server picks its port and only its printed URL reveals it.
    pub probe_port: Option<u16>,
}

pub struct LaunchAttemptView {
    pub label: Seq<char>,
    pub cmdline: Seq<char>,
    pub probe_port: Option<u16>,
}

impl View for LaunchAttempt {
    type V = LaunchAttemptView;

    open spec fn view(&self) -> LaunchAttemptView {
        LaunchAttemptView { label: self.label@, cmdline: self.cmdline@, probe_port: self.probe_port }
    }
}

/// Each argument preceded by a space.
pub open spec fn spaced(args: Seq<Seq<char>>) -> Seq<char>
    decreases args.len(),
{
    if args.len() == 0 {
        Seq::empty()
    } else {
        spaced(args.drop_last()) + seq![' '] + args.last()
    }
}

/// With a space before each, arguments that are words stay separate words
/// after the command.
pub proof fn lemma_spaced_words(command: Seq<char>, args: Seq<Seq<char>>)
    requires
        forall|k: int| 0 <= k < args.len() ==> is_word(#[trigger] args[k]),
    ensures
        words(command + spaced(args)) == words(command) + args,
    decreases args.len(),
{
    if args.len() == 0 {
        assert(command + spaced(args) =~= command);
        assert(words(command) + args =~= words(command));
    } else {
        let prev = args.drop_last();
        assert forall|k: int| 0 <= k < prev.len() implies is_word(#[trigger] prev[k]) by {
            assert(prev[k] == args[k]);
        }
        lemma_spaced_words(command, prev);
        assert(is_word(args[args.len() - 1]));
        lemma_words_append_word(command + spaced(prev), args.last());
        assert(command + spaced(args) =~= command + spaced(prev) + seq![' '] + args.last());
        assert(words(command) + args =~= (words(command) + prev).push(args.last()));
    }
}

/// The extra arguments reach the server as separate arguments: the command
/// line without the port argument splits into the command's words followed
/// by the extra arguments, the first attempt adds only the port argument to
/// it, and the last attempt is the command alone.
pub proof fn law_extra_args_stay_separate(
    command: Seq<char>,
    extra_args: Seq<Seq<char>>,
    bind_port: Option<u16>,
)
    requires
        forall|k: int| 0 <= k < extra_args.len() ==> is_word(#[trigger] extra_args[k]),
    ensures
        ({
            let a = attempts_for(command, extra_args, false, bind_port);
            &&& a.len() == 3
            &&& words(a[1].cmdline) == words(command) + extra_args
            &&& a[0].cmdline == a[1].cmdline + port_arg(bind_port)
            &&& a[0].probe_port == bind_port
            &&& a[1].probe_port is None
            &&& a[2].cmdline == command
        }),
{
    lemma_spaced_words(command, extra_args);
}

/// The port argument: the port to bind, or 0 to let the server choose.
pub open spec fn port_arg(bind_port: Option<u16>) -> Seq<char> {
    match bind_port {
        Some(p) => " --port "@ + decimal(p as nat),
        None => " --port 0"@,
    }
}

/// The launch attempts for a configuration: a test command is run alone and
/// verbatim; otherwise the command with its extra arguments and the port
/// argument, then without the port argument, then the command alone.
pub open spec fn attempts_for(
    command: Seq<char>,
    extra_args: Seq<Seq<char>>,
    test_command: bool,
    bind_port: Option<u16>,
) -> Seq<LaunchAttemptView> {
    if test_command {
        seq![LaunchAttemptView { label: "test command"@, cmdline: command, probe_port: bind_port }]
    } else {
        seq![
            LaunchAttemptView {
                label: "command + extra args + port"@,
                cmdline: command + spaced(extra_args) + port_arg(bind_port),
                probe_port: bind_port,
            },
            LaunchAttemptView {
                label: "command + extra args (no --port)"@,
                cmdline: command + spaced(extra_args),
                probe_port: None,
            },
            LaunchAttemptView { label: "command only"@, cmdline: command, probe_port: None },
        ]
    }
}

pub open spec fn attempts_view(a: Seq<LaunchAttempt>) -> Seq<LaunchAttemptView> {
    a.map_values(|x: LaunchAttempt| x@)
}

/// The launch attempts for `cfg`, binding `bind_port` when given.
pub fn build_attempts(cfg: &LaunchConfig, bind_port: Option<u16>) -> (a: Vec<LaunchAttempt>)
    ensures
        attempts_view(a@) == attempts_for(
            cfg@.command,
            cfg@.extra_args,
            cfg@.test_command,
            bind_port,
        ),
{
    let mut a: Vec<LaunchAttempt> = Vec::new();
    if cfg.test_command {
        a.push(
            LaunchAttempt { label: "test command", cmdline: cfg.command.clone(), probe_port: bind_port },
        );
        assert(attempts_view(a@) =~= attempts_for(
            cfg@.command,
            cfg@.extra_args,
            cfg@.test_command,
            bind_port,
        ));
        return a;
    }
    let mut with_extra: Vec<char> = Vec::new();
    push_str(&mut with_extra, cfg.command.as_str());
    let ghost args = cfg@.extra_args;
    let mut i: usize = 0;
    assert(args.take(0) =~= Seq::<Seq<char>>::empty());
    while i < cfg.extra_args.len()
        invariant
            i <= cfg.extra_args@.len() == args.len(),
            args == cfg@.extra_args,
            with_extra@ == cfg@.command + spaced(args.take(i as int)),
        decreases cfg.extra_args@.len() - i,
    {
        with_extra.push(' ');
        push_str(&mut with_extra, cfg.extra_args[i].as_str());
        assert(args.take(i + 1).drop_last() =~= args.take(i as int));
        assert(args[i as int] == cfg.extra_args@[i as int]@);
        i = i + 1;
    }
    assert(args.take(i as int) =~= args);
    let mut full: Vec<char> = Vec::new();
    crate::text::push_chars(&mut full, with_extra.as_slice());
    assert(full@ =~= with_extra@);
    match bind_port {
        Some(p) => {
            push_str(&mut full, " --port ");
            push_decimal(&mut full, p as u128);
            assert(full@ =~= cfg@.command + spaced(args) + port_arg(bind_port));
        },
        None => {
            push_str(&mut full, " --port 0");
            assert(full@ =~= cfg@.command + spaced(args) + port_arg(bind_port));
        },
    }
    a.push(
        LaunchAttempt {
            label: "command + extra args + port",
            cmdline: string_from_chars(full.as_slice()),
            probe_port: bind_port,
        },
    );
    a.push(
        LaunchAttempt {
            label: "command + extra args (no --port)",
            cmdline: string_from_chars(with_extra.as_slice()),
            probe_port: None,
        },
    );
    a.push(LaunchAttempt { label: "command only", cmdline: cfg.command.clone(), probe_port: None });
    assert(attempts_view(a@) =~= attempts_for(
        cfg@.command,
        cfg@.extra_args,
        cfg@.test_command,
        bind_port,
    ));
    a
}

pub open spec fn strings_view(v: Seq<String>) -> Seq<Seq<char>> {
    v.map_values(|s: String| s@)
}

/// The arguments of `taskkill.exe` that end the process tree of `pid`.
pub fn kill_tree_args(pid: u32) -> (a: Vec<String>)
    ensures
        strings_view(a@) == seq!["/PID"@, decimal(pid as nat), "/T"@, "/F"@],
{
    let mut a: Vec<String> = Vec::new();
    a.push(string_from_chars(crate::text::chars_of("/PID").as_slice()));
    let mut d: Vec<char> = Vec::new();
    push_decimal(&mut d, pid as u128);
    a.push(string_from_chars(d.as_slice()));
    a.push(string_from_chars(crate::text::chars_of("/T").as_slice()));
    a.push(string_from_chars(crate::text::chars_of("/F").as_slice()));
    assert(strings_view(a@) =~= seq!["/PID"@, decimal(pid as nat), "/T"@, "/F"@]);
    a
}

/// The arguments of `cmd.exe` that run `cmdline`.
pub fn shell_args(cmdline: &str) -> (a: Vec<String>)
    ensures
        strings_view(a@) == seq!["/C"@, cmdline@],
{
    let mut a: Vec<String> = Vec::new();
    a.push(string_from_chars(crate::text::chars_of("/C").as_slice()));
    a.push(string_from_chars(crate::text::chars_of(cmdline).as_slice()));
    assert(strings_view(a@) =~= seq!["/C"@, cmdline@]);
    a
}

} // verus!
