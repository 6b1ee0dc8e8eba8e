//! Where the launcher keeps its files, and the clock readings it names them by.
//!
//! Paths are Windows paths held as text; `path_join` appends a relative
//! file name as `PathBuf::push` does on Windows.

use vstd::prelude::*;
use vstd::slice::slice_subrange;
use std::time::{Duration, SystemTime};

use crate::config::CONFIG_FILE_NAME;
use crate::number::{decimal, lemma_decimal_digits, push_decimal};
use crate::text::{chars_of, string_from_chars};
use crate::url::{lossy_utf8, utf8_lossy};

verus! {

/// A bare drive such as `C:`, to which a name is appended without a separator.
pub open spec fn is_bare_drive(p: Seq<char>) -> bool {
    p.len() == 2 && p[1] == ':' && (('a' <= p[0] && p[0] <= 'z') || ('A' <= p[0] && p[0] <= 'Z'))
}

/// A verbatim path, which begins with `\\?\`; in it only `\` separates.
pub open spec fn is_verbatim(p: Seq<char>) -> bool {
    p.len() >= 4 && p[0] == '\\' && p[1] == '\\' && p[2] == '?' && p[3] == '\\'
}

/// `p` ends with a separator: `\`, or `/` outside a verbatim path.
pub open spec fn ends_in_separator(p: Seq<char>) -> bool {
    p.len() > 0 && (p.last() == '\\' || (p.last() == '/' && !is_verbatim(p)))
}

/// `base` with the relative name `name` appended: a `\` goes between them
/// unless `base` is empty, already ends with a separator, or is a bare drive.
/// The text of `base` is kept as it is, a verbatim one too.
pub open spec fn path_join(base: Seq<char>, name: Seq<char>) -> Seq<char> {
    if base.len() == 0 || ends_in_separator(base) || is_bare_drive(base) {
        base + name
    } else {
        base + seq!['\\'] + name
    }
}

/// `base` with the relative name `name` appended.
pub fn join_path(base: &str, name: &str) -> (p: String)
    ensures
        p@ == path_join(base@, name@),
{
    let mut v = chars_of(base);
    let n = chars_of(name);
    let len = v.len();
    let bare_drive = len == 2 && v[1] == ':' && (('a' <= v[0] && v[0] <= 'z') || ('A' <= v[0]
        && v[0] <= 'Z'));
    let verbatim = len >= 4 && v[0] == '\\' && v[1] == '\\' && v[2] == '?' && v[3] == '\\';
    if !(len == 0 || v[len - 1] == '\\' || (v[len - 1] == '/' && !verbatim) || bare_drive) {
        v.push('\\');
    }
    let ghost head = v@;
    let mut i: usize = 0;
    while i < n.len()
        invariant
            i <= n@.len(),
            v@ == head + n@.take(i as int),
        decreases n@.len() - i,
    {
        v.push(n[i]);
        assert(n@.take(i + 1) =~= n@.take(i as int).push(n@[i as int]));
        i = i + 1;
    }
    assert(n@.take(i as int) =~= n@);
    assert(v@ =~= path_join(base@, name@));
    string_from_chars(v.as_slice())
}

/// The directory for logs and throw-away browser profiles: `DSH_DATA_DIR`
/// when it is set and not empty, else `dsh-launcher` under the local
/// application-data directory, or under the temporary directory when that is
/// unset.
pub open spec fn data_dir_of(
    data_dir_setting: Option<Seq<char>>,
    local_app_data: Option<Seq<char>>,
    temp_dir: Seq<char>,
) -> Seq<char> {
    match data_dir_setting {
        Some(d) if d.len() > 0 => d,
        _ => path_join(
            match local_app_data {
                Some(l) => l,
                None => temp_dir,
            },
            "dsh-launcher"@,
        ),
    }
}

/// Where the data directory is: a non-empty `DSH_DATA_DIR` as it is;
/// otherwise `dsh-launcher` under `LOCALAPPDATA` whenever that is set, whether
/// `DSH_DATA_DIR` is unset or empty; the temporary directory only when
/// `LOCALAPPDATA` is unset, and then nothing else matters.
pub proof fn law_data_dir_choice(
    setting: Option<Seq<char>>,
    local_app_data: Option<Seq<char>>,
    temp_dir: Seq<char>,
    other_temp_dir: Seq<char>,
)
    ensures
        (setting matches Some(d) && d.len() > 0) ==> data_dir_of(setting, local_app_data, temp_dir)
            == setting->0,
        !(setting matches Some(d) && d.len() > 0) ==> (local_app_data matches Some(l)
            ==> data_dir_of(setting, local_app_data, temp_dir) == path_join(l, "dsh-launcher"@)),
        !(setting matches Some(d) && d.len() > 0) ==> (local_app_data is None ==> data_dir_of(
            setting,
            local_app_data,
            temp_dir,
        ) == path_join(temp_dir, "dsh-launcher"@)),
        local_app_data is Some ==> data_dir_of(setting, local_app_data, temp_dir) == data_dir_of(
            setting,
            local_app_data,
            other_temp_dir,
        ),
        data_dir_of(None, local_app_data, temp_dir) == data_dir_of(
            Some(Seq::empty()),
            local_app_data,
            temp_dir,
        ),
{
}

pub open spec fn opt_view(s: Option<String>) -> Option<Seq<char>> {
    match s {
        Some(t) => Some(t@),
        None => None,
    }
}

/// The launcher's data directory, from the values of `DSH_DATA_DIR` and
/// `LOCALAPPDATA` and the temporary directory.
pub fn data_dir(data_dir_setting: Option<String>, local_app_data: Option<String>, temp_dir: String) -> (d: String)
    ensures
        d@ == data_dir_of(opt_view(data_dir_setting), opt_view(local_app_data), temp_dir@),
{
    match data_dir_setting {
        Some(d) => {
            if !d.as_str().is_empty() {
                return d;
            }
        },
        None => {},
    }
    let base = match local_app_data {
        Some(l) => l,
        None => temp_dir,
    };
    join_path(base.as_str(), "dsh-launcher")
}

/// The launcher's own log.
pub fn log_path(data_dir: &str) -> (p: String)
    ensures
        p@ == path_join(data_dir@, "launcher.log"@),
{
    join_path(data_dir, "launcher.log")
}

/// The log of the UI server's output.
pub fn server_log_path(data_dir: &str) -> (p: String)
    ensures
        p@ == path_join(data_dir@, "server.log"@),
{
    join_path(data_dir, "server.log")
}

/// How the launcher stamps a line of its log: the Unix time in seconds, in
/// square brackets.
pub open spec fn timestamp_text(secs: nat) -> Seq<char> {
    seq!['['] + decimal(secs) + seq![']']
}

/// The current time as `[<unix seconds>]`.
pub fn now_ts() -> (s: String)
    ensures
        exists|secs: u64| s@ == timestamp_text(secs as nat),
{
    let secs = unix_seconds();
    timestamp(secs)
}

/// `secs` as `[<secs>]`.
pub fn timestamp(secs: u64) -> (s: String)
    ensures
        s@ == timestamp_text(secs as nat),
{
    let mut v: Vec<char> = Vec::new();
    v.push('[');
    push_decimal(&mut v, secs as u128);
    v.push(']');
    assert(v@ =~= timestamp_text(secs as nat));
    string_from_chars(v.as_slice())
}

/// A throw-away browser profile directory named after a clock reading.
pub open spec fn profile_dir_of(data_dir: Seq<char>, nanos: nat) -> Seq<char> {
    path_join(path_join(data_dir, "profiles"@), "run-"@ + decimal(nanos))
}

/// A fresh browser profile directory under the data directory, named after
/// the current time in nanoseconds.
pub fn fresh_profile_dir(data_dir: &str) -> (p: String)
    ensures
        exists|nanos: u128| p@ == profile_dir_of(data_dir@, nanos as nat),
{
    let nanos = unix_nanos();
    profile_dir(data_dir, nanos)
}

/// The browser profile directory for the clock reading `nanos`.
pub fn profile_dir(data_dir: &str, nanos: u128) -> (p: String)
    ensures
        p@ == profile_dir_of(data_dir@, nanos as nat),
{
    let profiles = join_path(data_dir, "profiles");
    let mut name = chars_of("run-");
    push_decimal(&mut name, nanos);
    let name_text = string_from_chars(name.as_slice());
    join_path(profiles.as_str(), name_text.as_str())
}

/// What `path_join` puts before a name appended to `base`.
pub open spec fn dir_prefix(base: Seq<char>) -> Seq<char> {
    if base.len() == 0 || ends_in_separator(base) || is_bare_drive(base) {
        base
    } else {
        base + seq!['\\']
    }
}

pub proof fn lemma_join_is_prefix_plus_name(base: Seq<char>, name: Seq<char>)
    ensures
        path_join(base, name) == dir_prefix(base) + name,
{
    assert(base + seq!['\\'] + name =~= (base + seq!['\\']) + name);
}

/// The launcher's log and the server's log are two different files in the
/// same directory: the data directory.
pub proof fn law_logs_differ_in_one_directory(data_dir: Seq<char>)
    ensures
        path_join(data_dir, "launcher.log"@) == dir_prefix(data_dir) + "launcher.log"@,
        path_join(data_dir, "server.log"@) == dir_prefix(data_dir) + "server.log"@,
        path_join(data_dir, "launcher.log"@) != path_join(data_dir, "server.log"@),
{
    reveal_strlit("launcher.log");
    reveal_strlit("server.log");
    lemma_join_is_prefix_plus_name(data_dir, "launcher.log"@);
    lemma_join_is_prefix_plus_name(data_dir, "server.log"@);
    assert(path_join(data_dir, "launcher.log"@).len() != path_join(data_dir, "server.log"@).len());
}

/// Two different clock readings give two different browser profile
/// directories, both in the same `profiles` directory under the data
/// directory.
pub proof fn law_profile_dirs_differ(data_dir: Seq<char>, t1: nat, t2: nat)
    requires
        t1 != t2,
    ensures
        profile_dir_of(data_dir, t1) == dir_prefix(path_join(data_dir, "profiles"@)) + "run-"@
            + decimal(t1),
        profile_dir_of(data_dir, t2) == dir_prefix(path_join(data_dir, "profiles"@)) + "run-"@
            + decimal(t2),
        profile_dir_of(data_dir, t1) != profile_dir_of(data_dir, t2),
{
    let base = path_join(data_dir, "profiles"@);
    let p = dir_prefix(base);
    lemma_join_is_prefix_plus_name(base, "run-"@ + decimal(t1));
    lemma_join_is_prefix_plus_name(base, "run-"@ + decimal(t2));
    assert(p + ("run-"@ + decimal(t1)) =~= p + "run-"@ + decimal(t1));
    assert(p + ("run-"@ + decimal(t2)) =~= p + "run-"@ + decimal(t2));
    lemma_decimal_digits(t1);
    lemma_decimal_digits(t2);
    let a = p + "run-"@ + decimal(t1);
    let b = p + "run-"@ + decimal(t2);
    let k: int = p.len() as int + "run-"@.len() as int;
    if a == b {
        assert(a.skip(k) =~= decimal(t1));
        assert(b.skip(k) =~= decimal(t2));
        assert(decimal(t1) == decimal(t2));
        assert(false);
    }
}

#[verifier::external_type_specification]
#[verifier::external_body]
pub struct ExSystemTime(SystemTime);

/// Calls `SystemTime::now`; nothing is claimed of the reading.
#[verifier::external_body]
fn system_now() -> SystemTime {
    SystemTime::now()
}

/// Calls `SystemTime::duration_since` with the Unix epoch; `None` for a time
/// before it. Nothing is claimed of the duration.
#[verifier::external_body]
fn since_unix_epoch(t: &SystemTime) -> Option<Duration> {
    t.duration_since(std::time::UNIX_EPOCH).ok()
}

/// Calls `Duration::as_secs`; the duration is opaque here, so nothing is
/// claimed of the result.
#[verifier::external_body]
fn duration_secs(d: &Duration) -> u64 {
    d.as_secs()
}

/// Calls `Duration::as_nanos`; the duration is opaque here, so nothing is
/// claimed of the result.
#[verifier::external_body]
fn duration_nanos(d: &Duration) -> u128 {
    d.as_nanos()
}

/// Seconds since the Unix epoch; 0 for a clock set before it.
fn unix_seconds() -> u64 {
    match since_unix_epoch(&system_now()) {
        Some(d) => duration_secs(&d),
        None => 0,
    }
}

/// Nanoseconds since the Unix epoch; 0 for a clock set before it.
fn unix_nanos() -> u128 {
    match since_unix_epoch(&system_now()) {
        Some(d) => duration_nanos(&d),
        None => 0,
    }
}

/// Where the configuration file may be, and what to do with it there.
pub enum ConfigSlot {
    /// Named by `DSH_LAUNCHER_CONFIG`: its directory is created and the
    /// template written if the file is missing; it is used in any case.
    Given,
    /// Beside the program: used if it exists, or if the template can be
    /// written there.
    BesideProgram,
    /// In the data directory: the template is written if the file is
    /// missing; it is used in any case.
    DataDir,
}

pub struct ConfigCandidate {
    pub path: String,
    pub slot: ConfigSlot,
}

pub struct ConfigCandidateView {
    pub path: Seq<char>,
    pub slot: ConfigSlot,
}

impl View for ConfigCandidate {
    type V = ConfigCandidateView;

    open spec fn view(&self) -> ConfigCandidateView {
        ConfigCandidateView { path: self.path@, slot: self.slot }
    }
}

/// The places to look for the configuration file, in order: only the file
/// named by `DSH_LAUNCHER_CONFIG` when that is set and not empty; otherwise the
/// file beside the program (when its directory is known), then the file in
/// the data directory.
pub open spec fn config_candidates_of(
    given: Option<Seq<char>>,
    program_dir: Option<Seq<char>>,
    data_dir: Seq<char>,
) -> Seq<ConfigCandidateView> {
    let fallback = ConfigCandidateView {
        path: path_join(data_dir, "dsh-launcher.conf"@),
        slot: ConfigSlot::DataDir,
    };
    match given {
        Some(g) if g.len() > 0 => seq![ConfigCandidateView { path: g, slot: ConfigSlot::Given }],
        _ => match program_dir {
            Some(d) => seq![
                ConfigCandidateView {
                    path: path_join(d, "dsh-launcher.conf"@),
                    slot: ConfigSlot::BesideProgram,
                },
                fallback,
            ],
            None => seq![fallback],
        },
    }
}

/// The places to look for the configuration file, in order, from the value
/// of `DSH_LAUNCHER_CONFIG`, the program's directory and the data directory.
pub fn config_path(given: Option<String>, program_dir: Option<String>, data_dir: &str) -> (c: Vec<
    ConfigCandidate,
>)
    ensures
        c@.map_values(|x: ConfigCandidate| x@) == config_candidates_of(
            opt_view(given),
            opt_view(program_dir),
            data_dir@,
        ),
{
    let mut c: Vec<ConfigCandidate> = Vec::new();
    match given {
        Some(g) => {
            if !g.as_str().is_empty() {
                let ghost gv = g@;
                c.push(ConfigCandidate { path: g, slot: ConfigSlot::Given });
                assert(c@.map_values(|x: ConfigCandidate| x@) =~= seq![
                    ConfigCandidateView { path: gv, slot: ConfigSlot::Given },
                ]);
                return c;
            }
        },
        None => {},
    }
    match program_dir {
        Some(d) => {
            let p = join_path(d.as_str(), CONFIG_FILE_NAME);
            c.push(ConfigCandidate { path: p, slot: ConfigSlot::BesideProgram });
        },
        None => {},
    }
    let f = join_path(data_dir, CONFIG_FILE_NAME);
    c.push(ConfigCandidate { path: f, slot: ConfigSlot::DataDir });
    assert(c@.map_values(|x: ConfigCandidate| x@) =~= config_candidates_of(
        opt_view(given),
        opt_view(program_dir),
        data_dir@,
    ));
    c
}

/// What to do with a candidate configuration file.
#[derive(Clone, Copy, PartialEq, Eq, Structural)]
pub enum ConfigUse {
    /// Use it.
    Use,
    /// Use it: the template was just written there.
    UseNewlyWritten,
    /// Pass it over and look at the next candidate.
    Skip,
}

/// Whether the template is written to a candidate before it is used: where
/// the file does not exist yet (in a named file's directory, created first,
/// beside the program, or in the data directory, created first).
pub open spec fn seeds_template(exists: bool) -> bool {
    !exists
}

/// The decision on a candidate, once it is known whether the file existed
/// and, where it did not, whether the template could be written there: a
/// named file and the file in the data directory are used in any case; the
/// file beside the program only if it exists or the template was written.
pub open spec fn config_use_of(slot: ConfigSlot, exists: bool, written: bool) -> ConfigUse {
    match slot {
        ConfigSlot::BesideProgram => if exists {
            ConfigUse::Use
        } else if written {
            ConfigUse::UseNewlyWritten
        } else {
            ConfigUse::Skip
        },
        _ => ConfigUse::Use,
    }
}

/// Whether to write the template to a candidate that does (not) exist.
pub fn seed_template(exists: bool) -> (b: bool)
    ensures
        b == seeds_template(exists),
{
    !exists
}

/// What to do with a candidate configuration file of `slot`, given whether it
/// existed and whether the template was written to it.
pub fn config_choice(slot: &ConfigSlot, exists: bool, written: bool) -> (u: ConfigUse)
    ensures
        u == config_use_of(*slot, exists, written),
{
    match slot {
        ConfigSlot::BesideProgram => {
            if exists {
                ConfigUse::Use
            } else if written {
                ConfigUse::UseNewlyWritten
            } else {
                ConfigUse::Skip
            }
        },
        _ => ConfigUse::Use,
    }
}

/// The last `max_bytes` bytes of a log, decoded as `String::from_utf8_lossy`
/// does.
pub fn read_tail(bytes: &[u8], max_bytes: usize) -> (s: String)
    ensures
        s@ == lossy_utf8(
            bytes@.skip(
                if bytes@.len() > max_bytes {
                    bytes@.len() - max_bytes
                } else {
                    0
                },
            ),
        ),
{
    let len = bytes.len();
    let start = if len > max_bytes {
        len - max_bytes
    } else {
        0
    };
    let tail = slice_subrange(bytes, start, len);
    assert(tail@ =~= bytes@.skip(start as int));
    utf8_lossy(tail)
}

} // verus!
