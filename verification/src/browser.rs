//! How the launcher finds Chrome and opens the isolated browser window, and
//! how it cleans up after it.

use vstd::prelude::*;

use crate::attempts::strings_view;
use crate::number::{decimal, push_decimal};
use crate::paths::{join_path, opt_view, path_join};
use crate::text::{owned, push_str, string_from_chars};

verus! {

/// Where Chrome installs itself under a program or application-data directory.
pub open spec fn chrome_relative_path() -> Seq<char> {
    "Google\\Chrome\\Application\\chrome.exe"@
}

/// Chrome under a directory, when the directory is known.
pub open spec fn chrome_under(dir: Option<Seq<char>>) -> Seq<Seq<char>> {
    match dir {
        Some(d) => seq![path_join(d, chrome_relative_path())],
        None => Seq::empty(),
    }
}

/// The candidates for Chrome, in order: a non-empty `DSH_CHROME` setting,
/// then Chrome under the program-files directory, the 32-bit program-files
/// directory and the local application-data directory, where those are set.
/// The first that is a file is used.
pub open spec fn chrome_candidates_of(
    setting: Option<Seq<char>>,
    program_files: Option<Seq<char>>,
    program_files_x86: Option<Seq<char>>,
    local_app_data: Option<Seq<char>>,
) -> Seq<Seq<char>> {
    let first = match setting {
        Some(p) if p.len() > 0 => seq![p],
        _ => Seq::empty(),
    };
    first + chrome_under(program_files) + chrome_under(program_files_x86) + chrome_under(
        local_app_data,
    )
}

pub open spec fn count_set(d: Option<Seq<char>>) -> int {
    if d is Some {
        1
    } else {
        0
    }
}

/// Every directory that is set contributes Chrome under it, in the order
/// program files, 32-bit program files, local application data, after a
/// non-empty `DSH_CHROME` setting; nothing else is a candidate.
pub proof fn law_each_set_directory_is_searched(
    setting: Option<Seq<char>>,
    program_files: Option<Seq<char>>,
    program_files_x86: Option<Seq<char>>,
    local_app_data: Option<Seq<char>>,
)
    ensures
        ({
            let c = chrome_candidates_of(setting, program_files, program_files_x86, local_app_data);
            let n0: int = if setting matches Some(p) && p.len() > 0 {
                1
            } else {
                0
            };
            let n1 = n0 + count_set(program_files);
            let n2 = n1 + count_set(program_files_x86);
            &&& c.len() == n2 + count_set(local_app_data)
            &&& n0 == 1 ==> c[0] == setting->0
            &&& program_files matches Some(d) ==> c[n0] == path_join(d, chrome_relative_path())
            &&& program_files_x86 matches Some(d) ==> c[n1] == path_join(d, chrome_relative_path())
            &&& local_app_data matches Some(d) ==> c[n2] == path_join(d, chrome_relative_path())
        }),
{
}

fn push_chrome_under(c: &mut Vec<String>, dir: Option<String>)
    ensures
        strings_view(final(c)@) == strings_view(old(c)@) + chrome_under(opt_view(dir)),
{
    match dir {
        Some(d) => {
            let p = join_path(d.as_str(), "Google\\Chrome\\Application\\chrome.exe");
            c.push(p);
        },
        None => {},
    }
    assert(strings_view(c@) =~= strings_view(old(c)@) + chrome_under(opt_view(dir)));
}

/// The candidates for Chrome, from `DSH_CHROME`, `PROGRAMFILES`,
/// `PROGRAMFILES(X86)` and `LOCALAPPDATA`.
pub fn chrome_path(
    setting: Option<String>,
    program_files: Option<String>,
    program_files_x86: Option<String>,
    local_app_data: Option<String>,
) -> (c: Vec<String>)
    ensures
        strings_view(c@) == chrome_candidates_of(
            opt_view(setting),
            opt_view(program_files),
            opt_view(program_files_x86),
            opt_view(local_app_data),
        ),
{
    let mut c: Vec<String> = Vec::new();
    let ghost s0 = opt_view(setting);
    match setting {
        Some(p) => {
            if !p.as_str().is_empty() {
                c.push(p);
            }
        },
        None => {},
    }
    assert(strings_view(c@) =~= match s0 {
        Some(p) if p.len() > 0 => seq![p],
        _ => Seq::<Seq<char>>::empty(),
    });
    push_chrome_under(&mut c, program_files);
    push_chrome_under(&mut c, program_files_x86);
    push_chrome_under(&mut c, local_app_data);
    c
}

/// The arguments that open a fresh, isolated Chrome window at `url`: its own
/// throw-away profile directory, a new window, and no first-run, default-browser,
/// background or restore-session prompts.
pub open spec fn chrome_args_of(url: Seq<char>, profile: Seq<char>) -> Seq<Seq<char>> {
    seq![
        "--user-data-dir="@ + profile,
        "--new-window"@,
        "--no-first-run"@,
        "--no-default-browser-check"@,
        "--disable-background-mode"@,
        "--disable-session-crashed-bubble"@,
        url,
    ]
}

/// The arguments that open Chrome at `url` with the profile directory `profile`.
pub fn chrome_args(url: &str, profile: &str) -> (a: Vec<String>)
    ensures
        strings_view(a@) == chrome_args_of(url@, profile@),
{
    let mut first: Vec<char> = Vec::new();
    push_str(&mut first, "--user-data-dir=");
    push_str(&mut first, profile);
    let mut a: Vec<String> = Vec::new();
    a.push(string_from_chars(first.as_slice()));
    a.push(owned("--new-window"));
    a.push(owned("--no-first-run"));
    a.push(owned("--no-default-browser-check"));
    a.push(owned("--disable-background-mode"));
    a.push(owned("--disable-session-crashed-bubble"));
    a.push(owned(url));
    assert(strings_view(a@) =~= chrome_args_of(url@, profile@));
    a
}

/// How many echo requests the stand-in browser for `secs` sends: twice
/// `secs`, and at least two. `ping` sends one a second, so the stand-in stays
/// open about `2 * secs` seconds.
pub open spec fn fake_browser_pings(secs: nat) -> nat {
    if secs * 2 >= 2 {
        secs * 2
    } else {
        2
    }
}

/// The arguments of `cmd.exe` for the stand-in browser used in tests: a
/// `ping` of the loopback address, `2 * secs` echo requests long.
pub fn fake_chrome_args(secs: u64) -> (a: Vec<String>)
    requires
        secs * 2 <= u64::MAX,
    ensures
        strings_view(a@) == seq![
            "/C"@,
            "ping"@,
            "-n"@,
            decimal(fake_browser_pings(secs as nat)),
            "127.0.0.1"@,
            ">"@,
            "nul"@,
        ],
{
    let doubled = secs * 2;
    let n = if doubled >= 2 {
        doubled
    } else {
        2
    };
    let mut count: Vec<char> = Vec::new();
    push_decimal(&mut count, n as u128);
    let mut a: Vec<String> = Vec::new();
    a.push(owned("/C"));
    a.push(owned("ping"));
    a.push(owned("-n"));
    a.push(string_from_chars(count.as_slice()));
    a.push(owned("127.0.0.1"));
    a.push(owned(">"));
    a.push(owned("nul"));
    assert(strings_view(a@) =~= seq![
        "/C"@,
        "ping"@,
        "-n"@,
        decimal(fake_browser_pings(secs as nat)),
        "127.0.0.1"@,
        ">"@,
        "nul"@,
    ]);
    a
}

/// How many times removing the browser profile is tried.
pub const PROFILE_REMOVAL_TRIES: u32 = 10;

/// The pause after a failed removal of the browser profile, in milliseconds.
pub const PROFILE_RETRY_MS: u64 = 200;

/// Whether removing the browser profile is tried again after `failures`
/// failed tries (each followed by a pause).
pub fn retry_profile_removal(failures: u32) -> (b: bool)
    ensures
        b == (failures < PROFILE_REMOVAL_TRIES),
{
    failures < PROFILE_REMOVAL_TRIES
}

} // verus!
