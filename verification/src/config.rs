//! The launcher's configuration: its built-in defaults, the text format of
//! its configuration file, and the environment settings that override it.

use vstd::prelude::*;
use vstd::slice::slice_subrange;

use crate::number::{parse_unsigned, parse_unsigned_chars};
use crate::text::{
    char_code, chars_of, find, find_chars, is_whitespace, is_whitespace_char, is_word,
    law_words_are_words,
    lemma_find_before_bounds, line_spans, lines, string_from_chars, trim, trim_chars, words,
    words_of,
};

verus! {

/// The port the UI is served on unless the configuration says otherwise.
pub const DEFAULT_PORT: u16 = 3080;

/// The name of the configuration file.
pub const CONFIG_FILE_NAME: &'static str = "dsh-launcher.conf";

/// The configuration file written on first run; its values are the built-in
/// defaults.
pub const CONFIG_TEMPLATE: &'static str = "\
# dsh-launcher configuration \u{2014} every entry is optional.
# The values below are the built-in defaults; delete this file to restore them.
# Edit this file (no rebuild needed) when a DSH release changes its CLI.

# Command that serves the DSH web UI. The launcher appends the port argument.
command = npx --yes @deepseek-ai/dsh web

# Extra arguments for the first launch attempt (space separated).
# --no-open keeps dsh from opening a browser of its own.
extra_args = --no-open

# Preferred port. If something without a token already serves it, that service
# is reused; if it is busy, the launcher starts its own instance on a free port.
# Use 0 to always let dsh pick a free port.
port = 3080

# Text that marks the line of dsh output carrying the launch URL; the first
# http(s) URL after it is handed to the browser.
url_marker = dsh web:

# How long to wait for the server to become ready, in seconds.
timeout_secs = 300
";

/// How the launcher starts the UI server and recognises that it is ready.
pub struct LaunchConfig {
    /// The command that serves the UI; the launcher appends its own arguments.
    pub command: String,
    /// Arguments for the first launch attempt.
    pub extra_args: Vec<String>,
    /// The preferred port; 0 lets the server pick one.
    pub port: u16,
    /// The text that marks the line of output carrying the launch URL.
    pub url_marker: String,
    /// How long to wait for the server to become ready, in seconds.
    pub timeout_secs: u64,
    /// The command was replaced by a test setting and is run verbatim.
    pub test_command: bool,
    /// Where the configuration was read from.
    pub path: String,
}

pub struct LaunchConfigView {
    pub command: Seq<char>,
    pub extra_args: Seq<Seq<char>>,
    pub port: u16,
    pub url_marker: Seq<char>,
    pub timeout_secs: u64,
    pub test_command: bool,
    pub path: Seq<char>,
}

impl View for LaunchConfig {
    type V = LaunchConfigView;

    open spec fn view(&self) -> LaunchConfigView {
        LaunchConfigView {
            command: self.command@,
            extra_args: self.extra_args@.map_values(|a: String| a@),
            port: self.port,
            url_marker: self.url_marker@,
            timeout_secs: self.timeout_secs,
            test_command: self.test_command,
            path: self.path@,
        }
    }
}

/// The built-in defaults, read from the file at `path`.
pub open spec fn default_config(path: Seq<char>) -> LaunchConfigView {
    LaunchConfigView {
        command: "npx --yes @deepseek-ai/dsh web"@,
        extra_args: seq!["--no-open"@],
        port: 3080,
        url_marker: "dsh web:"@,
        timeout_secs: 300,
        test_command: false,
        path: path,
    }
}

impl Default for LaunchConfig {
    fn default() -> (cfg: LaunchConfig)
        ensures
            cfg@ == default_config(Seq::empty()),
    {
        let mut extra_args: Vec<String> = Vec::new();
        extra_args.push(string_from_chars(chars_of("--no-open").as_slice()));
        let cfg = LaunchConfig {
            command: string_from_chars(chars_of("npx --yes @deepseek-ai/dsh web").as_slice()),
            extra_args,
            port: DEFAULT_PORT,
            url_marker: string_from_chars(chars_of("dsh web:").as_slice()),
            timeout_secs: 300,
            test_command: false,
            path: String::new(),
        };
        assert(cfg@.extra_args =~= seq!["--no-open"@]);
        cfg
    }
}

/// Something in the configuration file that was not taken.
pub enum ConfigNote {
    /// A `port` value that is not a `u16`; the port that was kept.
    BadPort { value: String, kept: u16 },
    /// A `timeout_secs` value that is not a `u64`.
    BadTimeout { value: String },
    /// A key that the launcher does not know (or `command` with no value).
    UnknownKey { key: String },
}

pub enum ConfigNoteView {
    BadPort { value: Seq<char>, kept: u16 },
    BadTimeout { value: Seq<char> },
    UnknownKey { key: Seq<char> },
}

impl View for ConfigNote {
    type V = ConfigNoteView;

    open spec fn view(&self) -> ConfigNoteView {
        match self {
            ConfigNote::BadPort { value, kept } => ConfigNoteView::BadPort { value: value@, kept: *kept },
            ConfigNote::BadTimeout { value } => ConfigNoteView::BadTimeout { value: value@ },
            ConfigNote::UnknownKey { key } => ConfigNoteView::UnknownKey { key: key@ },
        }
    }
}

/// A configuration as read so far, with what was not taken.
pub struct ConfigReading {
    pub config: LaunchConfigView,
    pub notes: Seq<ConfigNoteView>,
}

pub open spec fn notes_view(notes: Seq<ConfigNote>) -> Seq<ConfigNoteView> {
    notes.map_values(|n: ConfigNote| n@)
}

/// A `#` that follows whitespace begins a comment at the end of a value.
pub open spec fn is_comment_mark(s: Seq<char>, j: int) -> bool {
    0 < j < s.len() && s[j] == '#' && is_whitespace(s[j - 1])
}

/// Where the text from position `i` on is cut by a trailing comment: at the
/// first `#` that follows whitespace, or at the end.
pub open spec fn comment_start(s: Seq<char>, i: int) -> int
    decreases s.len() - i,
{
    if i < s.len() && !is_comment_mark(s, i) {
        comment_start(s, i + 1)
    } else {
        i
    }
}

/// `s` without a trailing comment.
pub open spec fn strip_comment(s: Seq<char>) -> Seq<char> {
    s.take(comment_start(s, 0))
}

/// One line of the configuration file. Blank lines and lines that begin with
/// `#` (after trimming) say nothing, nor do lines without `=`. Otherwise the
/// trimmed text before the first `=` is the key, and its value is the rest,
/// cut at a trailing comment (a `#` that follows whitespace), then trimmed.
pub open spec fn apply_config_line(r: ConfigReading, raw: Seq<char>) -> ConfigReading {
    let line = trim(raw);
    if line.len() == 0 || line[0] == '#' {
        r
    } else {
        match find(line, seq!['=']) {
            None => r,
            Some(eq) => {
                let key = trim(line.take(eq));
                let value = trim(strip_comment(line.skip(eq + 1)));
                let c = r.config;
                if key == "command"@ && value.len() > 0 {
                    ConfigReading { config: LaunchConfigView { command: value, ..c }, ..r }
                } else if key == "extra_args"@ {
                    ConfigReading { config: LaunchConfigView { extra_args: words(value), ..c }, ..r }
                } else if key == "port"@ {
                    match parse_unsigned(value, 65535) {
                        Some(p) => ConfigReading {
                            config: LaunchConfigView { port: p as u16, ..c },
                            ..r
                        },
                        None => ConfigReading {
                            notes: r.notes.push(ConfigNoteView::BadPort { value, kept: c.port }),
                            ..r
                        },
                    }
                } else if key == "url_marker"@ {
                    ConfigReading { config: LaunchConfigView { url_marker: value, ..c }, ..r }
                } else if key == "timeout_secs"@ {
                    match parse_unsigned(value, 0xffff_ffff_ffff_ffff) {
                        Some(t) => ConfigReading {
                            config: LaunchConfigView { timeout_secs: t as u64, ..c },
                            ..r
                        },
                        None => ConfigReading {
                            notes: r.notes.push(ConfigNoteView::BadTimeout { value }),
                            ..r
                        },
                    }
                } else {
                    ConfigReading { notes: r.notes.push(ConfigNoteView::UnknownKey { key }), ..r }
                }
            },
        }
    }
}

/// The lines of a configuration file, read in order.
pub open spec fn apply_config_lines(r: ConfigReading, ls: Seq<Seq<char>>) -> ConfigReading
    decreases ls.len(),
{
    if ls.len() == 0 {
        r
    } else {
        apply_config_line(apply_config_lines(r, ls.drop_last()), ls.last())
    }
}

pub open spec fn all_words(args: Seq<Seq<char>>) -> bool {
    forall|k: int| 0 <= k < args.len() ==> is_word(#[trigger] args[k])
}

proof fn lemma_lines_keep_words(r: ConfigReading, ls: Seq<Seq<char>>)
    requires
        all_words(r.config.extra_args),
    ensures
        all_words(apply_config_lines(r, ls).config.extra_args),
    decreases ls.len(),
{
    if ls.len() > 0 {
        lemma_lines_keep_words(r, ls.drop_last());
        let line = trim(ls.last());
        if line.len() > 0 && line[0] != '#' {
            if let Some(eq) = find(line, seq!['=']) {
                law_words_are_words(trim(strip_comment(line.skip(eq + 1))));
            }
        }
    }
}

/// The extra arguments of a loaded configuration are words: non-empty and
/// free of whitespace, so each reaches the server as one argument.
pub proof fn law_loaded_extra_args_are_words(
    path: Seq<char>,
    text: Option<Seq<char>>,
    env: EnvOverrides,
)
    ensures
        all_words(loaded_config(path, text, env).config.extra_args),
{
    reveal_strlit("--no-open");
    let start = ConfigReading { config: default_config(path), notes: Seq::empty() };
    assert(is_word(start.config.extra_args[0]));
    assert(all_words(start.config.extra_args));
    if let Some(t) = text {
        lemma_lines_keep_words(start, lines(t));
    }
}

/// Settings from the environment that override the configuration file; each
/// is `None` when the variable is unset or not valid Unicode.
pub struct EnvOverrides {
    /// `DSH_PORT`.
    pub port: Option<String>,
    /// `DSH_READY_TIMEOUT_SECS`.
    pub ready_timeout_secs: Option<String>,
    /// `DSH_SERVER_EXTRA`: a command run verbatim in place of the configured one.
    pub server_command: Option<String>,
}

/// The environment overrides: a port or timeout that does not parse is
/// ignored; a server command that is not blank replaces the command, untrimmed,
/// and marks it as a test command.
pub open spec fn apply_overrides(c: LaunchConfigView, env: EnvOverrides) -> LaunchConfigView {
    let c1 = match env.port {
        Some(v) => match parse_unsigned(v@, 65535) {
            Some(p) => LaunchConfigView { port: p as u16, ..c },
            None => c,
        },
        None => c,
    };
    let c2 = match env.ready_timeout_secs {
        Some(v) => match parse_unsigned(v@, 0xffff_ffff_ffff_ffff) {
            Some(t) => LaunchConfigView { timeout_secs: t as u64, ..c1 },
            None => c1,
        },
        None => c1,
    };
    match env.server_command {
        Some(v) => if trim(v@).len() > 0 {
            LaunchConfigView { command: v@, test_command: true, ..c2 }
        } else {
            c2
        },
        None => c2,
    }
}

/// The configuration that `load` yields: the defaults, then each line of the
/// file's text (none when it could not be read), then the environment.
pub open spec fn loaded_config(
    path: Seq<char>,
    text: Option<Seq<char>>,
    env: EnvOverrides,
) -> ConfigReading {
    let start = ConfigReading { config: default_config(path), notes: Seq::empty() };
    let read = match text {
        Some(t) => apply_config_lines(start, lines(t)),
        None => start,
    };
    ConfigReading { config: apply_overrides(read.config, env), notes: read.notes }
}

/// Whether two runs of characters are equal.
pub fn chars_eq(a: &[char], b: &[char]) -> (r: bool)
    ensures
        r == (a@ == b@),
{
    if a.len() != b.len() {
        return false;
    }
    let mut i: usize = 0;
    while i < a.len()
        invariant
            i <= a@.len() == b@.len(),
            a@.take(i as int) =~= b@.take(i as int),
        decreases a@.len() - i,
    {
        if a[i] != b[i] {
            return false;
        }
        assert(a@.take(i + 1) =~= a@.take(i as int).push(a@[i as int]));
        assert(b@.take(i + 1) =~= b@.take(i as int).push(b@[i as int]));
        i = i + 1;
    }
    assert(a@.take(i as int) =~= a@);
    assert(b@.take(i as int) =~= b@);
    true
}

pub open spec fn text_view(text: Option<String>) -> Option<Seq<char>> {
    match text {
        Some(t) => Some(t@),
        None => None,
    }
}

impl LaunchConfig {
    /// The configuration at `path`: the built-in defaults, then each line of
    /// the file's `text` (`None` when the file could not be read), then the
    /// environment overrides. Also returns, in order, what the file said that
    /// was not taken.
    pub fn load(path: String, text: Option<String>, env: &EnvOverrides) -> (r: (
        LaunchConfig,
        Vec<ConfigNote>,
    ))
        ensures
            r.0@ == loaded_config(path@, text_view(text), *env).config,
            notes_view(r.1@) == loaded_config(path@, text_view(text), *env).notes,
    {
        let mut cfg = LaunchConfig::default();
        cfg.path = path;
        let mut notes: Vec<ConfigNote> = Vec::new();
        let ghost start = ConfigReading { config: default_config(path@), notes: Seq::empty() };
        assert(cfg@ == start.config);
        assert(notes_view(notes@) =~= start.notes);
        match &text {
            Some(t) => {
                let chars = chars_of(t.as_str());
                let spans = line_spans(chars.as_slice());
                let ghost ls = lines(chars@);
                let mut k: usize = 0;
                assert(ls.take(0) =~= Seq::<Seq<char>>::empty());
                while k < spans.len()
                    invariant
                        k <= spans@.len() == ls.len(),
                        ls == lines(chars@),
                        forall|q: int|
                            0 <= q < spans@.len() ==> {
                                &&& (#[trigger] spans@[q]).0 <= spans@[q].1 <= chars@.len()
                                &&& chars@.subrange(spans@[q].0 as int, spans@[q].1 as int) == ls[q]
                            },
                        (ConfigReading { config: cfg@, notes: notes_view(notes@) })
                            == apply_config_lines(start, ls.take(k as int)),
                    decreases spans@.len() - k,
                {
                    let (a, b) = spans[k];
                    let line = slice_subrange(chars.as_slice(), a, b);
                    assert(ls.take(k + 1).drop_last() =~= ls.take(k as int));
                    cfg.apply_line(&mut notes, line);
                    k = k + 1;
                }
                assert(ls.take(k as int) =~= ls);
            },
            None => {},
        }
        cfg.apply_overrides(env);
        (cfg, notes)
    }

    /// Applies the environment overrides.
    pub fn apply_overrides(&mut self, env: &EnvOverrides)
        ensures
            final(self)@ == apply_overrides(old(self)@, *env),
    {
        match &env.port {
            Some(v) => {
                let c = chars_of(v.as_str());
                match parse_unsigned_chars(c.as_slice(), 65535) {
                    Some(p) => {
                        self.port = p as u16;
                    },
                    None => {},
                }
            },
            None => {},
        }
        match &env.ready_timeout_secs {
            Some(v) => {
                let c = chars_of(v.as_str());
                match parse_unsigned_chars(c.as_slice(), 0xffff_ffff_ffff_ffff) {
                    Some(t) => {
                        self.timeout_secs = t;
                    },
                    None => {},
                }
            },
            None => {},
        }
        match &env.server_command {
            Some(v) => {
                let c = chars_of(v.as_str());
                if trim_chars(c.as_slice()).len() > 0 {
                    self.command = v.clone();
                    self.test_command = true;
                }
            },
            None => {},
        }
    }

    /// Reads one line of the configuration file into `self`, adding to
    /// `notes` what was not taken.
    fn apply_line(&mut self, notes: &mut Vec<ConfigNote>, raw: &[char])
        ensures
            (ConfigReading { config: final(self)@, notes: notes_view(final(notes)@) })
                == apply_config_line(
                ConfigReading { config: old(self)@, notes: notes_view(old(notes)@) },
                raw@,
            ),
    {
        let ghost r0 = ConfigReading { config: self@, notes: notes_view(notes@) };
        let line = trim_chars(raw);
        if line.len() == 0 || line[0] == '#' {
            return ;
        }
        let eq_sign = ['='];
        let eq = match find_chars(line, eq_sign.as_slice()) {
            Some(k) => k,
            None => {
                assert(eq_sign@ =~= seq!['=']);
                return ;
            },
        };
        assert(eq_sign@ =~= seq!['=']);
        proof {
            lemma_find_before_bounds(line@, seq!['='], line@.len() + 1int);
        }
        let len = line.len();
        let before = slice_subrange(line, 0, eq);
        let after = slice_subrange(line, eq + 1, len);
        assert(before@ =~= line@.take(eq as int));
        assert(after@ =~= line@.skip(eq + 1));
        let key = trim_chars(before);
        let alen = after.len();
        let mut j: usize = 0;
        while j < alen && !(after[j] == '#' && j > 0 && is_whitespace_char(after[j - 1]))
            invariant
                j <= alen == after@.len(),
                comment_start(after@, 0) == comment_start(after@, j as int),
            decreases alen - j,
        {
            j = j + 1;
        }
        let uncommented = slice_subrange(after, 0, j);
        assert(uncommented@ =~= strip_comment(after@));
        let value = trim_chars(uncommented);
        let ghost old_notes = notes@;
        if chars_eq(key, chars_of("command").as_slice()) && value.len() > 0 {
            self.command = string_from_chars(value);
        } else if chars_eq(key, chars_of("extra_args").as_slice()) {
            let ws = words_of(value);
            self.extra_args = ws;
            assert(self@.extra_args =~= words(value@));
        } else if chars_eq(key, chars_of("port").as_slice()) {
            match parse_unsigned_chars(value, 65535) {
                Some(p) => {
                    self.port = p as u16;
                },
                None => {
                    notes.push(ConfigNote::BadPort { value: string_from_chars(value), kept: self.port });
                    assert(notes_view(notes@) =~= notes_view(old_notes).push(
                        ConfigNoteView::BadPort { value: value@, kept: self.port },
                    ));
                },
            }
        } else if chars_eq(key, chars_of("url_marker").as_slice()) {
            self.url_marker = string_from_chars(value);
        } else if chars_eq(key, chars_of("timeout_secs").as_slice()) {
            match parse_unsigned_chars(value, 0xffff_ffff_ffff_ffff) {
                Some(t) => {
                    self.timeout_secs = t;
                },
                None => {
                    notes.push(ConfigNote::BadTimeout { value: string_from_chars(value) });
                    assert(notes_view(notes@) =~= notes_view(old_notes).push(
                        ConfigNoteView::BadTimeout { value: value@ },
                    ));
                },
            }
        } else {
            notes.push(ConfigNote::UnknownKey { key: string_from_chars(key) });
            assert(notes_view(notes@) =~= notes_view(old_notes).push(
                ConfigNoteView::UnknownKey { key: key@ },
            ));
        }
    }
}


/// A character's code with ASCII upper case folded to lower case.
pub open spec fn ascii_folded(c: char) -> int {
    if 'A' <= c && c <= 'Z' {
        c as int + 32
    } else {
        c as int
    }
}

/// Equality of two texts when ASCII case is ignored.
pub open spec fn eq_ignore_ascii_case(a: Seq<char>, b: Seq<char>) -> bool {
    a.len() == b.len() && forall|i: int| 0 <= i < a.len() ==> ascii_folded(a[i]) == ascii_folded(b[i])
}

/// Whether an environment setting switches a feature on: `1`, or `true` in
/// any ASCII case.
pub open spec fn flag_on(value: Seq<char>) -> bool {
    value == "1"@ || eq_ignore_ascii_case(value, "true"@)
}

/// Whether the value of an environment setting switches a feature on.
pub fn flag_enabled(value: &str) -> (b: bool)
    ensures
        b == flag_on(value@),
{
    let v = chars_of(value);
    if chars_eq(v.as_slice(), chars_of("1").as_slice()) {
        return true;
    }
    let t = chars_of("true");
    if v.len() != t.len() {
        return false;
    }
    let mut i: usize = 0;
    while i < v.len()
        invariant
            i <= v@.len() == t@.len(),
            v@ == value@,
            value@ != "1"@,
            t@ == "true"@,
            forall|j: int| 0 <= j < i ==> ascii_folded(v@[j]) == ascii_folded(t@[j]),
        decreases v@.len() - i,
    {
        let a = v[i];
        let b = t[i];
        let fa: u32 = if 'A' <= a && a <= 'Z' {
            char_code(a) + 32
        } else {
            char_code(a)
        };
        let fb: u32 = if 'A' <= b && b <= 'Z' {
            char_code(b) + 32
        } else {
            char_code(b)
        };
        assert(fa as int == ascii_folded(a));
        assert(fb as int == ascii_folded(b));
        if fa != fb {
            assert(ascii_folded(value@[i as int]) != ascii_folded("true"@[i as int]));
            return false;
        }
        i = i + 1;
    }
    true
}

} // verus!
