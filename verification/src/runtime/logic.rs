//! The runtime table, the decisions made from what was found, and the
//! commands each runtime's documentation prescribes.
use vstd::prelude::*;
use vstd::string::*;

use crate::kernel::error::{Error, Result};
use crate::kernel::model_ref::{trim_text, trimmed};
use crate::runtime::deps::Os;
use crate::runtime::json::{json_read, read_json, Json};
use crate::text::{
    join_path, joined_path, rfind_char, rsplit_once, trim_end, trim_end_text,
    chars_of, debug_quoted, debug_str, decimal, decimal_string, ends_with, lower, lower_chars,
    join, join_strings, starts_with, str_ends_with, str_eq, str_starts_with, string_from_chars,
    string_views,
};

verus! {

/// The runtimes infy drives.
#[derive(Debug, Clone, Copy, PartialEq, Eq, Hash, Structural)]
pub enum RuntimeKind {
    Ollama,
    LlamaCpp,
    LmStudio,
}

/// The name used in refs (`ollama:`) and on the command line.
pub open spec fn kind_name(k: RuntimeKind) -> Seq<char> {
    match k {
        RuntimeKind::Ollama => "ollama"@,
        RuntimeKind::LlamaCpp => "llamacpp"@,
        RuntimeKind::LmStudio => "lmstudio"@,
    }
}

/// The runtime a lower-cased name or alias names.
pub open spec fn kind_named(s: Seq<char>) -> Option<RuntimeKind> {
    if s == "ollama"@ {
        Some(RuntimeKind::Ollama)
    } else if s == "llamacpp"@ || s == "llama.cpp"@ || s == "llama-cpp"@ || s == "llama-server"@ {
        Some(RuntimeKind::LlamaCpp)
    } else if s == "lmstudio"@ || s == "lm-studio"@ || s == "lms"@ {
        Some(RuntimeKind::LmStudio)
    } else {
        None
    }
}

impl RuntimeKind {
    /// Every runtime, in the order they are reported.
    pub fn all() -> (r: [RuntimeKind; 3])
        ensures
            r@ == seq![RuntimeKind::Ollama, RuntimeKind::LlamaCpp, RuntimeKind::LmStudio],
    {
        [RuntimeKind::Ollama, RuntimeKind::LlamaCpp, RuntimeKind::LmStudio]
    }

    /// The name used in refs (`ollama:`) and on the command line.
    pub fn name(self) -> (r: &'static str)
        ensures
            r@ == kind_name(self),
    {
        match self {
            RuntimeKind::Ollama => "ollama",
            RuntimeKind::LlamaCpp => "llamacpp",
            RuntimeKind::LmStudio => "lmstudio",
        }
    }

    /// A runtime by name or common alias, in any letter case.
    pub fn parse(s: &str) -> (r: Result<RuntimeKind>)
        ensures
            match kind_named(lower(s@)) {
                Some(k) => r == Ok::<RuntimeKind, Error>(k),
                None => r matches Err(Error::Invalid(m)) && m@ == "unknown runtime "@
                    + debug_quoted(lower(s@)) + "; infy knows ollama, llamacpp and lmstudio"@,
            },
    {
        let low = lower_chars(s);
        let l = string_from_chars(&low, 0, low.len());
        assert(low@.subrange(0, low@.len() as int) =~= low@);
        let t = l.as_str();
        if str_eq(t, "ollama") {
            Ok(RuntimeKind::Ollama)
        } else if str_eq(t, "llamacpp") || str_eq(t, "llama.cpp") || str_eq(t, "llama-cpp")
            || str_eq(t, "llama-server") {
            Ok(RuntimeKind::LlamaCpp)
        } else if str_eq(t, "lmstudio") || str_eq(t, "lm-studio") || str_eq(t, "lms") {
            Ok(RuntimeKind::LmStudio)
        } else {
            let mut m = "unknown runtime ".to_owned();
            let q = debug_str(t);
            m.append(q.as_str());
            m.append("; infy knows ollama, llamacpp and lmstudio");
            Err(Error::Invalid(m))
        }
    }
}

/// Parsing a runtime's own name gives it back.
pub proof fn law_kind_name_round_trip(k: RuntimeKind)
    ensures
        kind_named(lower(kind_name(k))) == Some(k),
{
    reveal_strlit("ollama");
    reveal_strlit("llamacpp");
    reveal_strlit("lmstudio");
    reveal_strlit("llama.cpp");
    reveal_strlit("llama-cpp");
    reveal_strlit("llama-server");
    reveal_strlit("lm-studio");
    reveal_strlit("lms");
    assert(lower(kind_name(k)) =~= kind_name(k));
    match k {
        RuntimeKind::Ollama => {},
        RuntimeKind::LlamaCpp => {
            assert("llamacpp"@ != "ollama"@);
        },
        RuntimeKind::LmStudio => {
            assert("lmstudio"@ != "ollama"@);
            assert("lmstudio"@[1] != "llamacpp"@[1]);
            assert("lmstudio"@ != "llamacpp"@);
            assert("lmstudio"@ != "llama.cpp"@);
            assert("lmstudio"@ != "llama-cpp"@);
            assert("lmstudio"@ != "llama-server"@);
        },
    }
}


/// How to install a runtime on each OS: a command where one exists, and
/// the page to visit where it does not.
#[derive(Debug, Clone, Copy)]
pub struct Install {
    pub linux: Option<&'static str>,
    pub macos: Option<&'static str>,
    pub windows: Option<&'static str>,
    pub url: &'static str,
}

/// Everything that differs between runtimes. The rest is code, written once.
#[derive(Debug, Clone)]
pub struct RuntimeSpec {
    pub kind: RuntimeKind,
    pub display: &'static str,
    /// Executable names to look for on `PATH`.
    pub binaries: Vec<&'static str>,
    /// Places installers put it that are often not on `PATH`. `~` is the home.
    pub well_known: Vec<&'static str>,
    pub default_url: &'static str,
    /// A path that answers when the server is up.
    pub health_path: &'static str,
    /// Where the served models are listed.
    pub models_path: &'static str,
    /// Whether starting needs a model file on the command line.
    pub needs_model_to_start: bool,
    pub install: Install,
}

pub open spec fn display_name(k: RuntimeKind) -> Seq<char> {
    match k {
        RuntimeKind::Ollama => "ollama"@,
        RuntimeKind::LlamaCpp => "llama.cpp"@,
        RuntimeKind::LmStudio => "LM Studio"@,
    }
}

pub open spec fn binaries_of(k: RuntimeKind) -> Seq<Seq<char>> {
    match k {
        RuntimeKind::Ollama => seq!["ollama"@],
        RuntimeKind::LlamaCpp => seq!["llama-server"@],
        RuntimeKind::LmStudio => seq!["lms"@],
    }
}

pub open spec fn well_known_of(k: RuntimeKind) -> Seq<Seq<char>> {
    match k {
        RuntimeKind::Ollama => seq![
            "/usr/local/bin/ollama"@,
            "/opt/homebrew/bin/ollama"@,
            "/Applications/Ollama.app/Contents/Resources/ollama"@,
            "~/.ollama/bin/ollama"@,
            "~/AppData/Local/Programs/Ollama/ollama.exe"@,
        ],
        RuntimeKind::LlamaCpp => seq![
            "/opt/homebrew/bin/llama-server"@,
            "/usr/local/bin/llama-server"@,
            "~/llama.cpp/build/bin/llama-server"@,
            "~/.local/bin/llama-server"@,
        ],
        RuntimeKind::LmStudio => seq![
            "~/.lmstudio/bin/lms"@,
            "~/.cache/lm-studio/bin/lms"@,
            "~/.lmstudio/bin/lms.exe"@,
        ],
    }
}

pub open spec fn default_url(k: RuntimeKind) -> Seq<char> {
    match k {
        RuntimeKind::Ollama => "http://127.0.0.1:11434"@,
        RuntimeKind::LlamaCpp => "http://127.0.0.1:8080"@,
        RuntimeKind::LmStudio => "http://127.0.0.1:1234"@,
    }
}

pub open spec fn health_path(k: RuntimeKind) -> Seq<char> {
    match k {
        RuntimeKind::Ollama => "/"@,
        RuntimeKind::LlamaCpp => "/health"@,
        RuntimeKind::LmStudio => "/v1/models"@,
    }
}

pub open spec fn models_path(k: RuntimeKind) -> Seq<char> {
    match k {
        RuntimeKind::Ollama => "/api/tags"@,
        _ => "/v1/models"@,
    }
}

/// The install command for an OS, where the runtime has one.
pub open spec fn install_command_of(k: RuntimeKind, os: Os) -> Option<Seq<char>> {
    match (k, os) {
        (RuntimeKind::Ollama, Os::Linux) => Some("curl -fsSL https://ollama.com/install.sh | sh"@),
        (RuntimeKind::Ollama, Os::MacOs) => Some("brew install ollama"@),
        (RuntimeKind::LlamaCpp, Os::MacOs) => Some("brew install llama.cpp"@),
        _ => None,
    }
}

pub open spec fn install_url(k: RuntimeKind) -> Seq<char> {
    match k {
        RuntimeKind::Ollama => "https://ollama.com/download"@,
        RuntimeKind::LlamaCpp => "https://github.com/ggml-org/llama.cpp/releases"@,
        RuntimeKind::LmStudio => "https://lmstudio.ai/download"@,
    }
}

pub open spec fn opt_str_view(o: Option<&'static str>) -> Option<Seq<char>> {
    match o {
        Some(s) => Some(s@),
        None => None,
    }
}

pub open spec fn strs_view(v: Seq<&'static str>) -> Seq<Seq<char>> {
    v.map_values(|s: &'static str| s@)
}

/// Whether `s` is the row the table holds for `k`.
pub open spec fn is_spec_of(s: RuntimeSpec, k: RuntimeKind) -> bool {
    &&& s.kind == k
    &&& s.display@ == display_name(k)
    &&& strs_view(s.binaries@) == binaries_of(k)
    &&& strs_view(s.well_known@) == well_known_of(k)
    &&& s.default_url@ == default_url(k)
    &&& s.health_path@ == health_path(k)
    &&& s.models_path@ == models_path(k)
    &&& s.needs_model_to_start == (k == RuntimeKind::LlamaCpp)
    &&& opt_str_view(s.install.linux) == install_command_of(k, Os::Linux)
    &&& opt_str_view(s.install.macos) == install_command_of(k, Os::MacOs)
    &&& opt_str_view(s.install.windows) == install_command_of(k, Os::Windows)
    &&& s.install.url@ == install_url(k)
}

/// The table row for a runtime.
pub fn spec(kind: RuntimeKind) -> (s: RuntimeSpec)
    ensures
        is_spec_of(s, kind),
{
    match kind {
        RuntimeKind::Ollama => {
            let s = RuntimeSpec {
                kind,
                display: "ollama",
                binaries: vec!["ollama"],
                well_known: vec![
                    "/usr/local/bin/ollama",
                    "/opt/homebrew/bin/ollama",
                    "/Applications/Ollama.app/Contents/Resources/ollama",
                    "~/.ollama/bin/ollama",
                    "~/AppData/Local/Programs/Ollama/ollama.exe",
                ],
                default_url: "http://127.0.0.1:11434",
                health_path: "/",
                models_path: "/api/tags",
                needs_model_to_start: false,
                install: Install {
                    linux: Some("curl -fsSL https://ollama.com/install.sh | sh"),
                    macos: Some("brew install ollama"),
                    windows: None,
                    url: "https://ollama.com/download",
                },
            };
            assert(strs_view(s.binaries@) =~= binaries_of(kind));
            assert(strs_view(s.well_known@) =~= well_known_of(kind));
            s
        },
        RuntimeKind::LlamaCpp => {
            let s = RuntimeSpec {
                kind,
                display: "llama.cpp",
                binaries: vec!["llama-server"],
                well_known: vec![
                    "/opt/homebrew/bin/llama-server",
                    "/usr/local/bin/llama-server",
                    "~/llama.cpp/build/bin/llama-server",
                    "~/.local/bin/llama-server",
                ],
                default_url: "http://127.0.0.1:8080",
                health_path: "/health",
                models_path: "/v1/models",
                needs_model_to_start: true,
                install: Install {
                    linux: None,
                    macos: Some("brew install llama.cpp"),
                    windows: None,
                    url: "https://github.com/ggml-org/llama.cpp/releases",
                },
            };
            assert(strs_view(s.binaries@) =~= binaries_of(kind));
            assert(strs_view(s.well_known@) =~= well_known_of(kind));
            s
        },
        RuntimeKind::LmStudio => {
            let s = RuntimeSpec {
                kind,
                display: "LM Studio",
                binaries: vec!["lms"],
                well_known: vec![
                    "~/.lmstudio/bin/lms",
                    "~/.cache/lm-studio/bin/lms",
                    "~/.lmstudio/bin/lms.exe",
                ],
                default_url: "http://127.0.0.1:1234",
                health_path: "/v1/models",
                models_path: "/v1/models",
                needs_model_to_start: false,
                install: Install {
                    linux: None,
                    macos: None,
                    windows: None,
                    url: "https://lmstudio.ai/download",
                },
            };
            assert(strs_view(s.binaries@) =~= binaries_of(kind));
            assert(strs_view(s.well_known@) =~= well_known_of(kind));
            s
        },
    }
}

/// What to run to install, if there is a command for this OS.
pub fn install_command(kind: RuntimeKind, os: Os) -> (r: Option<&'static str>)
    ensures
        opt_str_view(r) == install_command_of(kind, os),
{
    let i = spec(kind).install;
    match os {
        Os::Linux => i.linux,
        Os::MacOs => i.macos,
        Os::Windows => i.windows,
    }
}

/// The install instruction for a person: the command where there is one,
/// the download page otherwise.
pub open spec fn install_hint_text(k: RuntimeKind, os: Os) -> Seq<char> {
    match install_command_of(k, os) {
        Some(cmd) => "`"@ + cmd + "` (or download from "@ + install_url(k) + ")"@,
        None => "download from "@ + install_url(k),
    }
}

/// The install instruction for a person: the command where there is one,
/// the download page otherwise.
pub fn install_hint(kind: RuntimeKind, os: Os) -> (r: String)
    ensures
        r@ == install_hint_text(kind, os),
{
    let url = spec(kind).install.url;
    match install_command(kind, os) {
        Some(cmd) => {
            let mut m = "`".to_owned();
            m.append(cmd);
            m.append("` (or download from ");
            m.append(url);
            m.append(")");
            m
        },
        None => {
            let mut m = "download from ".to_owned();
            m.append(url);
            m
        },
    }
}

/// What was found, summarised.
#[derive(Debug, Clone, Copy, PartialEq, Eq, Structural)]
pub enum State {
    /// No binary and no server answering.
    NotInstalled,
    /// A binary exists; nothing is listening.
    Installed,
    /// The server answers.
    Running,
}

pub open spec fn next_step_text(k: RuntimeKind, state: State, os: Os, hint: Option<Seq<char>>) -> Seq<char> {
    match state {
        State::NotInstalled => "install it: "@ + install_hint_text(k, os),
        State::Installed => match k {
            RuntimeKind::LlamaCpp => "start it with a model: infy runtime start llamacpp --model "@
                + match hint {
                Some(h) => h,
                None => "<file.gguf>"@,
            },
            _ => "start it: infy runtime start "@ + kind_name(k),
        },
        State::Running => "use a model: infy chat --model "@ + kind_name(k) + ":<name>"@,
    }
}

/// The one-line next step for a state, always concrete.
pub fn next_step(kind: RuntimeKind, state: State, os: Os, model_hint: Option<&str>) -> (r: String)
    ensures
        r@ == next_step_text(
            kind,
            state,
            os,
            match model_hint {
                Some(h) => Some(h@),
                None => None,
            },
        ),
{
    match state {
        State::NotInstalled => {
            let mut m = "install it: ".to_owned();
            let h = install_hint(kind, os);
            m.append(h.as_str());
            m
        },
        State::Installed => match kind {
            RuntimeKind::LlamaCpp => {
                let mut m = "start it with a model: infy runtime start llamacpp --model ".to_owned();
                match model_hint {
                    Some(h) => m.append(h),
                    None => m.append("<file.gguf>"),
                }
                m
            },
            _ => {
                let mut m = "start it: infy runtime start ".to_owned();
                m.append(kind.name());
                m
            },
        },
        State::Running => {
            let mut m = "use a model: infy chat --model ".to_owned();
            m.append(kind.name());
            m.append(":<name>");
            m
        },
    }
}


/// `~/x` with the home directory filled in; `None` when it cannot be.
pub open spec fn expanded(path: Seq<char>, home: Option<Seq<char>>) -> Option<Seq<char>> {
    if starts_with(path, "~/"@) {
        match home {
            Some(h) => Some(joined_path(h, path.skip(2))),
            None => None,
        }
    } else {
        Some(path)
    }
}

/// `~/x` with the home directory filled in.
pub fn expand_well_known(path: &str, home: Option<&str>) -> (r: Option<String>)
    ensures
        match expanded(
            path@,
            match home {
                Some(h) => Some(h@),
                None => None,
            },
        ) {
            Some(p) => r matches Some(x) && x@ == p,
            None => r is None,
        },
{
    proof {
        reveal_strlit("~/");
    }
    if str_starts_with(path, "~/") {
        match home {
            Some(h) => {
                let cs = chars_of(path);
                let rest = string_from_chars(&cs, 2, cs.len());
                assert(rest@ =~= path@.skip(2));
                Some(join_path(h, rest.as_str()))
            },
            None => None,
        }
    } else {
        Some(path.to_owned())
    }
}

/// What a start needs beyond the binary.
#[derive(Debug, Clone, Default, PartialEq, Eq)]
pub struct StartOptions {
    /// A GGUF to serve. Required by llama.cpp, ignored by the others.
    pub model: Option<String>,
    pub context_length: Option<usize>,
    /// Layers to offload to the GPU (llama.cpp's `-ngl`).
    pub gpu_layers: Option<usize>,
}

pub open spec fn is_digit(c: char) -> bool {
    '0' <= c && c <= '9'
}

/// The number a run of decimal digits spells.
pub open spec fn digits_value(s: Seq<char>) -> nat
    decreases s.len(),
{
    if s.len() == 0 {
        0
    } else {
        digits_value(s.drop_last()) * 10 + ((s.last() as u32 - '0' as u32) as nat)
    }
}

/// Whether every character of `d` is a decimal digit.
pub open spec fn all_digits(d: Seq<char>) -> bool {
    forall|i: int| 0 <= i < d.len() ==> is_digit(#[trigger] d[i])
}

/// The `u16` a non-empty run of digits spells, if it fits.
pub open spec fn u16_digits(d: Seq<char>) -> Option<u16> {
    if d.len() > 0 && all_digits(d) && digits_value(d) <= 65535 {
        Some(digits_value(d) as u16)
    } else {
        None
    }
}

/// `s.parse::<u16>()`: an optional `+`, then one or more decimal digits
/// whose value fits.
pub open spec fn parse_u16(s: Seq<char>) -> Option<u16> {
    if starts_with(s, "+"@) {
        u16_digits(s.drop_first())
    } else {
        u16_digits(s)
    }
}

/// A server URL split into host and port, or the message saying why it
/// cannot be.
pub open spec fn host_port_of(url: Seq<char>) -> core::result::Result<(Seq<char>, u16), Seq<char>> {
    let rest0 = if starts_with(url, "http://"@) {
        Some(url.skip(7))
    } else if starts_with(url, "https://"@) {
        Some(url.skip(8))
    } else {
        None
    };
    match rest0 {
        None => Err("runtime url "@ + debug_quoted(url) + " must start with http:// or https://"@),
        Some(r) => match rsplit_once(trim_end(r, '/'), ':') {
            None => Err(
                "runtime url "@ + debug_quoted(url) + " needs a port, e.g. http://127.0.0.1:11434"@,
            ),
            Some((host, port)) => match parse_u16(port) {
                None => Err(
                    "runtime url "@ + debug_quoted(url) + ": "@ + debug_quoted(port)
                        + " is not a port"@,
                ),
                Some(p) => Ok((host, p)),
            },
        },
    }
}

/// The value of `v[from..to]` as decimal digits, or `None` when it is not
/// all digits or exceeds `u16`.
fn digits_u16(v: &Vec<char>, from: usize, to: usize) -> (r: Option<u16>)
    requires
        from <= to <= v@.len(),
    ensures
        ({
            let d = v@.subrange(from as int, to as int);
            match r {
                Some(n) => (forall|i: int| 0 <= i < d.len() ==> is_digit(#[trigger] d[i]))
                    && digits_value(d) == n,
                None => !(forall|i: int| 0 <= i < d.len() ==> is_digit(#[trigger] d[i]))
                    || digits_value(d) > 65535,
            }
        }),
{
    let mut acc: u32 = 0;
    let mut i = from;
    while i < to
        invariant
            from <= i <= to <= v@.len(),
            forall|j: int| from <= j < i ==> is_digit(#[trigger] v@[j]),
            acc == digits_value(v@.subrange(from as int, i as int)),
            acc <= 65535,
        decreases to - i,
    {
        let c = v[i];
        assert(v@.subrange(from as int, i + 1).drop_last() =~= v@.subrange(from as int, i as int));
        if !('0' <= c && c <= '9') {
            assert(v@.subrange(from as int, to as int)[i - from] == c);
            return None;
        }
        let d = (c as u32) - ('0' as u32);
        let next = acc * 10 + d;
        if next > 65535 {
            proof {
                let d = v@.subrange(from as int, to as int);
                assert(d.take((i + 1 - from) as int) =~= v@.subrange(from as int, i + 1));
                if forall|j: int| 0 <= j < d.len() ==> is_digit(#[trigger] d[j]) {
                    lemma_digits_grow(d, (i + 1 - from) as int);
                }
            }
            return None;
        }
        acc = next;
        i += 1;
    }
    Some(acc as u16)
}

/// A longer run of digits is worth at least as much as its prefix.
pub(crate) proof fn lemma_digits_grow(d: Seq<char>, k: int)
    requires
        0 <= k <= d.len(),
        forall|i: int| 0 <= i < d.len() ==> is_digit(#[trigger] d[i]),
    ensures
        digits_value(d.take(k)) <= digits_value(d),
    decreases d.len(),
{
    if k < d.len() {
        assert(d.drop_last().take(k) =~= d.take(k));
        assert forall|i: int| 0 <= i < d.drop_last().len() implies is_digit(#[trigger] d.drop_last()[i]) by {
            assert(d.drop_last()[i] == d[i]);
        }
        lemma_digits_grow(d.drop_last(), k);
    } else {
        assert(d.take(k) =~= d);
    }
}

/// `s.parse()` for an unsigned type whose largest value is `limit`: an
/// optional `+`, then one or more decimal digits whose value is at most
/// `limit`.
pub open spec fn parse_bounded(s: Seq<char>, limit: nat) -> Option<nat> {
    let d = if starts_with(s, "+"@) {
        s.drop_first()
    } else {
        s
    };
    if d.len() > 0 && all_digits(d) && digits_value(d) <= limit {
        Some(digits_value(d))
    } else {
        None
    }
}

/// The number `v[from..]` spells, as `parse_bounded` reads it.
pub(crate) fn digits_at_most(v: &Vec<char>, from: usize, limit: u64) -> (r: Option<u64>)
    requires
        from <= v@.len(),
    ensures
        match parse_bounded(v@.skip(from as int), limit as nat) {
            Some(n) => r == Some(n as u64),
            None => r is None,
        },
{
    proof {
        reveal_strlit("+");
    }
    let ghost s = v@.skip(from as int);
    let mut start = from;
    if from < v.len() && v[from] == '+' {
        start = from + 1;
    }
    assert(s.len() > 0 && s[0] == '+' ==> starts_with(s, "+"@)) by {
        if s.len() > 0 && s[0] == '+' {
            assert(s.subrange(0, 1) =~= "+"@);
        }
    }
    assert(starts_with(s, "+"@) ==> s[0] == '+') by {
        if starts_with(s, "+"@) {
            assert(s.subrange(0, 1)[0] == s[0]);
        }
    }
    let ghost d = v@.skip(start as int);
    assert(d =~= (if starts_with(s, "+"@) {
        s.drop_first()
    } else {
        s
    }));
    if start == v.len() {
        return None;
    }
    let mut acc: u64 = 0;
    let mut i = start;
    while i < v.len()
        invariant
            parse_bounded(v@.skip(from as int), limit as nat) == (if d.len() > 0 && all_digits(d)
                && digits_value(d) <= limit {
                Some(digits_value(d))
            } else {
                None
            }),
            start <= i <= v@.len(),
            start < v@.len(),
            d == v@.skip(start as int),
            forall|j: int| start <= j < i ==> is_digit(#[trigger] v@[j]),
            acc == digits_value(v@.subrange(start as int, i as int)),
            acc <= limit,
        decreases v@.len() - i,
    {
        let c = v[i];
        assert(v@.subrange(start as int, i + 1).drop_last() =~= v@.subrange(start as int, i as int));
        if !('0' <= c && c <= '9') {
            assert(d[i - start] == c);
            assert(!is_digit(d[i - start]));
            return None;
        }
        let dg = (c as u32 - '0' as u32) as u64;
        let next = match acc.checked_mul(10) {
            Some(x) => x.checked_add(dg),
            None => None,
        };
        let fits = match next {
            Some(n) => n <= limit,
            None => false,
        };
        if !fits {
            proof {
                let x = v@.subrange(start as int, i + 1);
                assert(x.last() == c);
                assert(digits_value(x) == acc * 10 + dg);
                assert(digits_value(x) > limit);
                assert(d.take((i + 1 - start) as int) =~= x);
                if all_digits(d) {
                    lemma_digits_grow(d, (i + 1 - start) as int);
                }
            }
            return None;
        }
        acc = match next {
            Some(n) => n,
            None => acc,
        };
        i += 1;
    }
    assert(v@.subrange(start as int, v@.len() as int) =~= d);
    Some(acc)
}

/// The pid a pid file holds: its text, trimmed, as a `u32`; `None` when it
/// is not one.
pub fn pid_from_text(text: &str) -> (r: Option<u32>)
    ensures
        match parse_bounded(trimmed(text@), u32::MAX as nat) {
            Some(n) => r == Some(n as u32),
            None => r is None,
        },
{
    let t = trim_text(text);
    let cs = chars_of(t.as_str());
    assert(cs@.skip(0) =~= cs@);
    match digits_at_most(&cs, 0, u32::MAX as u64) {
        Some(n) => Some(n as u32),
        None => None,
    }
}

/// Split `http://host:port` into its host and port.
pub fn host_port(url: &str) -> (r: Result<(String, u16)>)
    ensures
        match host_port_of(url@) {
            Ok((h, p)) => r matches Ok((x, q)) && x@ == h && q == p,
            Err(m) => r matches Err(Error::Invalid(x)) && x@ == m,
        },
{
    proof {
        reveal_strlit("http://");
        reveal_strlit("https://");
        reveal_strlit("+");
    }
    let v = chars_of(url);
    let start: usize = if str_starts_with(url, "http://") {
        7
    } else if str_starts_with(url, "https://") {
        8
    } else {
        let mut m = "runtime url ".to_owned();
        let q = debug_str(url);
        m.append(q.as_str());
        m.append(" must start with http:// or https://");
        return Err(Error::Invalid(m));
    };
    let ghost rest0 = url@.skip(start as int);
    // Trailing slashes.
    let mut end = v.len();
    while end > start && v[end - 1] == '/'
        invariant
            v@ == url@,
            start <= end <= v@.len(),
            trim_end(rest0, '/') == trim_end(v@.subrange(start as int, end as int), '/'),
        decreases end,
    {
        assert(v@.subrange(start as int, end as int).drop_last() =~= v@.subrange(start as int, end - 1));
        end -= 1;
    }
    assert(trim_end(v@.subrange(start as int, end as int), '/') == v@.subrange(start as int, end as int));
    let ghost rest = v@.subrange(start as int, end as int);
    assert(rest0 =~= v@.subrange(start as int, v@.len() as int));
    // The last ':'.
    let mut k = end;
    while k > start && v[k - 1] != ':'
        invariant
            v@ == url@,
            start <= k <= end <= v@.len(),
            rest == v@.subrange(start as int, end as int),
            rfind_char(rest, ':') == rfind_char(v@.subrange(start as int, k as int), ':'),
        decreases k,
    {
        assert(v@.subrange(start as int, k as int).drop_last() =~= v@.subrange(start as int, k - 1));
        k -= 1;
    }
    if k == start {
        assert(rfind_char(v@.subrange(start as int, k as int), ':') is None);
        let mut m = "runtime url ".to_owned();
        let q = debug_str(url);
        m.append(q.as_str());
        m.append(" needs a port, e.g. http://127.0.0.1:11434");
        return Err(Error::Invalid(m));
    }
    assert(rfind_char(v@.subrange(start as int, k as int), ':') == Some((k - 1 - start) as nat));
    let host = string_from_chars(&v, start, k - 1);
    let port = string_from_chars(&v, k, end);
    assert(host@ =~= rest.take(k - 1 - start));
    assert(port@ =~= rest.skip(k - start));
    let signed = k < end && v[k] == '+';
    let from = if signed { k + 1 } else { k };
    proof {
        if signed {
            assert(port@.subrange(0, 1) =~= "+"@);
        } else if port@.len() > 0 {
            assert(port@.subrange(0, 1)[0] != "+"@[0]);
        }
    }
    assert(starts_with(port@, "+"@) == signed);
    assert(signed ==> port@.drop_first() =~= v@.subrange(from as int, end as int));
    assert(!signed ==> port@ =~= v@.subrange(from as int, end as int));
    let parsed = if from < end { digits_u16(&v, from, end) } else { None };
    match parsed {
        Some(p) => {
            let ghost d = v@.subrange(from as int, end as int);
            assert(d.len() > 0);
            assert(digits_value(d) == p);
            assert(rsplit_once(trim_end(rest0, '/'), ':') == Some((host@, port@)));
            assert(parse_u16(port@) == Some(p));
            Ok((host, p))
        },
        None => {
            let mut m = "runtime url ".to_owned();
            let q = debug_str(url);
            m.append(q.as_str());
            m.append(": ");
            let pq = debug_str(port.as_str());
            m.append(pq.as_str());
            m.append(" is not a port");
            Err(Error::Invalid(m))
        },
    }
}


/// The texts of a list of string pairs.
pub open spec fn pair_views(v: Seq<(String, String)>) -> Seq<(Seq<char>, Seq<char>)> {
    v.map_values(|p: (String, String)| (p.0@, p.1@))
}

/// The arguments that start `k`'s server on `host:port`, as the runtime's
/// own documentation describes them.
pub open spec fn start_args(
    k: RuntimeKind,
    host: Seq<char>,
    port: u16,
    model: Seq<char>,
    context_length: Option<usize>,
    gpu_layers: Option<usize>,
) -> Seq<Seq<char>> {
    match k {
        RuntimeKind::Ollama => seq!["serve"@],
        RuntimeKind::LlamaCpp => seq!["-m"@, model, "--host"@, host, "--port"@, decimal(port as nat)]
            + match context_length {
            Some(c) => seq!["-c"@, decimal(c as nat)],
            None => Seq::empty(),
        } + match gpu_layers {
            Some(n) => seq!["-ngl"@, decimal(n as nat)],
            None => Seq::empty(),
        },
        RuntimeKind::LmStudio => seq!["server"@, "start"@, "--port"@, decimal(port as nat)],
    }
}

/// The environment the start needs: ollama is told its address only when it
/// is not the default one.
pub open spec fn start_env(k: RuntimeKind, url: Seq<char>, host: Seq<char>, port: u16) -> Seq<
    (Seq<char>, Seq<char>),
> {
    if k == RuntimeKind::Ollama && trim_end(url, '/') != default_url(k) {
        seq![("OLLAMA_HOST"@, host + ":"@ + decimal(port as nat))]
    } else {
        Seq::empty()
    }
}

pub open spec fn needs_model_message() -> Seq<char> {
    "llama.cpp needs a model to serve: infy runtime start llamacpp --model <file.gguf>"@
}

fn usize_text(n: usize) -> (r: String)
    ensures
        r@ == decimal(n as nat),
{
    decimal_string(n as u64)
}

/// The command that starts a runtime's server at `url`: program arguments
/// and environment, both as the runtime's own documentation describes.
pub fn start_command(kind: RuntimeKind, url: &str, opts: &StartOptions) -> (r: Result<
    (Vec<String>, Vec<(String, String)>),
>)
    ensures
        match host_port_of(url@) {
            Err(m) => r matches Err(Error::Invalid(x)) && x@ == m,
            Ok((host, port)) => if kind == RuntimeKind::LlamaCpp && opts.model is None {
                r matches Err(Error::Invalid(x)) && x@ == needs_model_message()
            } else {
                r matches Ok((args, env)) && string_views(args@) == start_args(
                    kind,
                    host,
                    port,
                    match opts.model {
                        Some(m) => m@,
                        None => Seq::empty(),
                    },
                    opts.context_length,
                    opts.gpu_layers,
                ) && pair_views(env@) == start_env(kind, url@, host, port)
            },
        },
{
    let (host, port) = match host_port(url) {
        Ok(hp) => hp,
        Err(e) => return Err(e),
    };
    match kind {
        RuntimeKind::Ollama => {
            let mut env: Vec<(String, String)> = Vec::new();
            let t = trim_end_text(url, '/');
            if !str_eq(t.as_str(), spec(kind).default_url) {
                let mut v = host.clone();
                v.append(":");
                let p = decimal_string(port as u64);
                v.append(p.as_str());
                env.push(("OLLAMA_HOST".to_owned(), v));
            }
            let mut args: Vec<String> = Vec::new();
            args.push("serve".to_owned());
            assert(string_views(args@) =~= start_args(kind, host@, port, Seq::empty(), opts.context_length, opts.gpu_layers));
            assert(pair_views(env@) =~= start_env(kind, url@, host@, port));
            Ok((args, env))
        },
        RuntimeKind::LlamaCpp => {
            let model = match &opts.model {
                Some(m) => m.clone(),
                None => {
                    return Err(
                        Error::Invalid(
                            "llama.cpp needs a model to serve: infy runtime start llamacpp --model <file.gguf>".to_owned(),
                        ),
                    );
                },
            };
            let mut args: Vec<String> = Vec::new();
            args.push("-m".to_owned());
            args.push(model);
            args.push("--host".to_owned());
            args.push(host);
            args.push("--port".to_owned());
            args.push(decimal_string(port as u64));
            let ghost base = string_views(args@);
            if let Some(c) = opts.context_length {
                args.push("-c".to_owned());
                args.push(usize_text(c));
            }
            let ghost with_c = string_views(args@);
            if let Some(n) = opts.gpu_layers {
                args.push("-ngl".to_owned());
                args.push(usize_text(n));
            }
            let env: Vec<(String, String)> = Vec::new();
            assert(string_views(args@) =~= start_args(
                kind,
                args@[3]@,
                port,
                args@[1]@,
                opts.context_length,
                opts.gpu_layers,
            ));
            assert(pair_views(env@) =~= start_env(kind, url@, args@[3]@, port));
            Ok((args, env))
        },
        RuntimeKind::LmStudio => {
            let mut args: Vec<String> = Vec::new();
            args.push("server".to_owned());
            args.push("start".to_owned());
            args.push("--port".to_owned());
            args.push(decimal_string(port as u64));
            let env: Vec<(String, String)> = Vec::new();
            assert(string_views(args@) =~= start_args(kind, host@, port, Seq::empty(), opts.context_length, opts.gpu_layers));
            assert(pair_views(env@) =~= start_env(kind, url@, host@, port));
            Ok((args, env))
        },
    }
}

pub open spec fn pull_args(k: RuntimeKind, model: Seq<char>) -> core::result::Result<Seq<Seq<char>>, Seq<char>> {
    match k {
        RuntimeKind::Ollama => Ok(seq!["pull"@, model]),
        RuntimeKind::LmStudio => Ok(seq!["get"@, model, "--yes"@]),
        RuntimeKind::LlamaCpp => Err(
            "llama.cpp has no model registry; download "@ + debug_quoted(model)
                + " with `infy pull hf:owner/repo` and start with --model"@,
        ),
    }
}

/// The command a runtime uses to fetch a model into its own store, if it
/// has one. llama.cpp has no registry: its models come from infy's hub.
pub fn pull_command(kind: RuntimeKind, model: &str) -> (r: Result<Vec<String>>)
    ensures
        match pull_args(kind, model@) {
            Ok(a) => r matches Ok(v) && string_views(v@) == a,
            Err(m) => r matches Err(Error::Invalid(x)) && x@ == m,
        },
{
    match kind {
        RuntimeKind::Ollama => {
            let v = vec!["pull".to_owned(), model.to_owned()];
            assert(string_views(v@) =~= seq!["pull"@, model@]);
            Ok(v)
        },
        RuntimeKind::LmStudio => {
            let v = vec!["get".to_owned(), model.to_owned(), "--yes".to_owned()];
            assert(string_views(v@) =~= seq!["get"@, model@, "--yes"@]);
            Ok(v)
        },
        RuntimeKind::LlamaCpp => {
            let mut m = "llama.cpp has no model registry; download ".to_owned();
            let q = debug_str(model);
            m.append(q.as_str());
            m.append(" with `infy pull hf:owner/repo` and start with --model");
            Err(Error::Invalid(m))
        },
    }
}

pub open spec fn foreign_stop_text(k: RuntimeKind, os: Os) -> Seq<char> {
    match (k, os) {
        (RuntimeKind::Ollama, Os::Linux) => "stop it with `systemctl stop ollama`, or `pkill ollama` if it was started by hand"@,
        (RuntimeKind::Ollama, _) => "quit the Ollama app from the menu bar, or `pkill ollama`"@,
        (RuntimeKind::LlamaCpp, _) => "find it with `pgrep -a llama-server` and stop that process"@,
        (RuntimeKind::LmStudio, _) => "run `lms server stop`, or stop it from the LM Studio app"@,
    }
}

/// How a runtime not started by infy can be stopped, for the refusal
/// message. Killing the user's own service would be worse than refusing.
pub fn foreign_stop_hint(kind: RuntimeKind, os: Os) -> (r: String)
    ensures
        r@ == foreign_stop_text(kind, os),
{
    match (kind, os) {
        (RuntimeKind::Ollama, Os::Linux) => "stop it with `systemctl stop ollama`, or `pkill ollama` if it was started by hand".to_owned(),
        (RuntimeKind::Ollama, _) => "quit the Ollama app from the menu bar, or `pkill ollama`".to_owned(),
        (RuntimeKind::LlamaCpp, _) => "find it with `pgrep -a llama-server` and stop that process".to_owned(),
        (RuntimeKind::LmStudio, _) => "run `lms server stop`, or stop it from the LM Studio app".to_owned(),
    }
}

/// A model a running runtime serves.
#[derive(Debug, Clone, PartialEq, Eq)]
pub struct ServedModel {
    pub name: String,
    pub size_bytes: Option<u64>,
    pub detail: Option<String>,
}

/// The parts that are present, in order.
pub open spec fn present(parts: Seq<Option<Seq<char>>>) -> Seq<Seq<char>>
    decreases parts.len(),
{
    if parts.len() == 0 {
        Seq::empty()
    } else {
        match parts.last() {
            Some(p) => present(parts.drop_last()).push(p),
            None => present(parts.drop_last()),
        }
    }
}

pub open spec fn opt_string_view(o: Option<String>) -> Option<Seq<char>> {
    match o {
        Some(s) => Some(s@),
        None => None,
    }
}

/// What an ollama model's details say of it: family, parameter size and
/// quantisation, those that are given, separated by spaces.
pub open spec fn ollama_detail(
    details: Option<(Option<Seq<char>>, Option<Seq<char>>, Option<Seq<char>>)>,
) -> Option<Seq<char>> {
    match details {
        None => None,
        Some((family, params, quant)) => {
            let d = join(present(seq![family, params, quant]), " "@);
            if d.len() == 0 {
                None
            } else {
                Some(d)
            }
        },
    }
}

impl ServedModel {
    /// A model from ollama's `/api/tags`, given the fields of its entry.
    pub fn from_ollama(
        name: String,
        size: Option<u64>,
        details: Option<(Option<String>, Option<String>, Option<String>)>,
    ) -> (m: ServedModel)
        ensures
            m.name@ == name@,
            m.size_bytes == size,
            opt_string_view(m.detail) == ollama_detail(
                match details {
                    Some((f, p, q)) => Some((opt_string_view(f), opt_string_view(p), opt_string_view(q))),
                    None => None,
                },
            ),
    {
        let detail = match details {
            None => None,
            Some((family, params, quant)) => {
                let ghost parts = seq![opt_string_view(family), opt_string_view(params), opt_string_view(quant)];
                let mut v: Vec<String> = Vec::new();
                assert(parts.take(1).drop_last() =~= Seq::<Option<Seq<char>>>::empty());
                assert(present(parts.take(1).drop_last()) == Seq::<Seq<char>>::empty());
                assert(parts.take(1).last() == parts[0]);
                if let Some(f) = family {
                    v.push(f);
                }
                assert(string_views(v@) =~= present(parts.take(1)));
                if let Some(p) = params {
                    v.push(p);
                }
                assert(parts.take(2).drop_last() =~= parts.take(1));
                assert(string_views(v@) =~= present(parts.take(2)));
                if let Some(q) = quant {
                    v.push(q);
                }
                assert(parts.take(3).drop_last() =~= parts.take(2));
                assert(parts.take(3) =~= parts);
                assert(string_views(v@) =~= present(parts));
                let d = join_strings(&v, " ");
                if d.as_str().is_empty() {
                    None
                } else {
                    Some(d)
                }
            },
        };
        ServedModel { name, size_bytes: size, detail }
    }

    /// A model from an OpenAI-style `/v1/models` listing: its id, and its
    /// owner as the detail when there is one.
    pub fn from_openai(id: String, owned_by: String) -> (m: ServedModel)
        ensures
            m.name@ == id@,
            m.size_bytes is None,
            opt_string_view(m.detail) == (if owned_by@.len() == 0 {
                None
            } else {
                Some(owned_by@)
            }),
    {
        let detail = if owned_by.as_str().is_empty() {
            None
        } else {
            Some(owned_by)
        };
        ServedModel { name: id, size_bytes: None, detail }
    }
}


/// The first member of an object called `key`.
pub open spec fn member(obj: Seq<(String, Json)>, key: Seq<char>) -> Option<Json>
    decreases obj.len(),
{
    if obj.len() == 0 {
        None
    } else if obj[0].0@ == key {
        Some(obj[0].1)
    } else {
        member(obj.drop_first(), key)
    }
}

/// An optional text member: absent or null is none; `None` when it is
/// something else.
pub open spec fn text_member(m: Option<Json>) -> Option<Option<Seq<char>>> {
    match m {
        None => Some(None),
        Some(Json::Null) => Some(None),
        Some(Json::Text(s)) => Some(Some(s@)),
        _ => None,
    }
}

/// An optional unsigned member: absent or null is none; `None` when it is
/// something else.
pub open spec fn count_member(m: Option<Json>) -> Option<Option<u64>> {
    match m {
        None => Some(None),
        Some(Json::Null) => Some(None),
        Some(Json::Number(Some(n))) => Some(Some(n)),
        _ => None,
    }
}

/// A served model's fields as text.
pub open spec fn served_view(m: ServedModel) -> (Seq<char>, Option<u64>, Option<Seq<char>>) {
    (m.name@, m.size_bytes, opt_string_view(m.detail))
}

pub open spec fn served_views(ms: Seq<ServedModel>) -> Seq<(Seq<char>, Option<u64>, Option<Seq<char>>)> {
    ms.map_values(|m: ServedModel| served_view(m))
}

/// One entry of a listing: an object with a text `name` (ollama) or `id`
/// (the others); ollama's may carry a `size` and `details`, the others' an
/// `owned_by`. `None` when the entry is not of that shape.
pub open spec fn listing_entry(k: RuntimeKind, j: Json) -> Option<(Seq<char>, Option<u64>, Option<Seq<char>>)> {
    match j {
        Json::Object(o) => match k {
            RuntimeKind::Ollama => match member(o@, "name"@) {
                Some(Json::Text(name)) => match count_member(member(o@, "size"@)) {
                    Some(size) => match member(o@, "details"@) {
                        None => Some((name@, size, None)),
                        Some(Json::Null) => Some((name@, size, None)),
                        Some(Json::Object(d)) => match (
                            text_member(member(d@, "family"@)),
                            text_member(member(d@, "parameter_size"@)),
                            text_member(member(d@, "quantization_level"@)),
                        ) {
                            (Some(f), Some(p), Some(q)) => Some((name@, size, ollama_detail(Some((f, p, q))))),
                            _ => None,
                        },
                        _ => None,
                    },
                    None => None,
                },
                _ => None,
            },
            _ => match member(o@, "id"@) {
                Some(Json::Text(id)) => match member(o@, "owned_by"@) {
                    None => Some((id@, None, None)),
                    Some(Json::Text(owner)) => Some(
                        (id@, None, if owner@.len() == 0 { None } else { Some(owner@) }),
                    ),
                    _ => None,
                },
                _ => None,
            },
        },
        _ => None,
    }
}

/// Every entry of a listing, or `None` when one is not of the shape.
pub open spec fn listing_entries(k: RuntimeKind, items: Seq<Json>) -> Option<Seq<(Seq<char>, Option<u64>, Option<Seq<char>>)>>
    decreases items.len(),
{
    if items.len() == 0 {
        Some(Seq::empty())
    } else {
        match listing_entries(k, items.drop_last()) {
            Some(v) => match listing_entry(k, items.last()) {
                Some(e) => Some(v.push(e)),
                None => None,
            },
            None => None,
        }
    }
}

/// What a runtime's model listing says it serves: ollama answers an object
/// whose optional `models` array lists them; the others answer an object
/// whose `data` array does. `None` when the answer is not of that shape.
pub open spec fn served_listing(k: RuntimeKind, j: Json) -> Option<Seq<(Seq<char>, Option<u64>, Option<Seq<char>>)>> {
    match j {
        Json::Object(o) => match k {
            RuntimeKind::Ollama => match member(o@, "models"@) {
                None => Some(Seq::empty()),
                Some(Json::Array(items)) => listing_entries(k, items@),
                _ => None,
            },
            _ => match member(o@, "data"@) {
                Some(Json::Array(items)) => listing_entries(k, items@),
                _ => None,
            },
        },
        _ => None,
    }
}

/// The context of the error a listing that does not parse gives.
pub open spec fn listing_context(k: RuntimeKind) -> Seq<char> {
    match k {
        RuntimeKind::Ollama => "ollama's /api/tags answer did not parse"@,
        _ => display_name(k) + "'s /v1/models answer did not parse"@,
    }
}

/// Why a listing that is JSON but not of the expected shape is refused.
pub open spec fn shape_message() -> Seq<char> {
    "the answer is not a model listing of the expected shape"@
}

pub(crate) fn member_of<'a>(obj: &'a Vec<(String, Json)>, key: &str) -> (r: Option<&'a Json>)
    ensures
        match member(obj@, key@) {
            Some(j) => r matches Some(x) && *x == j,
            None => r is None,
        },
{
    let mut i: usize = 0;
    assert(obj@.skip(0) =~= obj@);
    while i < obj.len()
        invariant
            i <= obj@.len(),
            member(obj@, key@) == member(obj@.skip(i as int), key@),
        decreases obj@.len() - i,
    {
        assert(obj@.skip(i as int)[0] == obj@[i as int]);
        if str_eq(obj[i].0.as_str(), key) {
            return Some(&obj[i].1);
        }
        assert(obj@.skip(i as int).drop_first() =~= obj@.skip(i + 1));
        i += 1;
    }
    None
}

pub(crate) fn text_member_of(m: Option<&Json>) -> (r: Option<Option<String>>)
    ensures
        match text_member(match m {
            Some(j) => Some(*j),
            None => None,
        }) {
            Some(Some(t)) => r matches Some(Some(x)) && x@ == t,
            Some(None) => r matches Some(None),
            None => r is None,
        },
{
    match m {
        None => Some(None),
        Some(Json::Null) => Some(None),
        Some(Json::Text(s)) => Some(Some(s.clone())),
        _ => None,
    }
}

fn listing_entry_of(kind: RuntimeKind, j: &Json) -> (r: Option<ServedModel>)
    ensures
        match listing_entry(kind, *j) {
            Some(e) => r matches Some(m) && served_view(m) == e,
            None => r is None,
        },
{
    let o = match j {
        Json::Object(o) => o,
        _ => return None,
    };
    match kind {
        RuntimeKind::Ollama => {
            let name = match member_of(o, "name") {
                Some(Json::Text(n)) => n.clone(),
                _ => return None,
            };
            let size = match member_of(o, "size") {
                None => None,
                Some(Json::Null) => None,
                Some(Json::Number(Some(n))) => Some(*n),
                _ => return None,
            };
            match member_of(o, "details") {
                None => Some(ServedModel::from_ollama(name, size, None)),
                Some(Json::Null) => Some(ServedModel::from_ollama(name, size, None)),
                Some(Json::Object(d)) => {
                    let f = match text_member_of(member_of(d, "family")) {
                        Some(x) => x,
                        None => return None,
                    };
                    let p = match text_member_of(member_of(d, "parameter_size")) {
                        Some(x) => x,
                        None => return None,
                    };
                    let q = match text_member_of(member_of(d, "quantization_level")) {
                        Some(x) => x,
                        None => return None,
                    };
                    Some(ServedModel::from_ollama(name, size, Some((f, p, q))))
                },
                _ => None,
            }
        },
        _ => {
            let id = match member_of(o, "id") {
                Some(Json::Text(n)) => n.clone(),
                _ => return None,
            };
            match member_of(o, "owned_by") {
                None => Some(ServedModel::from_openai(id, String::new())),
                Some(Json::Text(owner)) => Some(ServedModel::from_openai(id, owner.clone())),
                _ => None,
            }
        },
    }
}

fn listing_entries_of(kind: RuntimeKind, items: &Vec<Json>) -> (r: Option<Vec<ServedModel>>)
    ensures
        match listing_entries(kind, items@) {
            Some(v) => r matches Some(ms) && served_views(ms@) == v,
            None => r is None,
        },
{
    let mut out: Vec<ServedModel> = Vec::new();
    let mut i: usize = 0;
    while i < items.len()
        invariant
            i <= items@.len(),
            listing_entries(kind, items@.take(i as int)) == Some(served_views(out@)),
        decreases items@.len() - i,
    {
        assert(items@.take(i + 1).drop_last() =~= items@.take(i as int));
        assert(items@.take(i + 1).last() == items@[i as int]);
        match listing_entry_of(kind, &items[i]) {
            Some(m) => {
                let ghost before = out@;
                out.push(m);
                assert(served_views(out@) =~= served_views(before).push(served_view(m)));
            },
            None => {
                proof {
                    lemma_entries_stop(kind, items@, i as int);
                }
                return None;
            },
        }
        i += 1;
    }
    assert(items@.take(i as int) =~= items@);
    Some(out)
}

/// Once an entry is not of the shape, no longer prefix is either.
proof fn lemma_entries_stop(k: RuntimeKind, items: Seq<Json>, i: int)
    requires
        0 <= i < items.len(),
        listing_entry(k, items[i]) is None,
    ensures
        listing_entries(k, items) is None,
    decreases items.len(),
{
    if i < items.len() - 1 {
        lemma_entries_stop(k, items.drop_last(), i);
    }
}

/// Parse a runtime's model listing: ollama's `/api/tags`, or the OpenAI
/// `/v1/models` everyone else serves.
pub fn parse_models(kind: RuntimeKind, body: &str) -> (r: Result<Vec<ServedModel>>)
    ensures
        match json_read(body@) {
            Err(m) => r matches Err(Error::Internal { context, source: Some(s) }) && context@
                == listing_context(kind) && s@ == m,
            Ok(j) => match served_listing(kind, j) {
                Some(v) => r matches Ok(ms) && served_views(ms@) == v,
                None => r matches Err(Error::Internal { context, source: Some(s) }) && context@
                    == listing_context(kind) && s@ == shape_message(),
            },
        },
{
    match read_json(body) {
        Ok(j) => models_from_json(kind, &j),
        Err(m) => Err(Error::wrap(listing_context_text(kind).as_str(), m.as_str())),
    }
}

/// The context of a listing that did not parse.
fn listing_context_text(kind: RuntimeKind) -> (c: String)
    ensures
        c@ == listing_context(kind),
{
    match kind {
        RuntimeKind::Ollama => "ollama's /api/tags answer did not parse".to_owned(),
        _ => {
            let mut c = spec(kind).display.to_owned();
            c.append("'s /v1/models answer did not parse");
            c
        },
    }
}

/// The models a listing document names, or, when it is not a listing of
/// the expected shape, an error that says so.
pub fn models_from_json(kind: RuntimeKind, j: &Json) -> (r: Result<Vec<ServedModel>>)
    ensures
        match served_listing(kind, *j) {
            Some(v) => r matches Ok(ms) && served_views(ms@) == v,
            None => r matches Err(Error::Internal { context, source: Some(s) }) && context@
                == listing_context(kind) && s@ == shape_message(),
        },
{
    let parsed = match j {
        Json::Object(o) => match kind {
            RuntimeKind::Ollama => match member_of(o, "models") {
                None => Some(Vec::new()),
                Some(Json::Array(items)) => listing_entries_of(kind, items),
                _ => None,
            },
            _ => match member_of(o, "data") {
                Some(Json::Array(items)) => listing_entries_of(kind, items),
                _ => None,
            },
        },
        _ => None,
    };
    match parsed {
        Some(ms) => {
            proof {
                if kind == RuntimeKind::Ollama {
                    assert(served_views(Seq::<ServedModel>::empty()) =~= Seq::empty());
                }
            }
            Ok(ms)
        },
        None => {
            let c = listing_context_text(kind);
            Err(Error::wrap(c.as_str(), "the answer is not a model listing of the expected shape"))
        },
    }
}

} // verus!
