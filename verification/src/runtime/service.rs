//! Finding, starting, stopping, installing and querying runtimes: the
//! machine is reached only through the traits of `deps`, and every message
//! the user reads is a verified function of what was found.
use std::time::Duration;
use vstd::prelude::*;

use crate::kernel::error::{Error, Result};
use crate::runtime::deps::{Clock, Http, Os, Output, PidStore, Processes};
use crate::runtime::logic::{
    binaries_of, default_url, display_name, expand_well_known, expanded, strs_view, well_known_of, foreign_stop_hint, foreign_stop_text,
    host_port_of, install_command, install_command_of, install_hint, install_hint_text, install_url, kind_name,
    next_step, next_step_text, pull_command, spec, start_command, RuntimeKind,
    ServedModel, StartOptions, State,
};
use crate::kernel::model_ref::{trim_text, trimmed as trimmed_text};
use crate::runtime::logic::{parse_models, listing_context, models_path, served_listing, served_views, shape_message};
use crate::runtime::json::json_read;
use crate::kernel::generation::FinishReason;
use crate::text::{debug_quoted, debug_str, str_eq, decimal, decimal_string, join, join_strings, rfind_char, string_views, trim_end, trim_end_text};

verus! {

/// What a user may override per runtime: where the binary is, and where the
/// server listens.
#[derive(Debug, Clone, Default, PartialEq, Eq)]
pub struct RuntimeConfig {
    pub binary: Option<String>,
    pub url: Option<String>,
}

impl RuntimeConfig {
    /// No override.
    pub fn none() -> (c: RuntimeConfig)
        ensures
            c.binary is None,
            c.url is None,
    {
        RuntimeConfig { binary: None, url: None }
    }
}

/// The overrides of every runtime, one entry each.
#[derive(Debug, Clone, Default, PartialEq, Eq)]
pub struct Overrides {
    pub ollama: RuntimeConfig,
    pub llamacpp: RuntimeConfig,
    pub lmstudio: RuntimeConfig,
}

impl Overrides {
    pub open spec fn config(self, k: RuntimeKind) -> RuntimeConfig {
        match k {
            RuntimeKind::Ollama => self.ollama,
            RuntimeKind::LlamaCpp => self.llamacpp,
            RuntimeKind::LmStudio => self.lmstudio,
        }
    }

    /// No overrides at all.
    pub fn new() -> (o: Overrides)
        ensures
            forall|k: RuntimeKind| o.config(k).binary is None && o.config(k).url is None,
    {
        Overrides {
            ollama: RuntimeConfig::none(),
            llamacpp: RuntimeConfig::none(),
            lmstudio: RuntimeConfig::none(),
        }
    }

    /// The override of one runtime.
    pub fn get(&self, k: RuntimeKind) -> (c: &RuntimeConfig)
        ensures
            *c == self.config(k),
    {
        match k {
            RuntimeKind::Ollama => &self.ollama,
            RuntimeKind::LlamaCpp => &self.llamacpp,
            RuntimeKind::LmStudio => &self.lmstudio,
        }
    }

    /// Replace the override of one runtime, keeping the others.
    pub fn set(&mut self, k: RuntimeKind, c: RuntimeConfig)
        ensures
            final(self).config(k) == c,
            forall|j: RuntimeKind| j != k ==> final(self).config(j) == old(self).config(j),
    {
        match k {
            RuntimeKind::Ollama => self.ollama = c,
            RuntimeKind::LlamaCpp => self.llamacpp = c,
            RuntimeKind::LmStudio => self.lmstudio = c,
        }
    }
}

/// The URL a runtime is reached at: the override if given, else its default,
/// without trailing slashes.
pub open spec fn runtime_url(c: RuntimeConfig, k: RuntimeKind) -> Seq<char> {
    trim_end(
        match c.url {
            Some(u) => u@,
            None => default_url(k),
        },
        '/',
    )
}

/// An answer as text.
pub open spec fn answer_view(o: Option<String>) -> Option<Seq<char>> {
    match o {
        Some(x) => Some(x@),
        None => None,
    }
}

pub open spec fn answers_view(s: Seq<Option<String>>) -> Seq<Option<Seq<char>>> {
    s.map_values(|o: Option<String>| answer_view(o))
}

/// What was found at the places installers put a runtime's executable:
/// each find is the place, with `~` as `home`.
pub open spec fn found_in_places(k: RuntimeKind, well_known: Seq<Option<String>>, home: Option<Seq<char>>) -> bool {
    &&& well_known.len() <= well_known_of(k).len()
    &&& forall|j: int|
        0 <= j < well_known.len() && #[trigger] well_known[j] is Some ==> answer_view(well_known[j])
            == expanded(well_known_of(k)[j], home)
}

/// The first answer that found something.
pub open spec fn first_found(xs: Seq<Option<Seq<char>>>) -> Option<Seq<char>>
    decreases xs.len(),
{
    if xs.len() == 0 {
        None
    } else {
        match xs[0] {
            Some(x) => Some(x),
            None => first_found(xs.drop_first()),
        }
    }
}

proof fn lemma_first_found_skip(xs: Seq<Option<Seq<char>>>, i: int)
    requires
        0 <= i <= xs.len(),
        forall|j: int| 0 <= j < i ==> #[trigger] xs[j] is None,
    ensures
        first_found(xs) == first_found(xs.skip(i)),
    decreases i,
{
    if i == 0 {
        assert(xs.skip(0) =~= xs);
    } else {
        lemma_first_found_skip(xs, i - 1);
        assert(xs.skip(i - 1)[0] == xs[i - 1]);
        assert(xs.skip(i - 1).drop_first() =~= xs.skip(i));
    }
}

/// The runtime's executable, given what a `PATH` search found for each of
/// its names, then what was found at each place installers put it: the
/// first thing found.
pub fn pick_binary(on_path: &[Option<String>], well_known: &[Option<String>]) -> (r: Option<String>)
    ensures
        answer_view(r) == first_found(answers_view(on_path@) + answers_view(well_known@)),
{
    let ghost xs = answers_view(on_path@) + answers_view(well_known@);
    let mut i: usize = 0;
    while i < on_path.len()
        invariant
            i <= on_path@.len(),
            xs == answers_view(on_path@) + answers_view(well_known@),
            forall|j: int| 0 <= j < i ==> #[trigger] xs[j] is None,
        decreases on_path@.len() - i,
    {
        match &on_path[i] {
            Some(p) => {
                proof {
                    lemma_first_found_skip(xs, i as int);
                    assert(xs.skip(i as int)[0] == xs[i as int]);
                }
                return Some(p.clone());
            },
            None => {},
        }
        i += 1;
    }
    let n = on_path.len();
    let mut k: usize = 0;
    while k < well_known.len()
        invariant
            k <= well_known@.len(),
            n == on_path@.len(),
            xs == answers_view(on_path@) + answers_view(well_known@),
            forall|j: int| 0 <= j < n + k ==> #[trigger] xs[j] is None,
        decreases well_known@.len() - k,
    {
        match &well_known[k] {
            Some(p) => {
                proof {
                    lemma_first_found_skip(xs, n + k);
                    assert(xs.skip(n + k)[0] == xs[n + k]);
                }
                return Some(p.clone());
            },
            None => {},
        }
        k += 1;
    }
    proof {
        lemma_first_found_skip(xs, xs.len() as int);
    }
    None
}

/// How `start` ended.
#[derive(Debug, Clone, PartialEq, Eq)]
pub enum Started {
    AlreadyRunning { url: String },
    Launched { pid: u32, url: String },
}

/// How `stop` ended.
#[derive(Debug, Clone, PartialEq, Eq, Structural)]
pub enum Stopped {
    Killed(u32),
    NotRunning,
}

/// How `install` ended.
#[derive(Debug, Clone, PartialEq, Eq)]
pub enum Installed {
    /// The install command ran and succeeded.
    Ran,
    /// There is a command; it was shown, not run.
    Command(String),
    /// No command for this OS; a page to visit.
    Manual(String),
}

/// One runtime's state, fully described.
#[derive(Debug, Clone, PartialEq, Eq)]
pub struct Status {
    pub kind: RuntimeKind,
    pub display: &'static str,
    pub state: State,
    pub binary: Option<String>,
    pub url: String,
    /// The pid infy started, if it did and it is still alive.
    pub started_by_infy: Option<u32>,
    /// What it serves, when it is running.
    pub models: Vec<ServedModel>,
    pub next_step: String,
}

/// The state a probe found: running if the server answers, installed if a
/// binary was found, not installed otherwise.
pub open spec fn state_of(reachable: bool, has_binary: bool) -> State {
    if reachable {
        State::Running
    } else if has_binary {
        State::Installed
    } else {
        State::NotInstalled
    }
}

/// A runtime whose server answers is running, whatever binary was found
/// (a server in a container has none here); one that does not answer is
/// installed exactly when a binary was found.
pub proof fn law_an_answering_server_is_running(has_binary: bool)
    ensures
        state_of(true, has_binary) == State::Running,
        state_of(false, true) == State::Installed,
        state_of(false, false) == State::NotInstalled,
{
}

pub fn probe_state(reachable: bool, has_binary: bool) -> (s: State)
    ensures
        s == state_of(reachable, has_binary),
{
    if reachable {
        State::Running
    } else if has_binary {
        State::Installed
    } else {
        State::NotInstalled
    }
}

/// `Duration::from_secs`. Nothing is claimed of the duration: the library
/// only hands it to the HTTP client and to the start deadline.
#[verifier::external_body]
fn seconds(n: u64) -> Duration {
    Duration::from_secs(n)
}

/// `Duration::from_millis`. Nothing is claimed of the duration: it is the
/// pause between two polls of a starting server.
#[verifier::external_body]
fn milliseconds(n: u64) -> Duration {
    Duration::from_millis(n)
}

/// `Duration::as_millis`: the whole milliseconds of a duration. Nothing
/// is claimed of the number: a duration has no value Verus can see, so the
/// start loop reasons on milliseconds from here on, and is bounded by its
/// own count of polls as well.
#[verifier::external_body]
fn whole_millis(d: Duration) -> u128 {
    d.as_millis()
}

/// Whether `timeout_ms` have passed between `started_ms` and `now_ms`.
pub fn timed_out(started_ms: u128, now_ms: u128, timeout_ms: u128) -> (b: bool)
    ensures
        b == (now_ms >= started_ms + timeout_ms),
{
    now_ms >= started_ms && now_ms - started_ms >= timeout_ms
}

/// What the wait for a launched server does next.
#[derive(Debug, Clone, Copy, PartialEq, Eq, Structural)]
pub enum StartStep {
    /// The server answers: it is up.
    Ready,
    /// The process died before answering.
    Exited,
    /// The process is alive but did not answer in time.
    Silent,
    /// Poll again after a pause.
    Wait,
}

pub open spec fn start_step_of(answered: bool, alive: bool, timed_out: bool, polls_left: u64) -> StartStep {
    if answered {
        StartStep::Ready
    } else if !alive {
        StartStep::Exited
    } else if timed_out || polls_left == 0 {
        StartStep::Silent
    } else {
        StartStep::Wait
    }
}

/// One poll of a launched server: up once it answers; failed if the
/// process died or the time (or the poll budget) ran out; else wait.
pub fn start_step(answered: bool, alive: bool, timed_out: bool, polls_left: u64) -> (s: StartStep)
    ensures
        s == start_step_of(answered, alive, timed_out, polls_left),
{
    if answered {
        StartStep::Ready
    } else if !alive {
        StartStep::Exited
    } else if timed_out || polls_left == 0 {
        StartStep::Silent
    } else {
        StartStep::Wait
    }
}

/// The message when a launched runtime stays silent: it is left running.
pub open spec fn did_not_answer(k: RuntimeKind, pid: u32, url: Seq<char>, waited: Seq<char>) -> Seq<char> {
    display_name(k) + " (pid "@ + decimal(pid as nat) + ") did not answer on "@ + url + " within "@
        + waited + "; it is still running -- check its logs, or wait and retry"@
}

pub fn did_not_answer_message(kind: RuntimeKind, pid: u32, url: &str, waited: &str) -> (m: String)
    ensures
        m@ == did_not_answer(kind, pid, url@, waited@),
{
    let mut m = spec(kind).display.to_owned();
    m.append(" (pid ");
    let p = decimal_string(pid as u64);
    m.append(p.as_str());
    m.append(") did not answer on ");
    m.append(url);
    m.append(" within ");
    m.append(waited);
    m.append("; it is still running -- check its logs, or wait and retry");
    m
}

/// `format!("{d:?}")` of a duration, for the start timeout message.
/// Nothing is claimed of the text.
#[verifier::external_body]
fn duration_text(d: Duration) -> String {
    format!("{d:?}")
}

/// The runtimes on this machine.
pub struct Runtimes<P: Processes, H: Http, S: PidStore, C: Clock> {
    processes: P,
    http: H,
    pids: S,
    clock: C,
    overrides: Overrides,
    start_timeout: Duration,
    /// The operating system, as the process layer reported it when the
    /// runtimes were set up: it does not change while the program runs.
    os: Os,
}

impl<P: Processes, H: Http, S: PidStore, C: Clock> Runtimes<P, H, S, C> {
    /// The override in force for a runtime.
    pub closed spec fn config(&self, k: RuntimeKind) -> RuntimeConfig {
        self.overrides.config(k)
    }

    /// The process handling the runtimes are found, run and stopped with.
    pub closed spec fn processes_of(&self) -> P {
        self.processes
    }

    /// The HTTP client the servers are reached with.
    pub closed spec fn http_of(&self) -> H {
        self.http
    }

    /// Where started pids are remembered.
    pub closed spec fn pids_of(&self) -> S {
        self.pids
    }

    /// The clock `start` waits by.
    pub closed spec fn clock_of(&self) -> C {
        self.clock
    }

    /// How long `start` waits for a launched server to answer.
    pub closed spec fn start_timeout_of(&self) -> Duration {
        self.start_timeout
    }

    /// The operating system install commands and hints are chosen for.
    pub closed spec fn os_of(&self) -> Os {
        self.os
    }

    pub fn new(processes: P, http: H, pids: S, clock: C, overrides: Overrides) -> (r: Self)
        ensures
            forall|k: RuntimeKind| r.config(k) == overrides.config(k),
            r.processes_of() == processes,
            r.http_of() == http,
            r.pids_of() == pids,
            r.clock_of() == clock,
    {
        let os = processes.os();
        Runtimes { processes, http, pids, clock, overrides, start_timeout: seconds(30), os }
    }

    /// How long `start` waits for the server to answer.
    pub fn with_start_timeout(self, d: Duration) -> (r: Self)
        ensures
            r.start_timeout_of() == d,
            forall|k: RuntimeKind| r.config(k) == self.config(k),
            r.processes_of() == self.processes_of(),
            r.http_of() == self.http_of(),
            r.pids_of() == self.pids_of(),
            r.clock_of() == self.clock_of(),
            r.os_of() == self.os_of(),
    {
        Runtimes { start_timeout: d, ..self }
    }

    pub fn processes(&self) -> (r: &P)
        ensures
            *r == self.processes_of(),
    {
        &self.processes
    }

    pub fn http(&self) -> (r: &H)
        ensures
            *r == self.http_of(),
    {
        &self.http
    }

    pub fn pids(&self) -> (r: &S)
        ensures
            *r == self.pids_of(),
    {
        &self.pids
    }

    /// The server URL for a runtime, without a trailing slash.
    pub fn url(&self, kind: RuntimeKind) -> (r: String)
        ensures
            r@ == runtime_url(self.config(kind), kind),
    {
        let c = self.overrides.get(kind);
        let base = match &c.url {
            Some(u) => u.clone(),
            None => spec(kind).default_url.to_owned(),
        };
        trimmed(base.as_str())
    }
}

impl<P: Processes, H: Http, S: PidStore, C: Clock> Runtimes<P, H, S, C> {
    /// The runtime's executable: the override if given, else `PATH`, else
    /// the places installers put it. The searches stop at the first hit,
    /// and `pick_binary` makes the choice.
    pub fn binary(&self, kind: RuntimeKind) -> (r: Option<String>)
        ensures
            self.config(kind).binary matches Some(b) ==> (r matches Some(x) && x@ == b@),
            self.config(kind).binary is None ==> exists|
                on_path: Seq<Option<String>>,
                well_known: Seq<Option<String>>,
                home: Option<Seq<char>>,
            |
                #![trigger first_found(answers_view(on_path) + answers_view(well_known)), found_in_places(kind, well_known, home)]
                {
                    &&& on_path.len() <= binaries_of(kind).len()
                    &&& found_in_places(kind, well_known, home)
                    &&& answer_view(r) == first_found(answers_view(on_path) + answers_view(well_known))
                },
    {
        match &self.overrides.get(kind).binary {
            Some(b) => return Some(b.clone()),
            None => {},
        }
        let s = spec(kind);
        let mut on_path: Vec<Option<String>> = Vec::new();
        let mut hit = false;
        let mut i: usize = 0;
        while i < s.binaries.len() && !hit
            invariant
                i <= s.binaries@.len(),
                on_path@.len() == i,
                strs_view(s.binaries@) == binaries_of(kind),
                hit == (i > 0 && on_path@[i - 1] is Some),
            decreases s.binaries@.len() - i,
        {
            let a = self.processes.which(s.binaries[i]);
            hit = a.is_some();
            on_path.push(a);
            i += 1;
        }
        let mut well_known: Vec<Option<String>> = Vec::new();
        let home = self.processes.home();
        let h: Option<&str> = match &home {
            Some(x) => Some(x.as_str()),
            None => None,
        };
        let ghost hv: Option<Seq<char>> = match h {
            Some(x) => Some(x@),
            None => None,
        };
        let mut j: usize = 0;
        while j < s.well_known.len() && !hit
            invariant
                j <= s.well_known@.len(),
                well_known@.len() == j,
                strs_view(s.well_known@) == well_known_of(kind),
                hv == match h {
                    Some(x) => Some(x@),
                    None => None,
                },
                forall|k: int|
                    0 <= k < j && #[trigger] well_known@[k] is Some ==> answer_view(well_known@[k])
                        == expanded(well_known_of(kind)[k], hv),
            decreases s.well_known@.len() - j,
        {
            assert(s.well_known@[j as int]@ == well_known_of(kind)[j as int]);
            let a = match expand_well_known(s.well_known[j], h) {
                Some(p) => {
                    if self.processes.path_exists(p.as_str()) {
                        Some(p)
                    } else {
                        None
                    }
                },
                None => None,
            };
            hit = a.is_some();
            well_known.push(a);
            j += 1;
        }
        let r = pick_binary(on_path.as_slice(), well_known.as_slice());
        assert(on_path@.len() <= binaries_of(kind).len());
        assert(answer_view(r) == first_found(answers_view(on_path@) + answers_view(well_known@)));
        assert(found_in_places(kind, well_known@, hv));
        r
    }

    /// Whether the server answers its health path.
    pub fn is_reachable(&self, kind: RuntimeKind) -> bool {
        let mut u = self.url(kind);
        u.append(spec(kind).health_path);
        self.http.get(u.as_str(), seconds(2)).is_ok()
    }

    /// The pid infy started for a runtime, if that process is still alive; a
    /// remembered pid that died is forgotten.
    fn own_pid(&self, kind: RuntimeKind) -> Result<Option<u32>> {
        match self.pids.load(kind) {
            Err(e) => Err(e),
            Ok(Some(pid)) => {
                if self.processes.is_alive(pid) {
                    Ok(Some(pid))
                } else {
                    match self.pids.clear(kind) {
                        Err(e) => Err(e),
                        Ok(()) => Ok(None),
                    }
                }
            },
            Ok(None) => Ok(None),
        }
    }

    /// What is installed, what is running, and what it serves.
    pub fn status(&self, kind: RuntimeKind) -> (r: Result<Status>)
        ensures
            r matches Ok(st) ==> st.kind == kind && st.url@ == runtime_url(self.config(kind), kind)
                && st.display@ == display_name(kind) && st.state == state_of(
                st.state == State::Running,
                st.binary is Some,
            ),
            r matches Ok(st) ==> st.state != State::Running ==> st.models@.len() == 0,
            r matches Ok(st) ==> st.next_step@ == next_step_text(kind, st.state, self.os_of(), None),
            r matches Ok(st) ==> (self.config(kind).binary matches Some(b) ==> st.binary matches Some(x)
                && x@ == b@),
    {
        let s = spec(kind);
        let binary = self.binary(kind);
        let url = self.url(kind);
        let reachable = self.is_reachable(kind);
        let state = probe_state(reachable, binary.is_some());
        let models = if reachable {
            match self.models(kind) {
                Ok(m) => m,
                Err(_) => Vec::new(),
            }
        } else {
            Vec::new()
        };
        let started_by_infy = match self.own_pid(kind) {
            Ok(p) => p,
            Err(e) => return Err(e),
        };
        let next = next_step(kind, state, self.os, None);
        Ok(
            Status {
                kind,
                display: s.display,
                state,
                binary,
                url,
                started_by_infy,
                models,
                next_step: next,
            },
        )
    }

    /// The status of every runtime, in the order of `RuntimeKind::all`.
    pub fn status_all(&self) -> (r: Result<Vec<Status>>)
        ensures
            r matches Ok(v) ==> v@.len() == 3 && v@[0].kind == RuntimeKind::Ollama && v@[1].kind
                == RuntimeKind::LlamaCpp && v@[2].kind == RuntimeKind::LmStudio,
    {
        let kinds = RuntimeKind::all();
        let mut out: Vec<Status> = Vec::new();
        let mut i: usize = 0;
        while i < 3
            invariant
                i <= 3,
                kinds@ == seq![RuntimeKind::Ollama, RuntimeKind::LlamaCpp, RuntimeKind::LmStudio],
                out@.len() == i,
                forall|j: int| 0 <= j < i ==> (#[trigger] out@[j]).kind == kinds@[j],
            decreases 3 - i,
        {
            match self.status(kinds[i]) {
                Ok(st) => out.push(st),
                Err(e) => return Err(e),
            }
            i += 1;
        }
        Ok(out)
    }

    /// Start a runtime's server and wait until it answers.
    pub fn start(&self, kind: RuntimeKind, opts: &StartOptions) -> (r: Result<Started>)
        ensures
            r matches Ok(Started::AlreadyRunning { url }) ==> url@ == runtime_url(self.config(kind), kind),
            r matches Ok(Started::Launched { url, .. }) ==> url@ == runtime_url(self.config(kind), kind),
            r matches Ok(Started::Launched { .. }) ==> host_port_of(
                runtime_url(self.config(kind), kind),
            ) is Ok && !(kind == RuntimeKind::LlamaCpp && opts.model is None),
    {
        let url = self.url(kind);
        if self.is_reachable(kind) {
            return Ok(Started::AlreadyRunning { url });
        }
        let binary = match self.binary(kind) {
            Some(b) => b,
            None => {
                let m = not_installed_for_start_message(kind, self.os);
                return Err(Error::Unavailable(m));
            },
        };
        let (args, env) = match start_command(kind, url.as_str(), opts) {
            Ok(c) => c,
            Err(e) => return Err(e),
        };
        let pid = match self.processes.spawn_detached(binary.as_str(), args.as_slice(), env.as_slice()) {
            Ok(p) => p,
            Err(e) => return Err(e),
        };
        match self.pids.save(kind, pid) {
            Ok(()) => {},
            Err(e) => return Err(e),
        }
        let started_ms = whole_millis(self.clock.now());
        let timeout_ms = whole_millis(self.start_timeout);
        let mut polls: u64 = u64::MAX;
        loop
            invariant
                url@ == runtime_url(self.config(kind), kind),
                host_port_of(url@) is Ok,
                !(kind == RuntimeKind::LlamaCpp && opts.model is None),
            decreases polls,
        {
            let answered = self.is_reachable(kind);
            let alive = answered || self.processes.is_alive(pid);
            let over = !answered && alive && timed_out(started_ms, whole_millis(self.clock.now()), timeout_ms);
            match start_step(answered, alive, over, polls) {
                StartStep::Ready => return Ok(Started::Launched { pid, url }),
                StartStep::Exited => {
                    match self.pids.clear(kind) {
                        Ok(()) => {},
                        Err(e) => return Err(e),
                    }
                    let m = exited_early_message(kind, binary.as_str(), &args);
                    return Err(Error::Unavailable(m));
                },
                StartStep::Silent => {
                    let t = duration_text(self.start_timeout);
                    let m = did_not_answer_message(kind, pid, url.as_str(), t.as_str());
                    return Err(Error::Unavailable(m));
                },
                StartStep::Wait => {},
            }
            self.processes.sleep(milliseconds(250));
            polls = polls - 1;
        }
    }

    /// Stop a runtime infy started. One infy did not start is left alone,
    /// with the right command to stop it in the error.
    pub fn stop(&self, kind: RuntimeKind) -> (r: Result<Stopped>)
        ensures
            r is Ok ==> exists|own: Option<u32>, answers: bool|
                (answers ==> own is None && kind != RuntimeKind::LmStudio)
                && #[trigger] stop_end(kind, own, answers, runtime_url(self.config(kind), kind), self.os_of())
                == Ok::<Stopped, Seq<char>>(r->Ok_0),
    {
        if kind == RuntimeKind::LmStudio {
            // lms has a proper stop verb that works whoever started it.
            match self.binary(kind) {
                Some(bin) => {
                    let args = vec!["server".to_owned(), "stop".to_owned()];
                    let env: Vec<(String, String)> = Vec::new();
                    let mut quiet = |_line: &str| {};
                    let _ = self.processes.run(bin.as_str(), args.as_slice(), env.as_slice(), &mut quiet);
                },
                None => {},
            }
        }
        let own = match self.own_pid(kind) {
            Err(e) => return Err(e),
            Ok(p) => p,
        };
        match own {
            Some(pid) => {
                match self.processes.kill(pid) {
                    Ok(()) => {},
                    Err(e) => return Err(e),
                }
                match self.pids.clear(kind) {
                    Ok(()) => {},
                    Err(e) => return Err(e),
                }
            },
            None => {},
        }
        let answers = own.is_none() && kind != RuntimeKind::LmStudio && self.is_reachable(kind);
        let url = self.url(kind);
        let os = self.os;
        stop_outcome(kind, own, answers, url.as_str(), os)
    }

    /// Install a runtime: run the OS's command when `run` is set and one
    /// exists, otherwise say what to do.
    pub fn install<F: FnMut(&str)>(&self, kind: RuntimeKind, run: bool, on_line: &mut F) -> (r: Result<Installed>)
        ensures
            match install_plan(kind, self.os_of(), run) {
                InstallPlan::Show(c) => r matches Ok(Installed::Command(x)) && x@ == c,
                InstallPlan::Visit(u) => r matches Ok(Installed::Manual(x)) && x@ == u,
                InstallPlan::Run(c) => r matches Ok(Installed::Ran) || r is Err,
            },
    {
        let os = self.os;
        let ghost plan = install_plan(kind, os, run);
        match install_command(kind, os) {
            Some(cmd) => {
                if run {
                    let sh = match self.processes.which("sh") {
                        Some(p) => p,
                        None => {
                            let mut m = "no `sh` on PATH to run: ".to_owned();
                            m.append(cmd);
                            return Err(Error::Unavailable(m));
                        },
                    };
                    let args = vec!["-c".to_owned(), cmd.to_owned()];
                    let env: Vec<(String, String)> = Vec::new();
                    match self.processes.run(sh.as_str(), args.as_slice(), env.as_slice(), on_line) {
                        Ok(out) => install_result(cmd, &out),
                        Err(e) => Err(e),
                    }
                } else {
                    Ok(Installed::Command(cmd.to_owned()))
                }
            },
            None => Ok(Installed::Manual(spec(kind).install.url.to_owned())),
        }
    }

    /// The runtime's URL when its server answers; otherwise why not, with
    /// the next step.
    pub fn require_running(&self, kind: RuntimeKind) -> (r: Result<String>)
        ensures
            r matches Ok(u) ==> u@ == runtime_url(self.config(kind), kind),
            r is Err ==> exists|installed: bool| r matches Err(Error::Unavailable(m))
                && m@ == #[trigger] not_answering(kind, runtime_url(self.config(kind), kind), installed, self.os_of()),
    {
        let url = self.url(kind);
        if self.is_reachable(kind) {
            return Ok(url);
        }
        let m = not_answering_message(kind, url.as_str(), self.binary(kind).is_some(), self.os);
        Err(Error::Unavailable(m))
    }

    /// The models a running runtime serves.
    pub fn models(&self, kind: RuntimeKind) -> (r: Result<Vec<ServedModel>>)
        ensures
            r is Ok ==> exists|status: u16, body: Seq<char>| #[trigger] listing_answer(kind, status, body, r),
    {
        let url = match self.require_running(kind) {
            Ok(u) => u,
            Err(e) => return Err(e),
        };
        let mut u = url.clone();
        u.append(spec(kind).models_path);
        let r = match self.http.get(u.as_str(), seconds(30)) {
            Ok(r) => r,
            Err(e) => return Err(e),
        };
        models_from_answer(kind, r.status, r.body.as_str())
    }

    /// Fetch a model into the runtime's own store (`ollama pull`, `lms get`).
    pub fn pull<F: FnMut(&str)>(&self, kind: RuntimeKind, model: &str, on_line: &mut F) -> (r: Result<()>)
        ensures
            kind == RuntimeKind::LlamaCpp ==> (r matches Err(Error::Invalid(m)) && crate::runtime::logic::pull_args(kind, model@) == Err::<Seq<Seq<char>>, Seq<char>>(m@)),
            r is Ok ==> crate::runtime::logic::pull_args(kind, model@) is Ok,
    {
        let args = match pull_command(kind, model) {
            Ok(a) => a,
            Err(e) => return Err(e),
        };
        let bin = match self.binary(kind) {
            Some(b) => b,
            None => {
                let mut m = spec(kind).display.to_owned();
                m.append(" is not installed; ");
                let h = install_hint(kind, self.os);
                m.append(h.as_str());
                return Err(Error::Unavailable(m));
            },
        };
        let env: Vec<(String, String)> = Vec::new();
        match self.processes.run(bin.as_str(), args.as_slice(), env.as_slice(), on_line) {
            Ok(out) => pull_result(bin.as_str(), &args, &out),
            Err(e) => Err(e),
        }
    }
}

/// The refusal `models` gives when the listing request is answered with
/// an error status.
pub open spec fn models_refusal(k: RuntimeKind, status: u16, body: Seq<char>) -> Seq<char> {
    display_name(k) + " answered "@ + decimal(status as nat) + " to "@ + models_path(k) + ": "@
        + trimmed_text(body)
}

/// That `r` is what `parse_models` makes of `body`.
pub open spec fn listing_parsed(k: RuntimeKind, body: Seq<char>, r: Result<Vec<ServedModel>>) -> bool {
    match json_read(body) {
        Err(m) => r matches Err(Error::Internal { context, source: Some(s) }) && context@
            == listing_context(k) && s@ == m,
        Ok(j) => match served_listing(k, j) {
            Some(v) => r matches Ok(ms) && served_views(ms@) == v,
            None => r matches Err(Error::Internal { context, source: Some(s) }) && context@
                == listing_context(k) && s@ == shape_message(),
        },
    }
}

/// That `r` is what `models` makes of a listing answered with `status` and
/// `body`.
pub open spec fn listing_answer(k: RuntimeKind, status: u16, body: Seq<char>, r: Result<Vec<ServedModel>>) -> bool {
    if status != 200 {
        r matches Err(Error::Unavailable(m)) && m@ == models_refusal(k, status, body)
    } else {
        listing_parsed(k, body, r)
    }
}

/// What `models` makes of the answer to its listing request.
pub fn models_from_answer(kind: RuntimeKind, status: u16, body: &str) -> (r: Result<Vec<ServedModel>>)
    ensures
        listing_answer(kind, status, body@, r),
{
    if status != 200 {
        let s = spec(kind);
        let mut m = s.display.to_owned();
        m.append(" answered ");
        let st = decimal_string(status as u64);
        m.append(st.as_str());
        m.append(" to ");
        m.append(s.models_path);
        m.append(": ");
        let b = trim_text(body);
        m.append(b.as_str());
        return Err(Error::Unavailable(m));
    }
    parse_models(kind, body)
}

/// The message when a runtime's server does not answer.
pub open spec fn not_answering(k: RuntimeKind, url: Seq<char>, installed: bool, os: Os) -> Seq<char> {
    display_name(k) + " is not answering at "@ + url + "; "@ + next_step_text(
        k,
        state_of(false, installed),
        os,
        None,
    )
}

pub fn not_answering_message(kind: RuntimeKind, url: &str, installed: bool, os: Os) -> (m: String)
    ensures
        m@ == not_answering(kind, url@, installed, os),
{
    let state = probe_state(false, installed);
    let mut m = spec(kind).display.to_owned();
    m.append(" is not answering at ");
    m.append(url);
    m.append("; ");
    let n = next_step(kind, state, os, None);
    m.append(n.as_str());
    m
}

/// How `stop` ends, once it knows the pid of the process infy started (if
/// it was still alive, it has been killed) and whether a server still
/// answers: a server infy did not start is never stopped.
pub open spec fn stop_end(k: RuntimeKind, own: Option<u32>, answers: bool, url: Seq<char>, os: Os) -> core::result::Result<Stopped, Seq<char>> {
    match own {
        Some(pid) => Ok(Stopped::Killed(pid)),
        None => if k != RuntimeKind::LmStudio && answers {
            Err(foreign_refusal(k, url, os))
        } else {
            Ok(Stopped::NotRunning)
        },
    }
}

/// `stop` kills only a process infy started: without one, it never answers
/// that it killed something, and a server someone else started is refused
/// or left alone.
pub proof fn law_stop_kills_only_what_infy_started(
    k: RuntimeKind,
    answers: bool,
    url: Seq<char>,
    os: Os,
)
    ensures
        !(stop_end(k, None, answers, url, os) matches Ok(Stopped::Killed(_))),
{
}

pub fn stop_outcome(kind: RuntimeKind, own: Option<u32>, answers: bool, url: &str, os: Os) -> (r: Result<Stopped>)
    ensures
        match stop_end(kind, own, answers, url@, os) {
            Ok(s) => r matches Ok(x) && x == s,
            Err(m) => r matches Err(Error::Invalid(x)) && x@ == m,
        },
{
    match own {
        Some(pid) => Ok(Stopped::Killed(pid)),
        None => {
            if kind != RuntimeKind::LmStudio && answers {
                let m = foreign_refusal_message(kind, url, os);
                Err(Error::Invalid(m))
            } else {
                Ok(Stopped::NotRunning)
            }
        },
    }
}

/// `s` without trailing slashes.
fn trimmed(s: &str) -> (r: String)
    ensures
        r@ == trim_end(s@, '/'),
{
    trim_end_text(s, '/')
}


/// `n` as `{}` prints an `i32`.
pub open spec fn signed_decimal(n: i32) -> Seq<char> {
    if n < 0 {
        "-"@ + decimal((-n) as nat)
    } else {
        decimal(n as nat)
    }
}

fn signed_text(n: i32) -> (r: String)
    ensures
        r@ == signed_decimal(n),
{
    if n < 0 {
        let m: i64 = -(n as i64);
        let mut r = "-".to_owned();
        let d = decimal_string(m as u64);
        r.append(d.as_str());
        r
    } else {
        decimal_string(n as u64)
    }
}

/// The last line `str::lines` yields, if any: lines end at `\n`, a `\r`
/// before that `\n` is dropped, and the final line ending is optional.
pub open spec fn last_line(s: Seq<char>) -> Option<Seq<char>> {
    if s.len() == 0 {
        None
    } else if s.last() == '\n' {
        let body = s.drop_last();
        let piece = match rfind_char(body, '\n') {
            Some(i) => body.skip(i as int + 1),
            None => body,
        };
        if piece.len() > 0 && piece.last() == '\r' {
            Some(piece.drop_last())
        } else {
            Some(piece)
        }
    } else {
        match rfind_char(s, '\n') {
            Some(i) => Some(s.skip(i as int + 1)),
            None => Some(s),
        }
    }
}

/// The text after the last `\n` of `v[..end]`.
fn tail_after_newline(v: &Vec<char>, end: usize) -> (r: String)
    requires
        end <= v@.len(),
    ensures
        r@ == match rfind_char(v@.take(end as int), '\n') {
            Some(i) => v@.take(end as int).skip(i as int + 1),
            None => v@.take(end as int),
        },
{
    let mut k = end;
    while k > 0 && v[k - 1] != '\n'
        invariant
            k <= end <= v@.len(),
            rfind_char(v@.take(end as int), '\n')
                == rfind_char(v@.take(k as int), '\n'),
        decreases k,
    {
        assert(v@.take(k as int).drop_last() =~= v@.take(k - 1));
        k -= 1;
    }
    if k > 0 {
        assert(v@.take(k as int).last() == '\n');
        assert(v@.take(end as int).skip(k as int) =~= v@.subrange(k as int, end as int));
    } else {
        assert(v@.take(end as int) =~= v@.subrange(0, end as int));
    }
    crate::text::string_from_chars(v, k, end)
}

/// The last line of `s`, as `s.lines().last()`.
pub fn last_line_of(s: &str) -> (r: Option<String>)
    ensures
        match last_line(s@) {
            Some(l) => r matches Some(x) && x@ == l,
            None => r is None,
        },
{
    let v = crate::text::chars_of(s);
    let n = v.len();
    if n == 0 {
        return None;
    }
    if v[n - 1] == '\n' {
        assert(v@.take(n - 1) =~= s@.drop_last());
        let piece = tail_after_newline(&v, n - 1);
        let pv = crate::text::chars_of(piece.as_str());
        if pv.len() > 0 && pv[pv.len() - 1] == '\r' {
            let t = crate::text::string_from_chars(&pv, 0, pv.len() - 1);
            assert(t@ =~= piece@.drop_last());
            Some(t)
        } else {
            Some(piece)
        }
    } else {
        assert(v@.take(n as int) =~= s@);
        Some(tail_after_newline(&v, n))
    }
}

/// The message when a runtime is not installed and must be started.
pub open spec fn not_installed_for_start(k: RuntimeKind, os: Os) -> Seq<char> {
    display_name(k) + " is not installed (no "@ + join(crate::runtime::logic::binaries_of(k), "/"@)
        + " on PATH); "@ + install_hint_text(k, os)
}

pub fn not_installed_for_start_message(kind: RuntimeKind, os: Os) -> (m: String)
    ensures
        m@ == not_installed_for_start(kind, os),
{
    let s = spec(kind);
    let mut m = s.display.to_owned();
    m.append(" is not installed (no ");
    let mut names: Vec<String> = Vec::new();
    let mut i: usize = 0;
    while i < s.binaries.len()
        invariant
            i <= s.binaries@.len(),
            crate::runtime::logic::is_spec_of(s, kind),
            string_views(names@) == crate::runtime::logic::strs_view(s.binaries@.take(i as int)),
        decreases s.binaries@.len() - i,
    {
        names.push(s.binaries[i].to_owned());
        assert(crate::runtime::logic::strs_view(s.binaries@.take(i + 1)) =~= crate::runtime::logic::strs_view(
            s.binaries@.take(i as int),
        ).push(s.binaries@[i as int]@));
        assert(string_views(names@) =~= string_views(names@.drop_last()).push(names@.last()@));
        i += 1;
    }
    assert(s.binaries@.take(i as int) =~= s.binaries@);
    let j = join_strings(&names, "/");
    m.append(j.as_str());
    m.append(" on PATH); ");
    let h = install_hint(kind, os);
    m.append(h.as_str());
    m
}

/// The message when a launched runtime exited at once.
pub open spec fn exited_early(k: RuntimeKind, binary: Seq<char>, args: Seq<Seq<char>>) -> Seq<char> {
    display_name(k) + " exited right after starting; run `"@ + binary + " "@ + join(args, " "@)
        + "` by hand to see why"@
}

pub fn exited_early_message(kind: RuntimeKind, binary: &str, args: &Vec<String>) -> (m: String)
    ensures
        m@ == exited_early(kind, binary@, string_views(args@)),
{
    let mut m = spec(kind).display.to_owned();
    m.append(" exited right after starting; run `");
    m.append(binary);
    m.append(" ");
    let j = join_strings(args, " ");
    m.append(j.as_str());
    m.append("` by hand to see why");
    m
}

/// The refusal to stop a runtime infy did not start.
pub open spec fn foreign_refusal(k: RuntimeKind, url: Seq<char>, os: Os) -> Seq<char> {
    display_name(k) + " is running at "@ + url
        + " but was not started by infy, so infy will not stop it; "@ + foreign_stop_text(k, os)
}

pub fn foreign_refusal_message(kind: RuntimeKind, url: &str, os: Os) -> (m: String)
    ensures
        m@ == foreign_refusal(kind, url@, os),
{
    let mut m = spec(kind).display.to_owned();
    m.append(" is running at ");
    m.append(url);
    m.append(" but was not started by infy, so infy will not stop it; ");
    let h = foreign_stop_hint(kind, os);
    m.append(h.as_str());
    m
}

/// What `install` does: run the OS's command when asked to and there is
/// one, show it when not asked to, and point at the download page when the
/// OS has no command.
pub enum InstallPlan {
    Run(Seq<char>),
    Show(Seq<char>),
    Visit(Seq<char>),
}

pub open spec fn install_plan(k: RuntimeKind, os: Os, run: bool) -> InstallPlan {
    match install_command_of(k, os) {
        Some(cmd) => if run {
            InstallPlan::Run(cmd)
        } else {
            InstallPlan::Show(cmd)
        },
        None => InstallPlan::Visit(install_url(k)),
    }
}

/// The outcome of running an install command that exited with `out`.
pub open spec fn install_outcome(cmd: Seq<char>, status: i32, stderr: Seq<char>) -> core::result::Result<(), Seq<char>> {
    if status == 0 {
        Ok(())
    } else {
        Err(
            "install command failed with exit "@ + signed_decimal(status) + ": "@ + cmd + "\n"@
                + match last_line(stderr) {
                Some(l) => l,
                None => Seq::empty(),
            },
        )
    }
}

pub fn install_result(cmd: &str, out: &Output) -> (r: Result<Installed>)
    ensures
        match install_outcome(cmd@, out.status, out.stderr@) {
            Ok(()) => r matches Ok(Installed::Ran),
            Err(m) => r matches Err(Error::Unavailable(x)) && x@ == m,
        },
{
    if out.status == 0 {
        Ok(Installed::Ran)
    } else {
        let mut m = "install command failed with exit ".to_owned();
        let st = signed_text(out.status);
        m.append(st.as_str());
        m.append(": ");
        m.append(cmd);
        m.append("\n");
        match last_line_of(out.stderr.as_str()) {
            Some(l) => m.append(l.as_str()),
            None => {},
        }
        Err(Error::Unavailable(m))
    }
}

/// The outcome of a runtime's pull command that exited with `out`.
pub open spec fn pull_outcome(binary: Seq<char>, args: Seq<Seq<char>>, status: i32, stdout: Seq<char>, stderr: Seq<char>) -> core::result::Result<(), Seq<char>> {
    if status == 0 {
        Ok(())
    } else {
        Err(
            "`"@ + binary + " "@ + join(args, " "@) + "` failed with exit "@ + signed_decimal(status)
                + ": "@ + match last_line(stderr) {
                Some(l) => l,
                None => match last_line(stdout) {
                    Some(l) => l,
                    None => Seq::empty(),
                },
            },
        )
    }
}

pub fn pull_result(binary: &str, args: &Vec<String>, out: &Output) -> (r: Result<()>)
    ensures
        match pull_outcome(binary@, string_views(args@), out.status, out.stdout@, out.stderr@) {
            Ok(()) => r is Ok,
            Err(m) => r matches Err(Error::Unavailable(x)) && x@ == m,
        },
{
    if out.status == 0 {
        Ok(())
    } else {
        let mut m = "`".to_owned();
        m.append(binary);
        m.append(" ");
        let j = join_strings(args, " ");
        m.append(j.as_str());
        m.append("` failed with exit ");
        let st = signed_text(out.status);
        m.append(st.as_str());
        m.append(": ");
        match last_line_of(out.stderr.as_str()) {
            Some(l) => m.append(l.as_str()),
            None => match last_line_of(out.stdout.as_str()) {
                Some(l) => m.append(l.as_str()),
                None => {},
            },
        }
        Err(Error::Unavailable(m))
    }
}


/// The finish reason a runtime's `finish_reason` field names.
pub open spec fn finish_named_spec(s: Seq<char>) -> FinishReason {
    if s == "length"@ {
        FinishReason::Length
    } else if s == "cancelled"@ {
        FinishReason::Cancelled
    } else {
        FinishReason::Stop
    }
}

pub fn finish_named(s: &str) -> (f: FinishReason)
    ensures
        f == finish_named_spec(s@),
{
    if str_eq(s, "length") {
        FinishReason::Length
    } else if str_eq(s, "cancelled") {
        FinishReason::Cancelled
    } else {
        FinishReason::Stop
    }
}

/// How a stream ended: a cancellation wins, then what the runtime said,
/// then a plain stop.
pub fn stream_finish(cancelled: bool, said: Option<FinishReason>) -> (f: FinishReason)
    ensures
        f == (if cancelled {
            FinishReason::Cancelled
        } else {
            match said {
                Some(x) => x,
                None => FinishReason::Stop,
            }
        }),
{
    if cancelled {
        FinishReason::Cancelled
    } else {
        match said {
            Some(x) => x,
            None => FinishReason::Stop,
        }
    }
}

/// The error for a streaming request a runtime answered with an error
/// status: a 404 means the model is not there, and says how to get it.
pub open spec fn stream_failure_error(
    kind: RuntimeKind,
    status: u16,
    requested_model: Seq<char>,
    detail: Seq<char>,
    e: Error,
) -> bool {
    &&& status == 404 ==> (e matches Error::NotFound(m) && m@ == "model "@ + debug_quoted(
        requested_model,
    ) + " on "@ + display_name(kind) + ": "@ + detail + "; pull it with `infy pull "@ + kind_name(
        kind,
    ) + ":"@ + requested_model + "` or pick one from `infy runtime models "@ + kind_name(kind)
        + "`"@)
    &&& status != 404 ==> (e matches Error::Unavailable(m) && m@ == display_name(kind)
        + " answered "@ + decimal(status as nat) + ": "@ + detail)
}

pub fn stream_failure(kind: RuntimeKind, status: u16, requested_model: &str, detail: &str) -> (e: Error)
    ensures
        stream_failure_error(kind, status, requested_model@, detail@, e),
{
    let s = spec(kind);
    if status == 404 {
        let mut m = "model ".to_owned();
        let q = debug_str(requested_model);
        m.append(q.as_str());
        m.append(" on ");
        m.append(s.display);
        m.append(": ");
        m.append(detail);
        m.append("; pull it with `infy pull ");
        m.append(kind.name());
        m.append(":");
        m.append(requested_model);
        m.append("` or pick one from `infy runtime models ");
        m.append(kind.name());
        m.append("`");
        Error::NotFound(m)
    } else {
        let mut m = s.display.to_owned();
        m.append(" answered ");
        let st = decimal_string(status as u64);
        m.append(st.as_str());
        m.append(": ");
        m.append(detail);
        Error::Unavailable(m)
    }
}

} // verus!
