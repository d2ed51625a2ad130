use std::cell::{Cell, RefCell};
use std::collections::{HashMap, HashSet};
use std::time::Duration;

use infy::kernel::cancel::Cancel;
use infy::kernel::error::{Error, Result};
use infy::runtime::deps::{Clock, Http, HttpResponse, Os, Output, PidStore, Processes};
use infy::runtime::logic::{RuntimeKind, StartOptions, State};
use infy::runtime::service::{
    did_not_answer_message, models_from_answer, pick_binary, start_step, stop_outcome, timed_out, StartStep, Installed, Overrides, RuntimeConfig, Runtimes, Started,
    Stopped,
};

/// A recorded launch.
#[derive(Debug, Clone, PartialEq, Eq)]
struct Spawned {
    program: String,
    args: Vec<String>,
    pid: u32,
}

/// A fake machine: binaries, files, canned command results, processes.
struct FakeMachine {
    os: Os,
    home: Option<String>,
    on_path: HashMap<String, String>,
    files: HashSet<String>,
    runs: HashMap<String, (Output, Vec<String>)>,
    spawned: RefCell<Vec<Spawned>>,
    ran: RefCell<Vec<String>>,
    alive: RefCell<HashSet<u32>>,
    killed: RefCell<Vec<u32>>,
    next_pid: Cell<u32>,
    slept: Cell<Duration>,
    /// Processes die the moment they are launched.
    dying: bool,
}

impl FakeMachine {
    fn new(os: Os) -> Self {
        FakeMachine {
            os,
            home: Some("/home/me".to_string()),
            on_path: HashMap::new(),
            files: HashSet::new(),
            runs: HashMap::new(),
            spawned: RefCell::new(Vec::new()),
            ran: RefCell::new(Vec::new()),
            alive: RefCell::new(HashSet::new()),
            killed: RefCell::new(Vec::new()),
            next_pid: Cell::new(4242),
            slept: Cell::new(Duration::ZERO),
            dying: false,
        }
    }

    fn with_binary(mut self, name: &str, path: &str) -> Self {
        self.on_path.insert(name.to_string(), path.to_string());
        self.files.insert(path.to_string());
        self
    }

    fn with_file(mut self, path: &str) -> Self {
        self.files.insert(path.to_string());
        self
    }

    fn with_home(mut self, home: Option<&str>) -> Self {
        self.home = home.map(|h| h.to_string());
        self
    }

    fn with_run(mut self, command: &str, status: i32, lines: &[&str]) -> Self {
        let out = Output {
            status,
            stdout: lines.join("\n"),
            stderr: String::new(),
        };
        self.runs.insert(
            command.to_string(),
            (out, lines.iter().map(|s| s.to_string()).collect()),
        );
        self
    }

    fn dying(mut self) -> Self {
        self.dying = true;
        self
    }

    fn spawned(&self) -> Vec<Spawned> {
        self.spawned.borrow().clone()
    }

    fn ran(&self) -> Vec<String> {
        self.ran.borrow().clone()
    }

    fn killed(&self) -> Vec<u32> {
        self.killed.borrow().clone()
    }
}

fn command_key(program: &str, args: &[String]) -> String {
    let name = program.rsplit('/').next().unwrap_or("");
    std::iter::once(name.to_string())
        .chain(args.iter().cloned())
        .collect::<Vec<_>>()
        .join(" ")
}

impl Processes for FakeMachine {
    fn os(&self) -> Os {
        self.os
    }
    fn home(&self) -> Option<String> {
        self.home.clone()
    }
    fn which(&self, name: &str) -> Option<String> {
        self.on_path.get(name).cloned()
    }
    fn path_exists(&self, path: &str) -> bool {
        self.files.contains(path)
    }
    fn spawn_detached(&self, program: &str, args: &[String], _env: &[(String, String)]) -> Result<u32> {
        if !self.files.contains(program) {
            return Err(Error::not_found(&format!("executable {program}")));
        }
        let pid = self.next_pid.get() + 1;
        self.next_pid.set(pid);
        if !self.dying {
            self.alive.borrow_mut().insert(pid);
        }
        self.spawned.borrow_mut().push(Spawned {
            program: program.to_string(),
            args: args.to_vec(),
            pid,
        });
        Ok(pid)
    }
    fn run<F: FnMut(&str)>(
        &self,
        program: &str,
        args: &[String],
        _env: &[(String, String)],
        on_line: &mut F,
    ) -> Result<Output> {
        let key = command_key(program, args);
        self.ran.borrow_mut().push(key.clone());
        match self.runs.get(&key) {
            Some((out, lines)) => {
                for l in lines {
                    on_line(l);
                }
                Ok(out.clone())
            }
            None => Err(Error::not_found(&format!("no canned result for command {key:?}"))),
        }
    }
    fn is_alive(&self, pid: u32) -> bool {
        self.alive.borrow().contains(&pid)
    }
    fn kill(&self, pid: u32) -> Result<()> {
        self.alive.borrow_mut().remove(&pid);
        self.killed.borrow_mut().push(pid);
        Ok(())
    }
    fn sleep(&self, d: Duration) {
        self.slept.set(self.slept.get() + d);
    }
}

/// A canned HTTP server.
#[derive(Default)]
struct FakeServer {
    gets: HashMap<String, HttpResponse>,
    unreachable_for: RefCell<HashMap<String, usize>>,
}

impl FakeServer {
    fn new() -> Self {
        Self::default()
    }

    fn with_get(mut self, url: &str, status: u16, body: &str) -> Self {
        self.gets.insert(
            url.to_string(),
            HttpResponse {
                status,
                body: body.to_string(),
            },
        );
        self
    }

    fn unreachable_for(self, url: &str, n: usize) -> Self {
        self.unreachable_for.borrow_mut().insert(url.to_string(), n);
        self
    }
}

impl Http for FakeServer {
    fn get(&self, url: &str, _timeout: Duration) -> Result<HttpResponse> {
        if let Some(n) = self.unreachable_for.borrow_mut().get_mut(url) {
            if *n > 0 {
                *n -= 1;
                return Err(Error::unavailable(&format!("connection refused: {url}")));
            }
        }
        match self.gets.get(url) {
            Some(r) => Ok(r.clone()),
            None => Err(Error::unavailable(&format!("connection refused: {url}"))),
        }
    }
    fn post_json(&self, url: &str, _body: &str, _timeout: Duration) -> Result<HttpResponse> {
        Err(Error::unavailable(&format!("connection refused: {url}")))
    }
    fn post_json_stream<F: FnMut(&str)>(
        &self,
        url: &str,
        _body: &str,
        _cancel: &Cancel,
        _on_line: &mut F,
    ) -> Result<u16> {
        Err(Error::unavailable(&format!("connection refused: {url}")))
    }
}

#[derive(Default)]
struct FakePids(RefCell<Vec<(RuntimeKind, u32)>>);

impl PidStore for FakePids {
    fn load(&self, kind: RuntimeKind) -> Result<Option<u32>> {
        Ok(self.0.borrow().iter().find(|(k, _)| *k == kind).map(|(_, p)| *p))
    }
    fn save(&self, kind: RuntimeKind, pid: u32) -> Result<()> {
        let mut v = self.0.borrow_mut();
        v.retain(|(k, _)| *k != kind);
        v.push((kind, pid));
        Ok(())
    }
    fn clear(&self, kind: RuntimeKind) -> Result<()> {
        self.0.borrow_mut().retain(|(k, _)| *k != kind);
        Ok(())
    }
}

/// Advances one millisecond per read.
#[derive(Default)]
struct StepClock(Cell<Duration>);

impl Clock for StepClock {
    fn now(&self) -> Duration {
        let n = self.0.get() + Duration::from_millis(1);
        self.0.set(n);
        n
    }
}

type Rt = Runtimes<FakeMachine, FakeServer, FakePids, StepClock>;

fn rig(procs: FakeMachine, http: FakeServer) -> Rt {
    rig_with(procs, http, Overrides::new())
}

fn rig_with(procs: FakeMachine, http: FakeServer, overrides: Overrides) -> Rt {
    Runtimes::new(procs, http, FakePids::default(), StepClock::default(), overrides)
        .with_start_timeout(Duration::from_millis(10))
}

const TAGS: &str = r#"{"models":[{"name":"llama3.2:3b","size":10,"details":{"family":"llama"}}]}"#;

#[test]
fn status_tells_not_installed_from_installed_from_running() {
    let rt = rig(FakeMachine::new(Os::Linux), FakeServer::new());
    let s = rt.status(RuntimeKind::Ollama).unwrap();
    assert_eq!(s.state, State::NotInstalled);
    assert!(s.next_step.contains("install"));
    assert_eq!(s.url, "http://127.0.0.1:11434");

    let rt = rig(
        FakeMachine::new(Os::Linux).with_binary("ollama", "/usr/bin/ollama"),
        FakeServer::new(),
    );
    let s = rt.status(RuntimeKind::Ollama).unwrap();
    assert_eq!(s.state, State::Installed);
    assert_eq!(s.binary, Some("/usr/bin/ollama".to_string()));
    assert_eq!(s.next_step, "start it: infy runtime start ollama");

    let rt = rig(
        FakeMachine::new(Os::Linux).with_binary("ollama", "/usr/bin/ollama"),
        FakeServer::new()
            .with_get("http://127.0.0.1:11434/", 200, "Ollama is running")
            .with_get("http://127.0.0.1:11434/api/tags", 200, TAGS),
    );
    let s = rt.status(RuntimeKind::Ollama).unwrap();
    assert_eq!(s.state, State::Running);
    assert_eq!(s.models.len(), 1);
    assert_eq!(s.models[0].name, "llama3.2:3b");
    assert_eq!(s.started_by_infy, None);
    assert_eq!(rt.status_all().unwrap().len(), 3);
}

#[test]
fn binaries_are_found_on_path_in_well_known_places_or_by_override() {
    let rt = rig(
        FakeMachine::new(Os::MacOs).with_file("/Applications/Ollama.app/Contents/Resources/ollama"),
        FakeServer::new(),
    );
    assert_eq!(
        rt.binary(RuntimeKind::Ollama),
        Some("/Applications/Ollama.app/Contents/Resources/ollama".to_string())
    );

    let rt = rig(
        FakeMachine::new(Os::Linux).with_file("/home/me/.lmstudio/bin/lms"),
        FakeServer::new(),
    );
    assert_eq!(
        rt.binary(RuntimeKind::LmStudio),
        Some("/home/me/.lmstudio/bin/lms".to_string()),
        "~ expands to the home"
    );
    let rt = rig(
        FakeMachine::new(Os::Linux)
            .with_home(None)
            .with_file("/home/me/.lmstudio/bin/lms"),
        FakeServer::new(),
    );
    assert_eq!(rt.binary(RuntimeKind::LmStudio), None, "no home, no ~ paths");

    let mut ov = Overrides::new();
    ov.set(
        RuntimeKind::LlamaCpp,
        RuntimeConfig {
            binary: Some("/opt/llama/llama-server".into()),
            url: Some("http://127.0.0.1:9000/".into()),
        },
    );
    let rt = rig_with(
        FakeMachine::new(Os::Linux).with_binary("llama-server", "/usr/bin/llama-server"),
        FakeServer::new(),
        ov,
    );
    assert_eq!(
        rt.binary(RuntimeKind::LlamaCpp),
        Some("/opt/llama/llama-server".to_string()),
        "an override beats PATH"
    );
    assert_eq!(rt.url(RuntimeKind::LlamaCpp), "http://127.0.0.1:9000");
}

#[test]
fn start_spawns_the_server_waits_for_it_and_remembers_the_pid() {
    let rt = rig(
        FakeMachine::new(Os::Linux).with_binary("ollama", "/usr/bin/ollama"),
        FakeServer::new()
            .with_get("http://127.0.0.1:11434/", 200, "ok")
            .unreachable_for("http://127.0.0.1:11434/", 3),
    );
    let started = rt.start(RuntimeKind::Ollama, &StartOptions::default()).unwrap();
    let spawned = rt.processes().spawned();
    assert_eq!(spawned.len(), 1);
    assert_eq!(spawned[0].program, "/usr/bin/ollama");
    assert_eq!(spawned[0].args, vec!["serve"]);
    assert_eq!(
        started,
        Started::Launched {
            pid: spawned[0].pid,
            url: "http://127.0.0.1:11434".into()
        }
    );
    assert_eq!(rt.pids().load(RuntimeKind::Ollama).unwrap(), Some(spawned[0].pid));
    assert!(
        rt.processes().slept.get() >= Duration::from_millis(500),
        "polled at least twice"
    );
    assert_eq!(
        rt.status(RuntimeKind::Ollama).unwrap().started_by_infy,
        Some(spawned[0].pid)
    );

    assert_eq!(
        rt.start(RuntimeKind::Ollama, &StartOptions::default()).unwrap(),
        Started::AlreadyRunning {
            url: "http://127.0.0.1:11434".into()
        }
    );
    assert_eq!(rt.processes().spawned().len(), 1, "no second launch");
}

#[test]
fn start_llamacpp_needs_a_model_and_lmstudio_uses_lms() {
    let rt = rig(
        FakeMachine::new(Os::Linux)
            .with_binary("llama-server", "/usr/bin/llama-server")
            .with_binary("lms", "/usr/bin/lms"),
        FakeServer::new()
            .with_get("http://127.0.0.1:8080/health", 200, "ok")
            .unreachable_for("http://127.0.0.1:8080/health", 2)
            .with_get("http://127.0.0.1:1234/v1/models", 200, r#"{"object":"list","data":[]}"#)
            .unreachable_for("http://127.0.0.1:1234/v1/models", 1),
    );
    assert!(
        matches!(rt.start(RuntimeKind::LlamaCpp, &StartOptions::default()), Err(Error::Invalid(m)) if m.contains("--model"))
    );
    let opts = StartOptions {
        model: Some("/m.gguf".into()),
        ..Default::default()
    };
    rt.start(RuntimeKind::LlamaCpp, &opts).unwrap();
    rt.start(RuntimeKind::LmStudio, &StartOptions::default()).unwrap();
    let s = rt.processes().spawned();
    assert_eq!(s[0].args, vec!["-m", "/m.gguf", "--host", "127.0.0.1", "--port", "8080"]);
    assert_eq!(s[1].program, "/usr/bin/lms");
    assert_eq!(s[1].args, vec!["server", "start", "--port", "1234"]);
}

#[test]
fn start_failures_say_what_happened() {
    let rt = rig(FakeMachine::new(Os::MacOs), FakeServer::new());
    match rt.start(RuntimeKind::Ollama, &StartOptions::default()) {
        Err(Error::Unavailable(m)) => assert!(
            m.contains("not installed") && m.contains("brew install ollama"),
            "{m}"
        ),
        other => panic!("{other:?}"),
    }
    // Never answers: times out, and the message says it is still running.
    let rt = rig(
        FakeMachine::new(Os::Linux).with_binary("ollama", "/usr/bin/ollama"),
        FakeServer::new(),
    );
    match rt.start(RuntimeKind::Ollama, &StartOptions::default()) {
        Err(Error::Unavailable(m)) => {
            assert!(m.contains("did not answer") && m.contains("11434"), "{m}")
        }
        other => panic!("{other:?}"),
    }
    assert_eq!(rt.processes().spawned().len(), 1, "it was launched and left running");
}

#[test]
fn start_reports_a_server_that_exits_immediately() {
    let rt = Runtimes::new(
        FakeMachine::new(Os::Linux)
            .with_binary("ollama", "/usr/bin/ollama")
            .dying(),
        FakeServer::new(),
        FakePids::default(),
        StepClock::default(),
        Overrides::new(),
    );
    match rt.start(RuntimeKind::Ollama, &StartOptions::default()) {
        Err(Error::Unavailable(m)) => assert!(
            m.contains("exited right after starting") && m.contains("/usr/bin/ollama serve"),
            "{m}"
        ),
        other => panic!("{other:?}"),
    }
    assert_eq!(rt.pids().load(RuntimeKind::Ollama).unwrap(), None);
}

#[test]
fn stop_kills_only_what_infy_started() {
    let rt = rig(
        FakeMachine::new(Os::Linux).with_binary("ollama", "/usr/bin/ollama"),
        FakeServer::new()
            .with_get("http://127.0.0.1:11434/", 200, "ok")
            .unreachable_for("http://127.0.0.1:11434/", 1),
    );
    let Started::Launched { pid, .. } = rt.start(RuntimeKind::Ollama, &StartOptions::default()).unwrap()
    else {
        panic!()
    };
    assert_eq!(rt.stop(RuntimeKind::Ollama).unwrap(), Stopped::Killed(pid));
    assert_eq!(rt.processes().killed(), vec![pid]);
    assert_eq!(rt.pids().load(RuntimeKind::Ollama).unwrap(), None);

    // Still reachable (the fake server keeps answering) but no longer ours:
    // refuse, and name the right command for this OS.
    match rt.stop(RuntimeKind::Ollama) {
        Err(Error::Invalid(m)) => assert!(
            m.contains("not started by infy") && m.contains("systemctl stop ollama"),
            "{m}"
        ),
        other => panic!("{other:?}"),
    }

    let rt = rig(FakeMachine::new(Os::Linux), FakeServer::new());
    assert_eq!(rt.stop(RuntimeKind::Ollama).unwrap(), Stopped::NotRunning);

    // A stale pid file (process gone) is cleaned up rather than trusted.
    let rt = rig(FakeMachine::new(Os::Linux), FakeServer::new());
    rt.pids().save(RuntimeKind::LlamaCpp, 999).unwrap();
    assert_eq!(rt.stop(RuntimeKind::LlamaCpp).unwrap(), Stopped::NotRunning);
    assert_eq!(rt.pids().load(RuntimeKind::LlamaCpp).unwrap(), None);
    assert!(rt.processes().killed().is_empty());
}

#[test]
fn stop_lmstudio_uses_its_own_verb() {
    let rt = rig(
        FakeMachine::new(Os::MacOs)
            .with_binary("lms", "/usr/bin/lms")
            .with_run("lms server stop", 0, &["Stopped the server"]),
        FakeServer::new().with_get(
            "http://127.0.0.1:1234/v1/models",
            200,
            "{\"object\":\"list\",\"data\":[]}",
        ),
    );
    assert_eq!(rt.stop(RuntimeKind::LmStudio).unwrap(), Stopped::NotRunning);
    assert_eq!(rt.processes().ran(), vec!["lms server stop"]);
}

#[test]
fn install_shows_or_runs_the_command() {
    let rt = rig(
        FakeMachine::new(Os::Linux)
            .with_binary("sh", "/bin/sh")
            .with_run(
                "sh -c curl -fsSL https://ollama.com/install.sh | sh",
                0,
                &[">>> Installing ollama"],
            ),
        FakeServer::new(),
    );
    let mut lines = Vec::new();
    assert_eq!(
        rt.install(RuntimeKind::Ollama, false, &mut |l: &str| lines.push(l.to_string()))
            .unwrap(),
        Installed::Command("curl -fsSL https://ollama.com/install.sh | sh".into())
    );
    assert!(rt.processes().ran().is_empty());
    assert_eq!(
        rt.install(RuntimeKind::Ollama, true, &mut |l: &str| lines.push(l.to_string()))
            .unwrap(),
        Installed::Ran
    );
    assert_eq!(lines, vec![">>> Installing ollama"]);
    assert_eq!(
        rt.install(RuntimeKind::LmStudio, true, &mut |_: &str| {}).unwrap(),
        Installed::Manual("https://lmstudio.ai/download".into())
    );

    let rt = rig(
        FakeMachine::new(Os::Linux)
            .with_binary("sh", "/bin/sh")
            .with_run("sh -c curl -fsSL https://ollama.com/install.sh | sh", 1, &[]),
        FakeServer::new(),
    );
    assert!(
        matches!(rt.install(RuntimeKind::Ollama, true, &mut |_: &str| {}), Err(Error::Unavailable(m)) if m.contains("exit 1"))
    );
}

#[test]
fn models_need_a_running_server() {
    let rt = rig(
        FakeMachine::new(Os::Linux).with_binary("ollama", "/usr/bin/ollama"),
        FakeServer::new(),
    );
    match rt.models(RuntimeKind::Ollama) {
        Err(Error::Unavailable(m)) => assert!(
            m.contains("not answering") && m.contains("infy runtime start ollama"),
            "{m}"
        ),
        other => panic!("{other:?}"),
    }
    let rt = rig(
        FakeMachine::new(Os::Linux),
        FakeServer::new()
            .with_get("http://127.0.0.1:8080/health", 200, "ok")
            .with_get("http://127.0.0.1:8080/v1/models", 500, "boom"),
    );
    assert!(
        matches!(rt.models(RuntimeKind::LlamaCpp), Err(Error::Unavailable(m)) if m.contains("500") && m.contains("boom"))
    );
}

#[test]
fn pull_runs_the_runtimes_own_command() {
    let rt = rig(
        FakeMachine::new(Os::Linux)
            .with_binary("ollama", "/usr/bin/ollama")
            .with_run("ollama pull llama3.2:3b", 0, &["pulling manifest", "success"]),
        FakeServer::new(),
    );
    let mut lines = Vec::new();
    rt.pull(RuntimeKind::Ollama, "llama3.2:3b", &mut |l: &str| lines.push(l.to_string()))
        .unwrap();
    assert_eq!(lines, vec!["pulling manifest", "success"]);
    assert_eq!(rt.processes().ran(), vec!["ollama pull llama3.2:3b"]);
    assert!(
        matches!(rt.pull(RuntimeKind::LlamaCpp, "x", &mut |_: &str| {}), Err(Error::Invalid(m)) if m.contains("infy pull hf:"))
    );
    let rt = rig(FakeMachine::new(Os::Linux), FakeServer::new());
    assert!(
        matches!(rt.pull(RuntimeKind::Ollama, "x", &mut |_: &str| {}), Err(Error::Unavailable(m)) if m.contains("not installed"))
    );
}

#[test]
fn the_models_refusal_carries_the_status_and_the_trimmed_body() {
    match models_from_answer(RuntimeKind::LlamaCpp, 503, "  loading model \n") {
        Err(Error::Unavailable(m)) => {
            assert_eq!(m, "llama.cpp answered 503 to /v1/models: loading model")
        }
        other => panic!("{other:?}"),
    }
    let ms = models_from_answer(RuntimeKind::Ollama, 200, TAGS).unwrap();
    assert_eq!(ms.len(), 1);
    assert_eq!(ms[0].name, "llama3.2:3b");
}

#[test]
fn stop_never_touches_a_server_it_did_not_start() {
    assert_eq!(
        stop_outcome(RuntimeKind::Ollama, Some(7), true, "http://x", Os::Linux).unwrap(),
        Stopped::Killed(7)
    );
    assert_eq!(
        stop_outcome(RuntimeKind::Ollama, None, false, "http://x", Os::Linux).unwrap(),
        Stopped::NotRunning
    );
    assert_eq!(
        stop_outcome(RuntimeKind::LmStudio, None, true, "http://x", Os::Linux).unwrap(),
        Stopped::NotRunning
    );
    match stop_outcome(RuntimeKind::Ollama, None, true, "http://127.0.0.1:11434", Os::MacOs) {
        Err(Error::Invalid(m)) => assert!(
            m.starts_with("ollama is running at http://127.0.0.1:11434 but was not started by infy"),
            "{m}"
        ),
        other => panic!("{other:?}"),
    }
}

#[test]
fn the_binary_is_the_first_thing_found() {
    let none: Option<String> = None;
    assert_eq!(pick_binary(&[none.clone(), Some("/a".into())], &[Some("/b".into())]), Some("/a".to_string()));
    assert_eq!(pick_binary(&[none.clone()], &[none.clone(), Some("/b".into()), Some("/c".into())]), Some("/b".to_string()));
    assert_eq!(pick_binary(&[none.clone()], &[none]), None);
    assert_eq!(pick_binary(&[], &[]), None);
}

#[test]
fn a_launched_server_is_polled_until_it_answers_dies_or_times_out() {
    assert_eq!(start_step(true, false, true, 0), StartStep::Ready);
    assert_eq!(start_step(false, false, false, 9), StartStep::Exited);
    assert_eq!(start_step(false, true, true, 9), StartStep::Silent);
    assert_eq!(start_step(false, true, false, 0), StartStep::Silent);
    assert_eq!(start_step(false, true, false, 9), StartStep::Wait);
    assert!(timed_out(1000, 31000, 30000));
    assert!(!timed_out(1000, 30999, 30000));
    assert!(!timed_out(5000, 100, 0));
    assert_eq!(
        did_not_answer_message(RuntimeKind::Ollama, 42, "http://127.0.0.1:11434", "10ms"),
        "ollama (pid 42) did not answer on http://127.0.0.1:11434 within 10ms; it is still running -- check its logs, or wait and retry"
    );
}
