//! What the runtime domain needs from the machine: a way to find and run
//! processes, an HTTP client, somewhere to remember the pid of a process it
//! started, and a clock. Paths are held as text.
use std::time::Duration;
use vstd::prelude::*;

use crate::kernel::cancel::Cancel;
use crate::kernel::error::Result;
use crate::runtime::logic::RuntimeKind;

verus! {

/// The operating system, for install commands and well-known paths. A value
/// rather than a compile-time switch, so the logic is the same on every
/// machine.
#[derive(Debug, Clone, Copy, PartialEq, Eq, Structural)]
pub enum Os {
    Linux,
    MacOs,
    Windows,
}

/// What a finished command produced.
#[derive(Debug, Clone, PartialEq, Eq, Default)]
pub struct Output {
    pub status: i32,
    pub stdout: String,
    pub stderr: String,
}

/// Finding, starting, watching and stopping processes on this machine.
pub trait Processes {
    fn os(&self) -> Os;

    fn home(&self) -> Option<String>;

    /// Search `PATH` for an executable.
    fn which(&self, name: &str) -> Option<String>;

    fn path_exists(&self, path: &str) -> bool;

    /// Start a long-running process that outlives this call; return its pid.
    fn spawn_detached(&self, program: &str, args: &[String], env: &[(String, String)]) -> Result<u32>;

    /// Run a command to completion, handing each output line to `on_line`
    /// as it arrives.
    fn run<F: FnMut(&str)>(
        &self,
        program: &str,
        args: &[String],
        env: &[(String, String)],
        on_line: &mut F,
    ) -> Result<Output>;

    fn is_alive(&self, pid: u32) -> bool;

    fn kill(&self, pid: u32) -> Result<()>;

    fn sleep(&self, d: Duration);
}

/// An HTTP response: the status, and the body as text.
#[derive(Debug, Clone, PartialEq, Eq)]
pub struct HttpResponse {
    pub status: u16,
    pub body: String,
}

/// An HTTP client. Connection failures are `Unavailable`; an HTTP error
/// status is a normal response with that status, so the body can say why.
pub trait Http {
    fn get(&self, url: &str, timeout: Duration) -> Result<HttpResponse>;

    fn post_json(&self, url: &str, body: &str, timeout: Duration) -> Result<HttpResponse>;

    /// POST and hand over the response body line by line as it streams;
    /// stop early once `cancel` is set. Returns the status.
    fn post_json_stream<F: FnMut(&str)>(
        &self,
        url: &str,
        body: &str,
        cancel: &Cancel,
        on_line: &mut F,
    ) -> Result<u16>;
}

/// Where the pid of a runtime infy started is remembered between
/// invocations, so `stop` only ever kills what `start` launched.
pub trait PidStore {
    fn load(&self, kind: RuntimeKind) -> Result<Option<u32>>;

    fn save(&self, kind: RuntimeKind, pid: u32) -> Result<()>;

    fn clear(&self, kind: RuntimeKind) -> Result<()>;
}

/// A monotonic clock, for timing every call.
pub trait Clock {
    fn now(&self) -> Duration;
}

} // verus!
