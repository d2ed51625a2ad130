//! A local inference engine's logic: model refs, sampling controls, stop
//! sequences, UTF-8-safe streaming, the prompt-cache plan, the model hub's
//! ref grammar and file selection, and the external runtimes it drives.
pub mod bootstrap;
pub mod engine;
pub mod hub;
pub mod kernel;
pub mod models;
pub mod runtime;
pub mod text;
