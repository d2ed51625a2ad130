//! External inference engines (ollama, llama.cpp's `llama-server`, LM
//! Studio) driven as integrations: what differs between them is a row of
//! data, and the code that finds, starts, stops and talks to them is
//! written once.
pub mod deps;
pub mod json;
pub mod logic;
pub mod service;
pub mod stream;
