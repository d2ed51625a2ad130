//! Where models come from: what a model ref means, which GGUF to take from
//! a repository, and the catalogue decisions of the models directory.
pub mod logic;
pub mod remote;
pub mod service;
