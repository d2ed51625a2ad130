//! The types every layer names: the error, the cancellation flag, chat
//! messages, model refs and generation accounting.
pub mod cancel;
pub mod chat;
pub mod error;
pub mod generation;
pub mod model_ref;
