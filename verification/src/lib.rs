//! Configuration resolution and provider abstraction for a command-line
//! LLM client.
//!
//! The crate owns the persisted configuration document, the rules that merge
//! it with command-line overrides into a validated runtime configuration, and
//! the plain-value model of a chat-completion request and response.  All of
//! it is verified; the surrounding process (argument parsing, file and
//! network I/O, logging) lives outside the library and talks to it through
//! plain values.

pub mod args;
pub mod configs;
pub mod logging;
pub mod persona;
pub mod prompts;
pub mod provider;
pub mod providers;

pub use persona::Persona;
pub use provider::Provider;
