//! Concrete LLM backends, modelled as plain request and response values; the
//! network transport around them lives outside the library.

pub mod helpers;
pub mod open_router;
pub mod openai;

pub use open_router::OpenRouter;
