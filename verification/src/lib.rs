//! A registry of priced prompts: identified owners publish prompts, and
//! anyone may list everything that was published.
//!
//! [`PromptStore`] owns the table of prompts and the counter that allocates
//! their identifiers. It performs no I/O and knows nothing of how a caller was
//! authenticated: the owner of a new prompt is handed in as text.

pub mod history;
pub mod model;
pub mod prompt;
pub mod store;

pub use prompt::Prompt;
pub use store::PromptStore;
