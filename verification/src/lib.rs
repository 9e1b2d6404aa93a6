//! Phrase-level corrections for a prose linter.
//!
//! A [`CorrectionRule`] names a family of wrong phrases and what to write
//! instead. A [`PhraseMatcher`] finds a rule's wrong phrases in a stream of
//! tokens, and a [`RuleGroup`] runs every rule that is switched on and gathers
//! the [`Lint`]s. [`lint_group`] builds the stock set of rules.
//!
//! Every function is verified against the mathematical model of the data it
//! works on; the module `laws` states what follows for users of the library.

pub mod catalog;
pub mod error;
pub mod fold;
pub mod laws;
pub mod matcher;
pub mod phrase;
pub mod registry;
pub mod rule;
pub mod token;

pub use catalog::lint_group;
pub use error::{RegistryError, RuleError};
pub use matcher::PhraseMatcher;
pub use phrase::Phrase;
pub use registry::RuleGroup;
pub use rule::{CorrectionGroup, CorrectionMode, CorrectionRule};
pub use token::{Lint, Span, Token};
