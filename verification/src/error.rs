//! What can be wrong with a rule as it was written down, or with a request
//! made of a registry.

use vstd::prelude::*;

verus! {

/// The reason why a phrase, a group of corrections or a rule was turned down.
#[derive(Clone, Copy, Debug, PartialEq, Eq, Structural)]
pub enum RuleError {
    /// The phrase holds no word at all.
    EmptyPhrase,
    /// The phrase holds more words than a phrase may have.
    PhraseTooLong,
    /// A group of corrections lists no wrong phrase.
    NoBadPhrases,
    /// A group of corrections lists no right phrase.
    NoGoodPhrases,
    /// A one-to-one group has not as many right phrases as wrong ones.
    ArityMismatch,
    /// A rule holds no group of corrections.
    NoGroups,
}

/// The reason why a registry refused a request.
#[derive(Clone, Copy, Debug, PartialEq, Eq, Structural)]
pub enum RegistryError {
    /// A rule of that name is registered already.
    DuplicateName,
    /// No rule of that name is registered.
    UnknownRule,
}

} // verus!
