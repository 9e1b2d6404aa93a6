//! The registry: all rules of the library under their names, each switched
//! on or off.
//!
//! Rules are registered once, when the registry is set up; afterwards only
//! the switches change. A rule is on from the moment it is registered.
//! Linting runs every rule that is on over the same stream of tokens and
//! puts the findings one rule after the other, in the order in which the
//! rules were registered; the findings of one rule come in reading order.
//! Rules do not know of each other: where two of them find something in the
//! same tokens, both findings are reported.
//!
//! Switching takes the registry by `&mut`, linting by `&`: no switch moves
//! while a pass is under way, and any number of passes may read one registry
//! at a time.

use vstd::prelude::*;
use crate::error::RegistryError;
use crate::fold::{texts, views};
use crate::matcher::{fold_tokens, scan_model, PhraseMatcher};
use crate::rule::{rule_error, RuleModel};
use crate::token::{folded_texts, lint_models, Lint, LintModel, Token};

verus! {

/// A registered rule and its switch.
pub struct EntryModel {
    pub rule: RuleModel,
    pub enabled: bool,
}

/// Whether a rule of that name is registered.
pub open spec fn has_rule(entries: Seq<EntryModel>, name: Seq<char>) -> bool {
    exists|i: int| 0 <= i < entries.len() && (#[trigger] entries[i]).rule.name == name
}

/// No two registered rules have the same name.
pub open spec fn names_distinct(entries: Seq<EntryModel>) -> bool {
    forall|i: int, j: int|
        0 <= i < entries.len() && 0 <= j < entries.len() && i != j ==> (#[trigger] entries[i]).rule.name
            != (#[trigger] entries[j]).rule.name
}

/// The names of the registered rules, in the order of registration.
pub open spec fn rule_names(entries: Seq<EntryModel>) -> Seq<Seq<char>> {
    Seq::new(entries.len(), |i: int| entries[i].rule.name)
}

/// The registry with the rule of that name switched to `on`.
pub open spec fn with_flag(entries: Seq<EntryModel>, name: Seq<char>, on: bool) -> Seq<EntryModel> {
    Seq::new(
        entries.len(),
        |i: int|
            if entries[i].rule.name == name {
                EntryModel { rule: entries[i].rule, enabled: on }
            } else {
                entries[i]
            },
    )
}

/// The registry that holds the given rules, every one switched on.
pub open spec fn all_on(rules: Seq<RuleModel>) -> Seq<EntryModel> {
    Seq::new(rules.len(), |i: int| EntryModel { rule: rules[i], enabled: true })
}

/// The registry with every rule switched to `on`.
pub open spec fn with_all(entries: Seq<EntryModel>, on: bool) -> Seq<EntryModel> {
    Seq::new(entries.len(), |i: int| EntryModel { rule: entries[i].rule, enabled: on })
}

/// What one registered rule adds to the findings.
pub open spec fn entry_lints(entry: EntryModel, tokens: Seq<Token>) -> Seq<LintModel> {
    if entry.enabled {
        scan_model(entry.rule, tokens)
    } else {
        Seq::empty()
    }
}

/// The findings of a registry: those of each rule that is on, one rule
/// after the other in the order of registration.
pub open spec fn lint_model(entries: Seq<EntryModel>, tokens: Seq<Token>) -> Seq<LintModel>
    decreases entries.len(),
{
    if entries.len() == 0 {
        Seq::empty()
    } else {
        lint_model(entries.drop_last(), tokens) + entry_lints(entries.last(), tokens)
    }
}

/// The registry of rules.
#[derive(Debug)]
pub struct RuleGroup {
    names: Vec<String>,
    matchers: Vec<PhraseMatcher>,
    enabled: Vec<bool>,
}

impl View for RuleGroup {
    type V = Seq<EntryModel>;

    /// The registered rules with their switches, in the order of
    /// registration.
    closed spec fn view(&self) -> Seq<EntryModel> {
        Seq::new(
            self.matchers@.len(),
            |i: int| EntryModel { rule: self.matchers@[i]@, enabled: self.enabled@[i] },
        )
    }
}

impl RuleGroup {
    /// Every rule is ready for matching, is filed under its name and has a
    /// switch, and no two rules have the same name.
    pub closed spec fn wf(&self) -> bool {
        &&& self.matchers.len() == self.enabled.len()
        &&& self.matchers.len() == self.names.len()
        &&& forall|i: int| 0 <= i < self.matchers.len() ==> (#[trigger] self.matchers@[i]).wf()
        &&& forall|i: int|
            0 <= i < self.matchers.len() ==> (#[trigger] self.names@[i])@ == self.matchers@[i]@.name
        &&& names_distinct(self@)
    }

    /// In a well-formed registry no two rules have the same name, and no
    /// rule holds an error.
    pub proof fn lemma_wf(&self)
        requires
            self.wf(),
        ensures
            names_distinct(self@),
            forall|i: int| 0 <= i < self@.len() ==> rule_error((#[trigger] self@[i]).rule) is None,
    {
        assert forall|i: int| 0 <= i < self@.len() implies rule_error(
            (#[trigger] self@[i]).rule,
        ) is None by {
            self.matchers@[i].lemma_wf();
        }
    }

    /// A registry without rules.
    pub fn new() -> (g: RuleGroup)
        ensures
            g.wf(),
            g@ == Seq::<EntryModel>::empty(),
    {
        let g = RuleGroup { names: Vec::new(), matchers: Vec::new(), enabled: Vec::new() };
        g
    }

    /// The number of registered rules.
    pub fn len(&self) -> (n: usize)
        ensures
            n == self@.len(),
    {
        self.matchers.len()
    }

    /// The place of the rule of that name.
    fn find(&self, name: &String) -> (r: Option<usize>)
        requires
            self.wf(),
        ensures
            match r {
                Some(i) => i < self@.len() && self@[i as int].rule.name == name@,
                None => !has_rule(self@, name@),
            },
    {
        let mut i: usize = 0;
        while i < self.matchers.len()
            invariant
                self.wf(),
                i <= self.matchers.len(),
                forall|j: int| 0 <= j < i ==> (#[trigger] self@[j]).rule.name != name@,
            decreases self.matchers.len() - i,
        {
            if self.names[i] == *name {
                return Some(i);
            }
            i += 1;
        }
        None
    }

    /// Registers a rule under its name, switched on. A rule whose name is
    /// taken is turned down, and the registry stays as it was.
    pub fn register(&mut self, matcher: PhraseMatcher) -> (r: Result<(), RegistryError>)
        requires
            old(self).wf(),
            matcher.wf(),
        ensures
            final(self).wf(),
            match r {
                Ok(_) => {
                    &&& !has_rule(old(self)@, matcher@.name)
                    &&& final(self)@ == old(self)@.push(
                        EntryModel { rule: matcher@, enabled: true },
                    )
                },
                Err(e) => {
                    &&& e == RegistryError::DuplicateName
                    &&& has_rule(old(self)@, matcher@.name)
                    &&& final(self)@ == old(self)@
                },
            },
    {
        let name = matcher.rule().name().to_owned();
        match self.find(&name) {
            Some(i) => {
                Err(RegistryError::DuplicateName)
            },
            None => {
                self.names.push(name);
                self.matchers.push(matcher);
                self.enabled.push(true);
                assert(self@ =~= old(self)@.push(EntryModel { rule: matcher@, enabled: true }));
                Ok(())
            },
        }
    }

    /// Switches the rule of that name on or off. An unknown name is an
    /// error, and the registry stays as it was.
    pub fn set_enabled(&mut self, name: &str, on: bool) -> (r: Result<(), RegistryError>)
        requires
            old(self).wf(),
        ensures
            final(self).wf(),
            match r {
                Ok(_) => has_rule(old(self)@, name@) && final(self)@ == with_flag(
                    old(self)@,
                    name@,
                    on,
                ),
                Err(e) => {
                    &&& e == RegistryError::UnknownRule
                    &&& !has_rule(old(self)@, name@)
                    &&& final(self)@ == old(self)@
                },
            },
    {
        let wanted = name.to_owned();
        match self.find(&wanted) {
            Some(i) => {
                self.enabled.set(i, on);
                assert(self@ =~= with_flag(old(self)@, name@, on));
                Ok(())
            },
            None => Err(RegistryError::UnknownRule),
        }
    }

    /// Switches every rule on or off.
    pub fn set_all(&mut self, on: bool)
        requires
            old(self).wf(),
        ensures
            final(self).wf(),
            final(self)@ == with_all(old(self)@, on),
    {
        let mut i: usize = 0;
        while i < self.enabled.len()
            invariant
                self.matchers == old(self).matchers,
                self.names == old(self).names,
                self.enabled.len() == old(self).enabled.len(),
                self.matchers.len() == self.enabled.len(),
                i <= self.enabled.len(),
                forall|j: int| 0 <= j < i ==> self.enabled@[j] == on,
            decreases self.enabled.len() - i,
        {
            self.enabled.set(i, on);
            i += 1;
        }
        assert(self@ =~= with_all(old(self)@, on));
    }

    /// Whether the rule of that name is on; nothing for an unknown name.
    pub fn is_enabled(&self, name: &str) -> (r: Option<bool>)
        requires
            self.wf(),
        ensures
            match r {
                Some(on) => exists|i: int|
                    0 <= i < self@.len() && (#[trigger] self@[i]).rule.name == name@ && self@[i].enabled
                        == on,
                None => !has_rule(self@, name@),
            },
    {
        let wanted = name.to_owned();
        match self.find(&wanted) {
            Some(i) => Some(self.enabled[i]),
            None => None,
        }
    }

    /// The names of the registered rules, in the order of registration.
    pub fn names(&self) -> (out: Vec<String>)
        requires
            self.wf(),
        ensures
            texts(out@) == rule_names(self@),
    {
        let mut out: Vec<String> = Vec::new();
        let mut i: usize = 0;
        while i < self.matchers.len()
            invariant
                self.wf(),
                i <= self.matchers.len(),
                out.len() == i,
                forall|j: int| 0 <= j < i ==> (#[trigger] out@[j])@ == self@[j].rule.name,
            decreases self.matchers.len() - i,
        {
            out.push(self.names[i].clone());
            i += 1;
        }
        out
    }

    /// The findings of every rule that is on, one rule after the other in
    /// the order of registration. The registry is not changed.
    pub fn lint(&self, tokens: &Vec<Token>) -> (lints: Vec<Lint>)
        requires
            self.wf(),
        ensures
            lint_models(lints@) == lint_model(self@, tokens@),
    {
        let folded = fold_tokens(tokens);
        let mut out: Vec<Lint> = Vec::new();
        let mut i: usize = 0;
        while i < self.matchers.len()
            invariant
                self.wf(),
                views(folded@) == folded_texts(tokens@),
                i <= self.matchers.len(),
                lint_models(out@) == lint_model(self@.take(i as int), tokens@),
            decreases self.matchers.len() - i,
        {
            assert(self@.take(i + 1).drop_last() =~= self@.take(i as int));
            if self.enabled[i] {
                let mut found = self.matchers[i].scan_folded(tokens, &folded);
                out.append(&mut found);
            }
            i += 1;
        }
        assert(self@.take(i as int) =~= self@);
        out
    }
}

} // verus!
