//! Correction rules: which phrases are wrong, and what to write instead.
//!
//! A rule bundles one or more groups under one name. A group lists wrong
//! phrases and right phrases. In a one-to-one group the wrong phrase at a
//! place is corrected by the right phrase at the same place and by no other;
//! in a many-to-many group every wrong phrase is corrected by all the right
//! phrases, in the order in which they were written.
//!
//! Rules are checked when they are made and never change afterwards.

use vstd::prelude::*;
use crate::error::RuleError;
use crate::phrase::{phrase_error, Phrase};

verus! {

/// How the wrong phrases of a group relate to its right phrases.
#[derive(Clone, Copy, Debug, PartialEq, Eq, Structural)]
pub enum CorrectionMode {
    /// The wrong phrase at place `i` is corrected by the right phrase at `i`.
    OneToOne,
    /// Every wrong phrase is corrected by every right phrase.
    ManyToMany,
}

/// A group of corrections, as the texts that were written down.
#[verifier::ext_equal]
pub struct GroupModel {
    pub bad: Seq<Seq<char>>,
    pub good: Seq<Seq<char>>,
    pub mode: CorrectionMode,
}

/// A rule, as the texts that were written down.
#[verifier::ext_equal]
pub struct RuleModel {
    pub name: Seq<char>,
    pub groups: Seq<GroupModel>,
    pub message: Seq<char>,
    pub description: Seq<char>,
}

/// The first error in a list of outcomes, if there is one.
pub open spec fn first_error(found: Seq<Option<RuleError>>) -> Option<RuleError>
    decreases found.len(),
{
    if found.len() == 0 {
        None
    } else {
        match first_error(found.drop_last()) {
            Some(e) => Some(e),
            None => found.last(),
        }
    }
}

/// Where no outcome is an error, there is no first error.
pub proof fn lemma_first_error_none(found: Seq<Option<RuleError>>)
    requires
        forall|i: int| 0 <= i < found.len() ==> found[i] is None,
    ensures
        first_error(found) is None,
    decreases found.len(),
{
    if found.len() > 0 {
        lemma_first_error_none(found.drop_last());
    }
}

/// The first error is the outcome at `k` where no outcome before `k` is an
/// error.
pub proof fn lemma_first_error_at(found: Seq<Option<RuleError>>, k: int)
    requires
        0 <= k < found.len(),
        found[k] is Some,
        forall|i: int| 0 <= i < k ==> found[i] is None,
    ensures
        first_error(found) == found[k],
    decreases found.len(),
{
    if k == found.len() - 1 {
        lemma_first_error_none(found.drop_last());
    } else {
        lemma_first_error_at(found.drop_last(), k);
    }
}

/// Where there is no first error, no outcome is an error.
pub proof fn lemma_first_error_none_means(found: Seq<Option<RuleError>>)
    requires
        first_error(found) is None,
    ensures
        forall|i: int| 0 <= i < found.len() ==> found[i] is None,
    decreases found.len(),
{
    if found.len() > 0 {
        let front = found.drop_last();
        lemma_first_error_none_means(front);
        assert forall|i: int| 0 <= i < found.len() implies found[i] is None by {
            if i < front.len() {
                assert(found[i] == front[i]);
            }
        }
    }
}

/// The first error among phrases written as `texts`.
pub open spec fn phrases_error(texts: Seq<Seq<char>>) -> Option<RuleError> {
    first_error(Seq::new(texts.len(), |i: int| phrase_error(texts[i])))
}

/// What is wrong with the make-up of a group whose phrases are in order.
pub open spec fn shape_error(g: GroupModel) -> Option<RuleError> {
    if g.bad.len() == 0 {
        Some(RuleError::NoBadPhrases)
    } else if g.good.len() == 0 {
        Some(RuleError::NoGoodPhrases)
    } else if g.mode == CorrectionMode::OneToOne && g.bad.len() != g.good.len() {
        Some(RuleError::ArityMismatch)
    } else {
        None
    }
}

/// What is wrong with a group, if anything: the first error among its wrong
/// phrases, else the first among its right phrases, else its make-up.
pub open spec fn group_error(g: GroupModel) -> Option<RuleError> {
    match phrases_error(g.bad) {
        Some(e) => Some(e),
        None => match phrases_error(g.good) {
            Some(e) => Some(e),
            None => shape_error(g),
        },
    }
}

/// The first error among groups.
pub open spec fn groups_error(groups: Seq<GroupModel>) -> Option<RuleError> {
    first_error(Seq::new(groups.len(), |i: int| group_error(groups[i])))
}

/// What is wrong with the groups of a rule, if anything: the first error
/// among them, or that there is none of them.
pub open spec fn rule_groups_error(groups: Seq<GroupModel>) -> Option<RuleError> {
    match groups_error(groups) {
        Some(e) => Some(e),
        None => if groups.len() == 0 {
            Some(RuleError::NoGroups)
        } else {
            None
        },
    }
}

/// What is wrong with a rule, if anything. Its name and what it tells the
/// writer are free.
pub open spec fn rule_error(r: RuleModel) -> Option<RuleError> {
    rule_groups_error(r.groups)
}

/// What a group proposes in place of its wrong phrase at place `b`.
pub open spec fn suggestions_for(g: GroupModel, b: int) -> Seq<Seq<char>> {
    match g.mode {
        CorrectionMode::OneToOne => seq![g.good[b]],
        CorrectionMode::ManyToMany => g.good,
    }
}

/// The texts of a sequence of string slices.
pub open spec fn strs(v: Seq<&str>) -> Seq<Seq<char>> {
    Seq::new(v.len(), |i: int| v[i]@)
}

/// The texts of a sequence of phrases.
pub open spec fn phrase_texts(v: Seq<Phrase>) -> Seq<Seq<char>> {
    Seq::new(v.len(), |i: int| v[i]@)
}

/// Every phrase of the sequence is well-formed.
pub open spec fn phrases_wf(v: Seq<Phrase>) -> bool {
    forall|i: int| 0 <= i < v.len() ==> (#[trigger] v[i]).wf()
}

/// The models of a sequence of groups.
pub open spec fn group_models(v: Seq<CorrectionGroup>) -> Seq<GroupModel> {
    Seq::new(v.len(), |i: int| v[i]@)
}

/// Every group of the sequence is well-formed.
pub open spec fn groups_wf(v: Seq<CorrectionGroup>) -> bool {
    forall|i: int| 0 <= i < v.len() ==> (#[trigger] v[i]).wf()
}

/// The group that a list of pairs stands for: the wrong phrase of each pair
/// with its one correction.
pub open spec fn pairs_model(pairs: Seq<(&str, &str)>) -> GroupModel {
    GroupModel {
        bad: Seq::new(pairs.len(), |i: int| pairs[i].0@),
        good: Seq::new(pairs.len(), |i: int| pairs[i].1@),
        mode: CorrectionMode::OneToOne,
    }
}

/// The groups that a list of sets stands for: the wrong phrases of each set
/// with all its corrections.
pub open spec fn sets_model(sets: Seq<(Seq<&str>, Seq<&str>)>) -> Seq<GroupModel> {
    Seq::new(
        sets.len(),
        |i: int|
            GroupModel {
                bad: strs(sets[i].0),
                good: strs(sets[i].1),
                mode: CorrectionMode::ManyToMany,
            },
    )
}

/// A list of sets as sequences.
pub open spec fn set_views<'a>(sets: Seq<(Vec<&'a str>, Vec<&'a str>)>) -> Seq<
    (Seq<&'a str>, Seq<&'a str>),
> {
    Seq::new(sets.len(), |i: int| (sets[i].0@, sets[i].1@))
}

/// The rule in which each wrong phrase has one correction: the pairs form
/// one one-to-one group.
pub open spec fn one_to_one_model(
    name: &str,
    pairs: Seq<(&str, &str)>,
    message: &str,
    description: &str,
) -> RuleModel {
    RuleModel {
        name: name@,
        groups: seq![pairs_model(pairs)],
        message: message@,
        description: description@,
    }
}

/// The rule of sets: each set is a many-to-many group of its own.
pub open spec fn many_to_many_model(
    name: &str,
    sets: Seq<(Seq<&str>, Seq<&str>)>,
    message: &str,
    description: &str,
) -> RuleModel {
    RuleModel {
        name: name@,
        groups: sets_model(sets),
        message: message@,
        description: description@,
    }
}

/// Pairs make a rule without error where there is a pair and none of the
/// phrases holds an error.
pub proof fn lemma_pairs_hold_no_error(pairs: Seq<(&str, &str)>)
    requires
        pairs.len() > 0,
        forall|i: int| 0 <= i < pairs.len() ==> phrase_error((#[trigger] pairs[i]).0@) is None,
        forall|i: int| 0 <= i < pairs.len() ==> phrase_error((#[trigger] pairs[i]).1@) is None,
    ensures
        rule_groups_error(seq![pairs_model(pairs)]) is None,
{
    let g = pairs_model(pairs);
    lemma_first_error_none(Seq::new(g.bad.len(), |i: int| phrase_error(g.bad[i])));
    lemma_first_error_none(Seq::new(g.good.len(), |i: int| phrase_error(g.good[i])));
    let groups = seq![g];
    lemma_first_error_none(Seq::new(groups.len(), |i: int| group_error(groups[i])));
}

/// Sets make a rule without error where there is a set, every set has a
/// wrong and a right phrase, and none of the phrases holds an error.
pub proof fn lemma_sets_hold_no_error(sets: Seq<(Seq<&str>, Seq<&str>)>)
    requires
        sets.len() > 0,
        forall|i: int|
            0 <= i < sets.len() ==> (#[trigger] sets[i]).0.len() > 0 && sets[i].1.len() > 0,
        forall|i: int, j: int|
            0 <= i < sets.len() && 0 <= j < sets[i].0.len() ==> phrase_error(
                (#[trigger] sets[i].0[j])@,
            ) is None,
        forall|i: int, j: int|
            0 <= i < sets.len() && 0 <= j < sets[i].1.len() ==> phrase_error(
                (#[trigger] sets[i].1[j])@,
            ) is None,
    ensures
        rule_groups_error(sets_model(sets)) is None,
{
    let groups = sets_model(sets);
    let found = Seq::new(groups.len(), |i: int| group_error(groups[i]));
    assert forall|i: int| 0 <= i < found.len() implies found[i] is None by {
        let g = groups[i];
        lemma_first_error_none(Seq::new(g.bad.len(), |j: int| phrase_error(g.bad[j])));
        lemma_first_error_none(Seq::new(g.good.len(), |j: int| phrase_error(g.good[j])));
    }
    lemma_first_error_none(found);
}

/// Well-formed phrases hold no error.
pub proof fn lemma_wf_phrases_hold_no_error(v: Seq<Phrase>)
    requires
        phrases_wf(v),
    ensures
        phrases_error(phrase_texts(v)) is None,
{
    let texts = phrase_texts(v);
    let found = Seq::new(texts.len(), |i: int| phrase_error(texts[i]));
    assert forall|i: int| 0 <= i < found.len() implies found[i] is None by {
        v[i].lemma_wf();
    }
    lemma_first_error_none(found);
}

/// A group of corrections.
#[derive(Debug)]
pub struct CorrectionGroup {
    bad: Vec<Phrase>,
    good: Vec<Phrase>,
    mode: CorrectionMode,
}

impl View for CorrectionGroup {
    type V = GroupModel;

    closed spec fn view(&self) -> GroupModel {
        GroupModel {
            bad: phrase_texts(self.bad@),
            good: phrase_texts(self.good@),
            mode: self.mode,
        }
    }
}

impl CorrectionGroup {
    /// The phrases are well-formed and the group holds no error.
    pub closed spec fn wf(&self) -> bool {
        &&& phrases_wf(self.bad@)
        &&& phrases_wf(self.good@)
        &&& group_error(self@) is None
    }

    /// A well-formed group holds no error.
    pub proof fn lemma_wf(&self)
        requires
            self.wf(),
        ensures
            group_error(self@) is None,
            shape_error(self@) is None,
            phrases_error(self@.bad) is None,
            phrases_error(self@.good) is None,
    {
    }

    /// Makes a group from its phrases. The group is turned down when a list
    /// is empty, or when the lists of a one-to-one group differ in length.
    pub fn new(bad: Vec<Phrase>, good: Vec<Phrase>, mode: CorrectionMode) -> (r: Result<
        CorrectionGroup,
        RuleError,
    >)
        requires
            phrases_wf(bad@),
            phrases_wf(good@),
        ensures
            match r {
                Ok(g) => {
                    &&& g.wf()
                    &&& g@ == (GroupModel {
                        bad: phrase_texts(bad@),
                        good: phrase_texts(good@),
                        mode,
                    })
                    &&& group_error(g@) is None
                },
                Err(e) => group_error(
                    GroupModel { bad: phrase_texts(bad@), good: phrase_texts(good@), mode },
                ) == Some(e),
            },
    {
        proof {
            lemma_wf_phrases_hold_no_error(bad@);
            lemma_wf_phrases_hold_no_error(good@);
        }
        if bad.len() == 0 {
            Err(RuleError::NoBadPhrases)
        } else if good.len() == 0 {
            Err(RuleError::NoGoodPhrases)
        } else if mode == CorrectionMode::OneToOne && bad.len() != good.len() {
            Err(RuleError::ArityMismatch)
        } else {
            Ok(CorrectionGroup { bad, good, mode })
        }
    }

    /// Makes a group from the texts of its phrases. The group is turned
    /// down with the first error among its wrong phrases, else the first
    /// among its right phrases, else for its make-up.
    pub fn from_texts(bad: &Vec<&str>, good: &Vec<&str>, mode: CorrectionMode) -> (r: Result<
        CorrectionGroup,
        RuleError,
    >)
        ensures
            match r {
                Ok(g) => {
                    &&& g.wf()
                    &&& g@ == (GroupModel { bad: strs(bad@), good: strs(good@), mode })
                    &&& group_error(g@) is None
                },
                Err(e) => group_error(GroupModel { bad: strs(bad@), good: strs(good@), mode })
                    == Some(e),
            },
    {
        let bad_phrases = match read_phrases(bad) {
            Ok(v) => v,
            Err(e) => {
                return Err(e);
            },
        };
        let good_phrases = match read_phrases(good) {
            Ok(v) => v,
            Err(e) => {
                return Err(e);
            },
        };
        CorrectionGroup::new(bad_phrases, good_phrases, mode)
    }

    /// How the wrong phrases relate to the right ones.
    pub fn mode(&self) -> (m: CorrectionMode)
        ensures
            m == self@.mode,
    {
        self.mode
    }

    /// The number of wrong phrases.
    pub fn bad_count(&self) -> (n: usize)
        ensures
            n == self@.bad.len(),
    {
        self.bad.len()
    }

    /// The number of right phrases.
    pub fn good_count(&self) -> (n: usize)
        ensures
            n == self@.good.len(),
    {
        self.good.len()
    }

    /// The wrong phrase at place `i`.
    pub fn bad_phrase(&self, i: usize) -> (p: &Phrase)
        requires
            self.wf(),
            i < self@.bad.len(),
        ensures
            p.wf(),
            p@ == self@.bad[i as int],
    {
        &self.bad[i]
    }

    /// The right phrase at place `i`.
    pub fn good_phrase(&self, i: usize) -> (p: &Phrase)
        requires
            self.wf(),
            i < self@.good.len(),
        ensures
            p.wf(),
            p@ == self@.good[i as int],
    {
        &self.good[i]
    }
}

/// Reads a list of phrases, up to the first that is turned down.
pub fn read_phrases(texts: &Vec<&str>) -> (r: Result<Vec<Phrase>, RuleError>)
    ensures
        match r {
            Ok(v) => {
                &&& phrases_wf(v@)
                &&& phrase_texts(v@) == strs(texts@)
                &&& phrases_error(strs(texts@)) is None
            },
            Err(e) => phrases_error(strs(texts@)) == Some(e),
        },
{
    let ghost found = Seq::new(texts.len() as nat, |i: int| phrase_error(strs(texts@)[i]));
    let mut out: Vec<Phrase> = Vec::new();
    let mut i: usize = 0;
    while i < texts.len()
        invariant
            i <= texts.len(),
            out.len() == i,
            phrases_wf(out@),
            found == Seq::new(texts.len() as nat, |i: int| phrase_error(strs(texts@)[i])),
            forall|j: int| 0 <= j < i ==> (#[trigger] out@[j])@ == texts@[j]@,
            forall|j: int| 0 <= j < i ==> found[j] is None,
        decreases texts.len() - i,
    {
        match Phrase::new(texts[i]) {
            Ok(p) => {
                out.push(p);
            },
            Err(e) => {
                proof {
                    lemma_first_error_at(found, i as int);
                }
                return Err(e);
            },
        }
        i += 1;
    }
    proof {
        lemma_first_error_none(found);
    }
    Ok(out)
}

/// A correction rule.
#[derive(Debug)]
pub struct CorrectionRule {
    name: String,
    groups: Vec<CorrectionGroup>,
    message: String,
    description: String,
}

impl View for CorrectionRule {
    type V = RuleModel;

    closed spec fn view(&self) -> RuleModel {
        RuleModel {
            name: self.name@,
            groups: group_models(self.groups@),
            message: self.message@,
            description: self.description@,
        }
    }
}

impl CorrectionRule {
    /// The groups are well-formed and the rule holds no error.
    pub closed spec fn wf(&self) -> bool {
        &&& groups_wf(self.groups@)
        &&& rule_error(self@) is None
    }

    /// A well-formed rule holds no error.
    pub proof fn lemma_wf(&self)
        requires
            self.wf(),
        ensures
            rule_error(self@) is None,
    {
    }

    /// Makes a rule from its groups. The rule is turned down when it has no
    /// group.
    pub fn new(name: &str, groups: Vec<CorrectionGroup>, message: &str, description: &str) -> (r:
        Result<CorrectionRule, RuleError>)
        requires
            groups_wf(groups@),
        ensures
            match r {
                Ok(rule) => {
                    &&& rule.wf()
                    &&& rule@ == (RuleModel {
                        name: name@,
                        groups: group_models(groups@),
                        message: message@,
                        description: description@,
                    })
                },
                Err(e) => e == RuleError::NoGroups && groups@.len() == 0,
            },
            r is Ok ==> rule_error(r.unwrap()@) is None,
    {
        if groups.len() == 0 {
            return Err(RuleError::NoGroups);
        }
        proof {
            let models = group_models(groups@);
            lemma_first_error_none(Seq::new(models.len(), |i: int| group_error(models[i])));
        }
        Ok(
            CorrectionRule {
                name: name.to_owned(),
                groups,
                message: message.to_owned(),
                description: description.to_owned(),
            },
        )
    }

    /// Makes a rule in which each wrong phrase has one correction: the pairs
    /// form one one-to-one group.
    pub fn one_to_one(name: &str, pairs: &Vec<(&str, &str)>, message: &str, description: &str) -> (r:
        Result<CorrectionRule, RuleError>)
        ensures
            match r {
                Ok(rule) => {
                    &&& rule.wf()
                    &&& rule@ == one_to_one_model(name, pairs@, message, description)
                    &&& rule_error(rule@) is None
                },
                Err(e) => rule_error(one_to_one_model(name, pairs@, message, description))
                    == Some(e),
            },
    {
        let mut bad: Vec<&str> = Vec::new();
        let mut good: Vec<&str> = Vec::new();
        let mut i: usize = 0;
        while i < pairs.len()
            invariant
                i <= pairs.len(),
                bad.len() == i,
                good.len() == i,
                forall|j: int| 0 <= j < i ==> bad@[j]@ == pairs@[j].0@,
                forall|j: int| 0 <= j < i ==> good@[j]@ == pairs@[j].1@,
            decreases pairs.len() - i,
        {
            bad.push(pairs[i].0);
            good.push(pairs[i].1);
            i += 1;
        }
        assert(strs(bad@) =~= pairs_model(pairs@).bad);
        assert(strs(good@) =~= pairs_model(pairs@).good);
        let group = match CorrectionGroup::from_texts(&bad, &good, CorrectionMode::OneToOne) {
            Ok(g) => g,
            Err(e) => {
                proof {
                    let models = seq![pairs_model(pairs@)];
                    let found = Seq::new(models.len(), |i: int| group_error(models[i]));
                    lemma_first_error_at(found, 0);
                }
                return Err(e);
            },
        };
        let mut groups: Vec<CorrectionGroup> = Vec::new();
        groups.push(group);
        match CorrectionRule::new(name, groups, message, description) {
            Ok(rule) => Ok(rule),
            Err(e) => Err(e),
        }
    }

    /// Makes a rule of sets: each set is a many-to-many group of its own.
    /// The rule is turned down with the first error among its sets, or for
    /// having none.
    pub fn many_to_many(
        name: &str,
        sets: &Vec<(Vec<&str>, Vec<&str>)>,
        message: &str,
        description: &str,
    ) -> (r: Result<CorrectionRule, RuleError>)
        ensures
            match r {
                Ok(rule) => {
                    &&& rule.wf()
                    &&& rule@ == many_to_many_model(name, set_views(sets@), message, description)
                    &&& rule_error(rule@) is None
                },
                Err(e) => rule_error(
                    many_to_many_model(name, set_views(sets@), message, description),
                ) == Some(e),
            },
    {
        let ghost models = sets_model(set_views(sets@));
        let ghost found = Seq::new(models.len(), |i: int| group_error(models[i]));
        let mut groups: Vec<CorrectionGroup> = Vec::new();
        let mut i: usize = 0;
        while i < sets.len()
            invariant
                i <= sets.len(),
                groups.len() == i,
                groups_wf(groups@),
                models == sets_model(set_views(sets@)),
                found == Seq::new(models.len(), |i: int| group_error(models[i])),
                forall|j: int| 0 <= j < i ==> (#[trigger] groups@[j])@ == models[j],
                forall|j: int| 0 <= j < i ==> found[j] is None,
            decreases sets.len() - i,
        {
            match CorrectionGroup::from_texts(&sets[i].0, &sets[i].1, CorrectionMode::ManyToMany) {
                Ok(g) => {
                    groups.push(g);
                },
                Err(e) => {
                    proof {
                        lemma_first_error_at(found, i as int);
                    }
                    return Err(e);
                },
            }
            i += 1;
        }
        match CorrectionRule::new(name, groups, message, description) {
            Ok(rule) => Ok(rule),
            Err(e) => Err(e),
        }
    }

    /// The name of the rule.
    pub fn name(&self) -> (r: &str)
        ensures
            r@ == self@.name,
    {
        self.name.as_str()
    }

    /// What the rule tells the writer.
    pub fn message(&self) -> (r: &str)
        ensures
            r@ == self@.message,
    {
        self.message.as_str()
    }

    /// What the rule is for.
    pub fn description(&self) -> (r: &str)
        ensures
            r@ == self@.description,
    {
        self.description.as_str()
    }

    /// The number of groups.
    pub fn group_count(&self) -> (n: usize)
        ensures
            n == self@.groups.len(),
    {
        self.groups.len()
    }

    /// The group at place `i`.
    pub fn group(&self, i: usize) -> (g: &CorrectionGroup)
        requires
            self.wf(),
            i < self@.groups.len(),
        ensures
            g.wf(),
            g@ == self@.groups[i as int],
    {
        &self.groups[i]
    }
}

} // verus!
