use phrase_corrections::{
    CorrectionGroup, CorrectionMode, CorrectionRule, Phrase, PhraseMatcher, RegistryError,
    RuleError, RuleGroup,
};

fn words(phrase: &Phrase) -> Vec<String> {
    (0..phrase.word_count()).map(|i| phrase.word(i).iter().collect()).collect()
}

fn phrase(text: &str) -> Phrase {
    Phrase::new(text).unwrap()
}

#[test]
fn a_phrase_keeps_its_text_and_folds_its_words() {
    let p = phrase("Worse-Case scenario");
    assert_eq!(p.text(), "Worse-Case scenario");
    assert_eq!(p.word_count(), 4);
    assert_eq!(words(&p), vec!["worse", "-", "case", "scenario"]);
}

#[test]
fn blanks_part_words_and_are_no_words() {
    assert_eq!(words(&phrase("  hone   in on ")), vec!["hone", "in", "on"]);
    assert_eq!(words(&phrase("arg")), vec!["arg"]);
    assert_eq!(words(&phrase("how it look's like")), vec!["how", "it", "look's", "like"]);
    assert_eq!(words(&phrase("a - b")), vec!["a", "-", "b"]);
    assert_eq!(words(&phrase("--")), vec!["-", "-"]);
    assert_eq!(words(&phrase("Ünïcode Straße")), vec!["Ünïcode", "straße"]);
}

#[test]
fn a_phrase_without_words_is_turned_down() {
    assert_eq!(Phrase::new("").unwrap_err(), RuleError::EmptyPhrase);
    assert_eq!(Phrase::new("   ").unwrap_err(), RuleError::EmptyPhrase);
}

#[test]
fn a_phrase_of_more_than_five_words_is_turned_down() {
    assert_eq!(phrase("one two three four five").word_count(), 5);
    assert_eq!(Phrase::new("one two three four five six").unwrap_err(), RuleError::PhraseTooLong);
    assert_eq!(phrase("worse-case-scenario").word_count(), 5);
    assert_eq!(Phrase::new("a-b-c-d").unwrap_err(), RuleError::PhraseTooLong);
}

#[test]
fn a_group_needs_wrong_and_right_phrases() {
    let made = CorrectionGroup::new(vec![], vec![phrase("b")], CorrectionMode::ManyToMany);
    assert_eq!(made.unwrap_err(), RuleError::NoBadPhrases);
    let made = CorrectionGroup::new(vec![phrase("a")], vec![], CorrectionMode::ManyToMany);
    assert_eq!(made.unwrap_err(), RuleError::NoGoodPhrases);
    let made = CorrectionGroup::new(vec![], vec![], CorrectionMode::OneToOne);
    assert_eq!(made.unwrap_err(), RuleError::NoBadPhrases);
}

#[test]
fn a_one_to_one_group_needs_lists_of_one_length() {
    let made = CorrectionGroup::new(
        vec![phrase("a"), phrase("b")],
        vec![phrase("c")],
        CorrectionMode::OneToOne,
    );
    assert_eq!(made.unwrap_err(), RuleError::ArityMismatch);
    let made = CorrectionGroup::new(
        vec![phrase("a")],
        vec![phrase("c"), phrase("d")],
        CorrectionMode::OneToOne,
    );
    assert_eq!(made.unwrap_err(), RuleError::ArityMismatch);
    let made = CorrectionGroup::new(
        vec![phrase("a"), phrase("b")],
        vec![phrase("c")],
        CorrectionMode::ManyToMany,
    );
    let group = made.unwrap();
    assert_eq!(group.mode(), CorrectionMode::ManyToMany);
    assert_eq!(group.bad_count(), 2);
    assert_eq!(group.good_count(), 1);
    assert_eq!(group.bad_phrase(1).text(), "b");
    assert_eq!(group.good_phrase(0).text(), "c");
}

#[test]
fn a_group_from_texts_reports_the_first_error() {
    let made = CorrectionGroup::from_texts(
        &vec!["fine", "", "a b c d e f"],
        &vec!["a b c d e f"],
        CorrectionMode::ManyToMany,
    );
    assert_eq!(made.unwrap_err(), RuleError::EmptyPhrase);
    let made = CorrectionGroup::from_texts(
        &vec!["fine", "a b c d e f", ""],
        &vec![""],
        CorrectionMode::ManyToMany,
    );
    assert_eq!(made.unwrap_err(), RuleError::PhraseTooLong);
    let made = CorrectionGroup::from_texts(&vec!["fine"], &vec!["good", " "], CorrectionMode::OneToOne);
    assert_eq!(made.unwrap_err(), RuleError::EmptyPhrase);
    let made = CorrectionGroup::from_texts(&vec!["fine"], &vec!["a", "b"], CorrectionMode::OneToOne);
    assert_eq!(made.unwrap_err(), RuleError::ArityMismatch);
    let made = CorrectionGroup::from_texts(&vec![], &vec![""], CorrectionMode::OneToOne);
    assert_eq!(made.unwrap_err(), RuleError::EmptyPhrase);
    let made = CorrectionGroup::from_texts(&vec![], &vec![], CorrectionMode::OneToOne);
    assert_eq!(made.unwrap_err(), RuleError::NoBadPhrases);
    let made = CorrectionGroup::from_texts(&vec!["x"], &vec![], CorrectionMode::ManyToMany);
    assert_eq!(made.unwrap_err(), RuleError::NoGoodPhrases);
}

#[test]
fn a_rule_needs_a_group() {
    let made = CorrectionRule::new("Empty", vec![], "m", "d");
    assert_eq!(made.unwrap_err(), RuleError::NoGroups);
    let made = CorrectionRule::many_to_many("Empty", &vec![], "m", "d");
    assert_eq!(made.unwrap_err(), RuleError::NoGroups);
    let made = CorrectionRule::one_to_one("Empty", &vec![], "m", "d");
    assert_eq!(made.unwrap_err(), RuleError::NoBadPhrases);
}

#[test]
fn a_rule_keeps_what_it_was_given() {
    let group = CorrectionGroup::from_texts(&vec!["a b"], &vec!["A", "B"], CorrectionMode::ManyToMany);
    let rule = CorrectionRule::new("Name", vec![group.unwrap()], "the message", "the purpose").unwrap();
    assert_eq!(rule.name(), "Name");
    assert_eq!(rule.message(), "the message");
    assert_eq!(rule.description(), "the purpose");
    assert_eq!(rule.group_count(), 1);
    assert_eq!(rule.group(0).good_phrase(1).text(), "B");
}

#[test]
fn pairs_make_one_group_of_partners() {
    let rule = CorrectionRule::one_to_one(
        "Pairs",
        &vec![("first bad", "First Good"), ("second bad", "Second Good")],
        "m",
        "d",
    )
    .unwrap();
    assert_eq!(rule.group_count(), 1);
    let group = rule.group(0);
    assert_eq!(group.mode(), CorrectionMode::OneToOne);
    assert_eq!(group.bad_count(), 2);
    assert_eq!(group.good_count(), 2);
    assert_eq!(group.bad_phrase(1).text(), "second bad");
    assert_eq!(group.good_phrase(1).text(), "Second Good");
    assert_eq!(words(group.good_phrase(1)), vec!["second", "good"]);
}

#[test]
fn pairs_report_the_first_error() {
    let made = CorrectionRule::one_to_one("P", &vec![("ok", "a b c d e f"), ("", "x")], "m", "d");
    assert_eq!(made.unwrap_err(), RuleError::EmptyPhrase);
    let made = CorrectionRule::one_to_one("P", &vec![("ok", "a b c d e f"), ("x", "")], "m", "d");
    assert_eq!(made.unwrap_err(), RuleError::PhraseTooLong);
}

#[test]
fn sets_make_a_group_each() {
    let rule = CorrectionRule::many_to_many(
        "Sets",
        &vec![(vec!["a", "b", "c"], vec!["x"]), (vec!["d"], vec!["y", "z"])],
        "m",
        "d",
    )
    .unwrap();
    assert_eq!(rule.group_count(), 2);
    assert_eq!(rule.group(0).mode(), CorrectionMode::ManyToMany);
    assert_eq!(rule.group(0).bad_count(), 3);
    assert_eq!(rule.group(1).good_count(), 2);
    assert_eq!(rule.group(1).good_phrase(1).text(), "z");
}

#[test]
fn sets_report_the_first_error() {
    let made = CorrectionRule::many_to_many(
        "S",
        &vec![(vec!["a"], vec!["x"]), (vec!["b"], vec![]), (vec![""], vec!["y"])],
        "m",
        "d",
    );
    assert_eq!(made.unwrap_err(), RuleError::NoGoodPhrases);
    let made = CorrectionRule::many_to_many(
        "S",
        &vec![(vec!["a"], vec!["x"]), (vec![], vec![""]), (vec!["b"], vec![])],
        "m",
        "d",
    );
    assert_eq!(made.unwrap_err(), RuleError::EmptyPhrase);
    let made = CorrectionRule::many_to_many("S", &vec![(vec![], vec!["x"])], "m", "d");
    assert_eq!(made.unwrap_err(), RuleError::NoBadPhrases);
}

fn matcher(name: &str, bad: &str, good: &str) -> PhraseMatcher {
    PhraseMatcher::new(CorrectionRule::one_to_one(name, &vec![(bad, good)], "m", "d").unwrap())
}

#[test]
fn a_name_is_registered_once() {
    let mut group = RuleGroup::new();
    assert_eq!(group.len(), 0);
    assert_eq!(group.register(matcher("One", "a", "b")), Ok(()));
    assert_eq!(group.register(matcher("Two", "a", "c")), Ok(()));
    assert_eq!(group.register(matcher("One", "x", "y")), Err(RegistryError::DuplicateName));
    assert_eq!(group.len(), 2);
    assert_eq!(group.names(), vec!["One".to_string(), "Two".to_string()]);
    assert_eq!(group.register(matcher("one", "x", "y")), Ok(()));
    assert_eq!(group.len(), 3);
}

#[test]
fn a_rule_is_on_when_it_is_registered() {
    let mut group = RuleGroup::new();
    assert_eq!(group.is_enabled("One"), None);
    group.register(matcher("One", "a", "b")).unwrap();
    assert_eq!(group.is_enabled("One"), Some(true));
    group.set_all(false);
    group.register(matcher("Two", "c", "d")).unwrap();
    assert_eq!(group.is_enabled("One"), Some(false));
    assert_eq!(group.is_enabled("Two"), Some(true));
}

#[test]
fn a_registry_without_rules_finds_nothing_and_knows_no_name() {
    let mut group = RuleGroup::new();
    assert_eq!(group.set_enabled("Any", true), Err(RegistryError::UnknownRule));
    group.set_all(true);
    assert_eq!(group.len(), 0);
    assert!(group.names().is_empty());
    let tokens = vec![phrase_corrections::Token::new("a", 0, 1)];
    assert!(group.lint(&tokens).is_empty());
}

#[test]
fn a_matcher_keeps_its_rule() {
    let m = matcher("Kept", "a b", "c");
    assert_eq!(m.rule().name(), "Kept");
    assert_eq!(m.rule().group(0).bad_phrase(0).text(), "a b");
}
