use phrase_corrections::{lint_group, Lint, RegistryError, RuleGroup, Span, Token};

/// Words and hyphens of a text as tokens, with their places in the text.
fn tokenize(text: &str) -> Vec<Token> {
    let mut out = Vec::new();
    let mut word = String::new();
    let mut start = 0;
    for (at, c) in text.chars().enumerate() {
        if c == ' ' || c == '-' {
            if !word.is_empty() {
                out.push(Token::new(&word, start, at));
                word.clear();
            }
            if c == '-' {
                out.push(Token::new("-", at, at + 1));
            }
            start = at + 1;
        } else {
            word.push(c);
        }
    }
    if !word.is_empty() {
        out.push(Token::new(&word, start, text.chars().count()));
    }
    out
}

fn lint(group: &RuleGroup, text: &str) -> Vec<Lint> {
    group.lint(&tokenize(text))
}

fn strings(items: &[&str]) -> Vec<String> {
    items.iter().map(|s| s.to_string()).collect()
}

const ONE_TO_ONE: &[(&str, &[(&str, &str)])] = &[
    ("Ado", &[("further adieu", "further ado"), ("much adieu", "much ado")]),
    ("ClientOrServerSide", &[("client's side", "client-side"), ("server's side", "server-side")]),
    (
        "DefiniteArticle",
        &[("definitive article", "definite article"), ("definitive articles", "definite articles")],
    ),
    (
        "Discuss",
        &[
            ("discuss about", "discuss"),
            ("discussed about", "discussed"),
            ("discusses about", "discusses"),
            ("discussing about", "discussing"),
        ],
    ),
    ("ExpandArgument", &[("arg", "argument"), ("args", "arguments")]),
    ("ExpandDependencies", &[("deps", "dependencies"), ("dep", "dependency")]),
    (
        "ExpandStandardInputAndOutput",
        &[("stdin", "standard input"), ("stdout", "standard output"), ("stderr", "standard error")],
    ),
    (
        "ExplanationMark",
        &[
            ("explanation mark", "exclamation mark"),
            ("explanation marks", "exclamation marks"),
            ("explanation point", "exclamation point"),
        ],
    ),
    (
        "HaveGone",
        &[
            ("had went", "had gone"),
            ("has went", "has gone"),
            ("have went", "have gone"),
            ("having went", "having gone"),
        ],
    ),
    (
        "HavePassed",
        &[
            ("had past", "had passed"),
            ("has past", "has passed"),
            ("have past", "have passed"),
            ("having past", "having passed"),
        ],
    ),
    (
        "HomeInOn",
        &[
            ("hone in on", "home in on"),
            ("honed in on", "homed in on"),
            ("hones in on", "homes in on"),
            ("honing in on", "homing in on"),
        ],
    ),
    ("InDetail", &[("in details", "in detail"), ("in more details", "in more detail")]),
    (
        "InvestIn",
        &[
            ("invest into", "invest in"),
            ("invested into", "invested in"),
            ("investing into", "investing in"),
            ("invests into", "invests in"),
        ],
    ),
    ("MootPoint", &[("mute point", "moot point"), ("point is mute", "point is moot")]),
    (
        "OperatingSystem",
        &[("operative system", "operating system"), ("operative systems", "operating systems")],
    ),
    (
        "Piggyback",
        &[
            ("piggy bag", "piggyback"),
            ("piggy bagged", "piggybacked"),
            ("piggy bagging", "piggybacking"),
        ],
    ),
];

const MANY_TO_MANY: &[(&str, &[(&[&str], &[&str])])] = &[
    (
        "ChangeTack",
        &[
            (&["change tact", "change tacks", "change tacts"], &["change tack"]),
            (&["changed tact", "changed tacks", "changed tacts"], &["changed tack"]),
            (&["changes tact", "changes tacks", "changes tacts"], &["changes tack"]),
            (&["changing tact", "changing tacks", "changing tacts"], &["changing tack"]),
            (&["change of tact", "change of tacks", "change of tacts"], &["change of tack"]),
            (&["changes of tact", "changes of tacks", "changes of tacts"], &["changes of tack"]),
            (&["changing of tact", "changing of tacks", "changing of tacts"], &["changing of tack"]),
        ],
    ),
    (
        "GetRidOf",
        &[
            (&["get rid off", "get ride of", "get ride off"], &["get rid of"]),
            (&["gets rid off", "gets ride of", "gets ride off"], &["gets rid of"]),
            (&["getting rid off", "getting ride of", "getting ride off"], &["getting rid of"]),
            (&["got rid off", "got ride of", "got ride off"], &["got rid of"]),
            (&["gotten rid off", "gotten ride of", "gotten ride off"], &["gotten rid of"]),
        ],
    ),
    (
        "HowItLooksLike",
        &[
            (&["how he looks like"], &["how he looks", "what he looks like"]),
            (
                &["how it looks like", "how it look like", "how it look's like"],
                &["how it looks", "what it looks like"],
            ),
            (&["how she looks like"], &["how she looks", "what she looks like"]),
            (&["how they look like", "how they looks like"], &["how they look", "what they look like"]),
        ],
    ),
    (
        "RiseTheQuestion",
        &[
            (&["rise the question"], &["raise the question"]),
            (&["rises the question"], &["raises the question"]),
        ],
    ),
    (
        "WholeEntire",
        &[(&["whole entire"], &["whole", "entire"]), (&["a whole entire"], &["a whole", "an entire"])],
    ),
    (
        "WorseOrWorst",
        &[
            (&["a lot worst", "alot worst"], &["a lot worse"]),
            (&["far worst"], &["far worse"]),
            (&["much worst"], &["much worse"]),
            (&["turn for the worst"], &["turn for the worse"]),
            (&["worst and worst", "worse and worst", "worst and worse"], &["worse and worse"]),
            (&["worst than"], &["worse than"]),
            (
                &["worse case scenario", "worse-case scenario", "worse-case-scenario"],
                &["worst-case scenario"],
            ),
            (&["worse ever"], &["worst ever"]),
        ],
    ),
];

/// What the registry must report for a wrong phrase that is given alone.
fn assert_found_alone(group: &RuleGroup, rule: &str, bad: &str, good: &[&str]) {
    let tokens = tokenize(bad);
    let lints = group.lint(&tokens);
    assert_eq!(lints.len(), 1, "{bad}");
    let found = &lints[0];
    assert_eq!(found.rule_name, rule, "{bad}");
    assert_eq!(found.matched_text, bad);
    assert_eq!(found.suggestions, strings(good), "{bad}");
    assert_eq!(found.tokens, Span { start: 0, end: tokens.len() }, "{bad}");
    assert_eq!(found.span, Span { start: 0, end: bad.chars().count() }, "{bad}");
}

#[test]
fn every_wrong_phrase_alone_is_found_once_with_its_corrections() {
    let group = lint_group();
    let mut phrases = 0;
    for (rule, pairs) in ONE_TO_ONE {
        for (bad, good) in pairs.iter() {
            assert_found_alone(&group, rule, bad, &[good]);
            phrases += 1;
        }
    }
    for (rule, sets) in MANY_TO_MANY {
        for (bad_list, good_list) in sets.iter() {
            for bad in bad_list.iter() {
                assert_found_alone(&group, rule, bad, good_list);
                phrases += 1;
            }
        }
    }
    assert_eq!(phrases, 105);
}

#[test]
fn every_wrong_phrase_is_found_in_capitals_too() {
    let group = lint_group();
    for (rule, pairs) in ONE_TO_ONE {
        for (bad, good) in pairs.iter() {
            let lints = lint(&group, &bad.to_uppercase());
            assert_eq!(lints.len(), 1, "{bad}");
            assert_eq!(lints[0].rule_name, *rule);
            assert_eq!(lints[0].suggestions, strings(&[good]));
            assert_eq!(lints[0].matched_text, *bad);
        }
    }
}

#[test]
fn the_stock_rules_are_registered_in_order_and_switched_on() {
    let group = lint_group();
    let expected: Vec<String> = ONE_TO_ONE
        .iter()
        .map(|r| r.0.to_string())
        .chain(MANY_TO_MANY.iter().map(|r| r.0.to_string()))
        .collect();
    assert_eq!(group.len(), 22);
    assert_eq!(group.names(), expected);
    for name in &expected {
        assert_eq!(group.is_enabled(name), Some(true), "{name}");
    }
    assert_eq!(group.is_enabled("Adieu"), None);
}

#[test]
fn one_to_one_proposes_the_partner_only() {
    let group = lint_group();
    let lints = lint(&group, "we discuss about it");
    assert_eq!(lints.len(), 1);
    assert_eq!(lints[0].suggestions, strings(&["discuss"]));
    let lints = lint(&group, "we discussed about it");
    assert_eq!(lints.len(), 1);
    assert_eq!(lints[0].suggestions, strings(&["discussed"]));
    assert!(!lints[0].suggestions.contains(&"discuss".to_string()));
}

#[test]
fn many_to_many_proposes_all_in_written_order() {
    let group = lint_group();
    let lints = lint(&group, "how it look like");
    assert_eq!(lints.len(), 1);
    assert_eq!(lints[0].suggestions, strings(&["how it looks", "what it looks like"]));
    assert_eq!(lints[0].rule_name, "HowItLooksLike");
    let other = lint(&group, "how it look's like");
    assert_eq!(other[0].suggestions, lints[0].suggestions);
}

#[test]
fn capitals_give_the_same_finding() {
    let group = lint_group();
    let upper = lint(&group, "HONE IN ON");
    let lower = lint(&group, "hone in on");
    assert_eq!(upper.len(), 1);
    assert_eq!(upper, lower);
    assert_eq!(upper[0].suggestions, strings(&["home in on"]));
    assert_eq!(upper[0].matched_text, "hone in on");
    assert_eq!(upper[0].tokens, Span { start: 0, end: 3 });
    assert_eq!(upper[0].span, Span { start: 0, end: 10 });
    let mixed = lint(&group, "Hone In oN");
    assert_eq!(mixed, lower);
}

#[test]
fn the_longer_phrase_wins() {
    let group = lint_group();
    let lints = lint(&group, "a whole entire");
    assert_eq!(lints.len(), 1);
    assert_eq!(lints[0].suggestions, strings(&["a whole", "an entire"]));
    assert_eq!(lints[0].matched_text, "a whole entire");
    assert_eq!(lints[0].tokens, Span { start: 0, end: 3 });
    let lints = lint(&group, "the whole entire day");
    assert_eq!(lints.len(), 1);
    assert_eq!(lints[0].suggestions, strings(&["whole", "entire"]));
    assert_eq!(lints[0].tokens, Span { start: 1, end: 3 });
    assert_eq!(lints[0].span, Span { start: 4, end: 16 });
}

#[test]
fn the_longer_phrase_wins_whatever_the_order_in_the_table() {
    let group = lint_group();
    let lints = lint(&group, "go in more details");
    assert_eq!(lints.len(), 1);
    assert_eq!(lints[0].suggestions, strings(&["in more detail"]));
    let lints = lint(&group, "the deps changed");
    assert_eq!(lints[0].suggestions, strings(&["dependencies"]));
    let lints = lint(&group, "the dep changed");
    assert_eq!(lints[0].suggestions, strings(&["dependency"]));
    let lints = lint(&group, "he piggy bagged on it");
    assert_eq!(lints.len(), 1);
    assert_eq!(lints[0].suggestions, strings(&["piggybacked"]));
}

#[test]
fn a_switched_off_rule_finds_nothing_and_the_others_go_on() {
    let mut group = lint_group();
    let text = "without further adieu we discuss about the whole entire plan";
    let before = lint(&group, text);
    assert_eq!(before.len(), 3);
    assert_eq!(group.set_enabled("Discuss", false), Ok(()));
    assert_eq!(group.is_enabled("Discuss"), Some(false));
    let after = lint(&group, text);
    let kept: Vec<Lint> = before.iter().filter(|l| l.rule_name != "Discuss").cloned().collect();
    assert_eq!(after, kept);
    assert_eq!(after.len(), 2);
    assert!(after.iter().all(|l| l.rule_name != "Discuss"));
    assert_eq!(group.set_enabled("Discuss", true), Ok(()));
    assert_eq!(lint(&group, text), before);
}

#[test]
fn switching_an_unknown_rule_is_an_error() {
    let mut group = lint_group();
    assert_eq!(group.set_enabled("Discus", false), Err(RegistryError::UnknownRule));
    assert_eq!(group.set_enabled("discuss", false), Err(RegistryError::UnknownRule));
    let lints = lint(&group, "we discuss about it");
    assert_eq!(lints.len(), 1);
}

#[test]
fn all_rules_can_be_switched_at_once() {
    let mut group = lint_group();
    let text = "much adieu about a mute point";
    assert_eq!(lint(&group, text).len(), 2);
    group.set_all(false);
    assert_eq!(lint(&group, text), Vec::new());
    assert_eq!(group.is_enabled("Ado"), Some(false));
    assert_eq!(group.is_enabled("WorseOrWorst"), Some(false));
    assert_eq!(group.set_enabled("MootPoint", true), Ok(()));
    let only = lint(&group, text);
    assert_eq!(only.len(), 1);
    assert_eq!(only[0].rule_name, "MootPoint");
    group.set_all(true);
    assert_eq!(lint(&group, text).len(), 2);
    assert_eq!(group.len(), 22);
}

#[test]
fn linting_twice_gives_the_same() {
    let group = lint_group();
    let tokens = tokenize("He has went far worst and honed in on a mute point");
    let first = group.lint(&tokens);
    let second = group.lint(&tokens);
    assert_eq!(first, second);
    assert_eq!(first.len(), 4);
}

#[test]
fn parts_of_words_and_other_words_are_not_found() {
    let group = lint_group();
    assert_eq!(lint(&group, "piggy bags"), Vec::new());
    assert_eq!(lint(&group, "piggy"), Vec::new());
    assert_eq!(lint(&group, "bag"), Vec::new());
    assert_eq!(lint(&group, "piggybag"), Vec::new());
    assert_eq!(lint(&group, "a piggy in a bag"), Vec::new());
    assert_eq!(lint(&group, "guinea piggy bag").len(), 1);
    assert_eq!(lint(&group, "spiggy bag"), Vec::new());
    assert_eq!(lint(&group, "args"), lint(&group, "ARGS"));
    assert_eq!(lint(&group, "argss"), Vec::new());
    assert_eq!(lint(&group, "in detail"), Vec::new());
}

#[test]
fn an_empty_stream_has_no_findings() {
    let group = lint_group();
    assert_eq!(group.lint(&Vec::new()), Vec::new());
    assert_eq!(lint(&group, "nothing wrong in this sentence"), Vec::new());
}

#[test]
fn findings_come_rule_by_rule_then_in_reading_order() {
    let group = lint_group();
    // `HaveGone` is registered after `Ado` and before `WorseOrWorst`.
    let text = "far worst he has went with much adieu and had went with further adieu";
    let lints = lint(&group, text);
    let order: Vec<(&str, usize)> =
        lints.iter().map(|l| (l.rule_name.as_str(), l.tokens.start)).collect();
    assert_eq!(
        order,
        vec![("Ado", 6), ("Ado", 12), ("HaveGone", 3), ("HaveGone", 9), ("WorseOrWorst", 0)]
    );
}

#[test]
fn a_finding_says_where_and_why() {
    let group = lint_group();
    let lints = lint(&group, "We should discuss about it");
    assert_eq!(
        lints,
        vec![Lint {
            tokens: Span { start: 2, end: 4 },
            span: Span { start: 10, end: 23 },
            matched_text: "discuss about".to_string(),
            rule_name: "Discuss".to_string(),
            message: "`About` is redundant".to_string(),
            suggestions: strings(&["discuss"]),
        }]
    );
}

#[test]
fn hyphens_are_tokens_and_apostrophes_are_letters() {
    let group = lint_group();
    let lints = lint(&group, "the worse-case scenario");
    assert_eq!(lints.len(), 1);
    assert_eq!(lints[0].matched_text, "worse-case scenario");
    assert_eq!(lints[0].suggestions, strings(&["worst-case scenario"]));
    assert_eq!(lints[0].tokens, Span { start: 1, end: 5 });
    assert_eq!(lints[0].span, Span { start: 4, end: 23 });
    let lints = lint(&group, "a worse-case-scenario");
    assert_eq!(lints[0].matched_text, "worse-case-scenario");
    assert_eq!(lints[0].tokens, Span { start: 1, end: 6 });
    let lints = lint(&group, "on the Client's side");
    assert_eq!(lints.len(), 1);
    assert_eq!(lints[0].suggestions, strings(&["client-side"]));
    assert_eq!(lint(&group, "on the client s side"), Vec::new());
    assert_eq!(lint(&group, "worse case-scenario"), Vec::new());
}

#[test]
fn the_spelling_of_a_correction_is_the_rules_own() {
    let group = lint_group();
    let lints = lint(&group, "HOW IT LOOKS LIKE");
    assert_eq!(lints[0].suggestions, strings(&["how it looks", "what it looks like"]));
    let lints = lint(&group, "Much Adieu");
    assert_eq!(lints[0].suggestions, strings(&["much ado"]));
}

#[test]
fn findings_of_one_rule_share_no_token() {
    let group = lint_group();
    let lints = lint(&group, "discuss about discuss about discussed about");
    let ranges: Vec<Span> = lints.iter().map(|l| l.tokens).collect();
    assert_eq!(
        ranges,
        vec![Span { start: 0, end: 2 }, Span { start: 2, end: 4 }, Span { start: 4, end: 6 }]
    );
    let lints = lint(&group, "worst and worst and worst");
    assert_eq!(lints.len(), 1);
    assert_eq!(lints[0].tokens, Span { start: 0, end: 3 });
    let lints = lint(&group, "worst and worse and worst than");
    let ranges: Vec<Span> = lints.iter().map(|l| l.tokens).collect();
    assert_eq!(ranges, vec![Span { start: 0, end: 3 }, Span { start: 4, end: 6 }]);
}

#[test]
fn the_messages_of_the_stock_rules() {
    let group = lint_group();
    let lints = lint(&group, "stdin");
    assert_eq!(
        lints[0].message,
        "Use `standard input`, `standard output`, and `standard error` instead of `stdin`, `stdout`, and `stderr`"
    );
    let lints = lint(&group, "turn for the worst");
    assert_eq!(lints[0].message, "`Worse` is for comparing and `worst` is for the extreme case.");
    assert_eq!(lints[0].suggestions, strings(&["turn for the worse"]));
}
