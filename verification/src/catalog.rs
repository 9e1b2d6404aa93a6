//! The stock rules: the wrong phrases that the library knows, and their
//! corrections.
//!
//! Each rule is written down twice. Its model says which rule it is; the
//! function beside it builds the rule, and is proved to build that one and to
//! be free of errors. So a slip in the table shows when the library is
//! verified, not when it is used. For that the verifier has to read the
//! phrases, which is why each of them is named once more in the proof.

use vstd::prelude::*;
use crate::matcher::PhraseMatcher;
use crate::phrase::words_from;
use crate::registry::{all_on, has_rule, EntryModel, RuleGroup};
use crate::rule::{
    lemma_pairs_hold_no_error,
    lemma_sets_hold_no_error,
    many_to_many_model,
    one_to_one_model,
    set_views,
    CorrectionRule,
    RuleModel,
};

verus! {

/// `adieu` written for `ado`.
pub open spec fn ado() -> RuleModel {
    one_to_one_model(
        "Ado",
        seq![
            ("further adieu", "further ado"),
            ("much adieu", "much ado"),
        ],
        "Don't confuse the French/German `adieu`, meaning `farewell`, with the English `ado`, meaning `fuss`.",
        "Corrects `adieu` to `ado`.",
    )
}

/// Builds the rule `Ado`.
fn ado_rule() -> (rule: CorrectionRule)
    ensures
        rule.wf(),
        rule@ == ado(),
{
    let pairs = vec![
        ("further adieu", "further ado"),
        ("much adieu", "much ado"),
    ];
    proof {
        reveal_with_fuel(words_from, 24);
        reveal_strlit("further adieu");
        reveal_strlit("further ado");
        reveal_strlit("much adieu");
        reveal_strlit("much ado");
        lemma_pairs_hold_no_error(pairs@);
    }
    let rule = CorrectionRule::one_to_one(
        "Ado",
        &pairs,
        "Don't confuse the French/German `adieu`, meaning `farewell`, with the English `ado`, meaning `fuss`.",
        "Corrects `adieu` to `ado`.",
    ).unwrap();
    assert(rule@ =~~= ado());
    rule
}

/// An apostrophe too many in `client-side` and `server-side`.
pub open spec fn client_or_server_side() -> RuleModel {
    one_to_one_model(
        "ClientOrServerSide",
        seq![
            ("client's side", "client-side"),
            ("server's side", "server-side"),
        ],
        "`Client-side` and `server-side` do not use an apostrophe.",
        "Corrects extraneous apostrophe in `client's side` and `server's side`.",
    )
}

/// Builds the rule `ClientOrServerSide`.
fn client_or_server_side_rule() -> (rule: CorrectionRule)
    ensures
        rule.wf(),
        rule@ == client_or_server_side(),
{
    let pairs = vec![
        ("client's side", "client-side"),
        ("server's side", "server-side"),
    ];
    proof {
        reveal_with_fuel(words_from, 24);
        reveal_strlit("client's side");
        reveal_strlit("client-side");
        reveal_strlit("server's side");
        reveal_strlit("server-side");
        lemma_pairs_hold_no_error(pairs@);
    }
    let rule = CorrectionRule::one_to_one(
        "ClientOrServerSide",
        &pairs,
        "`Client-side` and `server-side` do not use an apostrophe.",
        "Corrects extraneous apostrophe in `client's side` and `server's side`.",
    ).unwrap();
    assert(rule@ =~~= client_or_server_side());
    rule
}

/// `definitive article` written for `definite article`.
pub open spec fn definite_article() -> RuleModel {
    one_to_one_model(
        "DefiniteArticle",
        seq![
            ("definitive article", "definite article"),
            ("definitive articles", "definite articles"),
        ],
        "The correct term for `the` is `definite article`.",
        "The name of the word `the` is `definite article`.",
    )
}

/// Builds the rule `DefiniteArticle`.
fn definite_article_rule() -> (rule: CorrectionRule)
    ensures
        rule.wf(),
        rule@ == definite_article(),
{
    let pairs = vec![
        ("definitive article", "definite article"),
        ("definitive articles", "definite articles"),
    ];
    proof {
        reveal_with_fuel(words_from, 24);
        reveal_strlit("definitive article");
        reveal_strlit("definite article");
        reveal_strlit("definitive articles");
        reveal_strlit("definite articles");
        lemma_pairs_hold_no_error(pairs@);
    }
    let rule = CorrectionRule::one_to_one(
        "DefiniteArticle",
        &pairs,
        "The correct term for `the` is `definite article`.",
        "The name of the word `the` is `definite article`.",
    ).unwrap();
    assert(rule@ =~~= definite_article());
    rule
}

/// `about` after `discuss`.
pub open spec fn discuss() -> RuleModel {
    one_to_one_model(
        "Discuss",
        seq![
            ("discuss about", "discuss"),
            ("discussed about", "discussed"),
            ("discusses about", "discusses"),
            ("discussing about", "discussing"),
        ],
        "`About` is redundant",
        "Removes unnecessary `about` after `discuss`.",
    )
}

/// Builds the rule `Discuss`.
fn discuss_rule() -> (rule: CorrectionRule)
    ensures
        rule.wf(),
        rule@ == discuss(),
{
    let pairs = vec![
        ("discuss about", "discuss"),
        ("discussed about", "discussed"),
        ("discusses about", "discusses"),
        ("discussing about", "discussing"),
    ];
    proof {
        reveal_with_fuel(words_from, 24);
        reveal_strlit("discuss about");
        reveal_strlit("discuss");
        reveal_strlit("discussed about");
        reveal_strlit("discussed");
        reveal_strlit("discusses about");
        reveal_strlit("discusses");
        reveal_strlit("discussing about");
        reveal_strlit("discussing");
        lemma_pairs_hold_no_error(pairs@);
    }
    let rule = CorrectionRule::one_to_one(
        "Discuss",
        &pairs,
        "`About` is redundant",
        "Removes unnecessary `about` after `discuss`.",
    ).unwrap();
    assert(rule@ =~~= discuss());
    rule
}

/// `arg` written for `argument`.
pub open spec fn expand_argument() -> RuleModel {
    one_to_one_model(
        "ExpandArgument",
        seq![
            ("arg", "argument"),
            ("args", "arguments"),
        ],
        "Use `argument` instead of `arg`",
        "Expands the abbreviation `arg` to the full word `argument` for clarity.",
    )
}

/// Builds the rule `ExpandArgument`.
fn expand_argument_rule() -> (rule: CorrectionRule)
    ensures
        rule.wf(),
        rule@ == expand_argument(),
{
    let pairs = vec![
        ("arg", "argument"),
        ("args", "arguments"),
    ];
    proof {
        reveal_with_fuel(words_from, 24);
        reveal_strlit("arg");
        reveal_strlit("argument");
        reveal_strlit("args");
        reveal_strlit("arguments");
        lemma_pairs_hold_no_error(pairs@);
    }
    let rule = CorrectionRule::one_to_one(
        "ExpandArgument",
        &pairs,
        "Use `argument` instead of `arg`",
        "Expands the abbreviation `arg` to the full word `argument` for clarity.",
    ).unwrap();
    assert(rule@ =~~= expand_argument());
    rule
}

/// `deps` written for `dependencies`.
pub open spec fn expand_dependencies() -> RuleModel {
    one_to_one_model(
        "ExpandDependencies",
        seq![
            ("deps", "dependencies"),
            ("dep", "dependency"),
        ],
        "Use `dependencies` instead of `deps`",
        "Expands the abbreviation `deps` to the full word `dependencies` for clarity.",
    )
}

/// Builds the rule `ExpandDependencies`.
fn expand_dependencies_rule() -> (rule: CorrectionRule)
    ensures
        rule.wf(),
        rule@ == expand_dependencies(),
{
    let pairs = vec![
        ("deps", "dependencies"),
        ("dep", "dependency"),
    ];
    proof {
        reveal_with_fuel(words_from, 24);
        reveal_strlit("deps");
        reveal_strlit("dependencies");
        reveal_strlit("dep");
        reveal_strlit("dependency");
        lemma_pairs_hold_no_error(pairs@);
    }
    let rule = CorrectionRule::one_to_one(
        "ExpandDependencies",
        &pairs,
        "Use `dependencies` instead of `deps`",
        "Expands the abbreviation `deps` to the full word `dependencies` for clarity.",
    ).unwrap();
    assert(rule@ =~~= expand_dependencies());
    rule
}

/// `stdin`, `stdout` and `stderr` written for their full names.
pub open spec fn expand_standard_input_and_output() -> RuleModel {
    one_to_one_model(
        "ExpandStandardInputAndOutput",
        seq![
            ("stdin", "standard input"),
            ("stdout", "standard output"),
            ("stderr", "standard error"),
        ],
        "Use `standard input`, `standard output`, and `standard error` instead of `stdin`, `stdout`, and `stderr`",
        "Expands the abbreviations `stdin`, `stdout`, and `stderr` to the full words `standard input`, etc. for clarity.",
    )
}

/// Builds the rule `ExpandStandardInputAndOutput`.
fn expand_standard_input_and_output_rule() -> (rule: CorrectionRule)
    ensures
        rule.wf(),
        rule@ == expand_standard_input_and_output(),
{
    let pairs = vec![
        ("stdin", "standard input"),
        ("stdout", "standard output"),
        ("stderr", "standard error"),
    ];
    proof {
        reveal_with_fuel(words_from, 24);
        reveal_strlit("stdin");
        reveal_strlit("standard input");
        reveal_strlit("stdout");
        reveal_strlit("standard output");
        reveal_strlit("stderr");
        reveal_strlit("standard error");
        lemma_pairs_hold_no_error(pairs@);
    }
    let rule = CorrectionRule::one_to_one(
        "ExpandStandardInputAndOutput",
        &pairs,
        "Use `standard input`, `standard output`, and `standard error` instead of `stdin`, `stdout`, and `stderr`",
        "Expands the abbreviations `stdin`, `stdout`, and `stderr` to the full words `standard input`, etc. for clarity.",
    ).unwrap();
    assert(rule@ =~~= expand_standard_input_and_output());
    rule
}

/// `explanation mark` written for `exclamation mark`.
pub open spec fn explanation_mark() -> RuleModel {
    one_to_one_model(
        "ExplanationMark",
        seq![
            ("explanation mark", "exclamation mark"),
            ("explanation marks", "exclamation marks"),
            ("explanation point", "exclamation point"),
        ],
        "The correct names for the `!` punctuation are `exclamation mark` and `exclamation point`.",
        "Corrects the eggcorn `explanation mark/point` to `exclamation mark/point`.",
    )
}

/// Builds the rule `ExplanationMark`.
fn explanation_mark_rule() -> (rule: CorrectionRule)
    ensures
        rule.wf(),
        rule@ == explanation_mark(),
{
    let pairs = vec![
        ("explanation mark", "exclamation mark"),
        ("explanation marks", "exclamation marks"),
        ("explanation point", "exclamation point"),
    ];
    proof {
        reveal_with_fuel(words_from, 24);
        reveal_strlit("explanation mark");
        reveal_strlit("exclamation mark");
        reveal_strlit("explanation marks");
        reveal_strlit("exclamation marks");
        reveal_strlit("explanation point");
        reveal_strlit("exclamation point");
        lemma_pairs_hold_no_error(pairs@);
    }
    let rule = CorrectionRule::one_to_one(
        "ExplanationMark",
        &pairs,
        "The correct names for the `!` punctuation are `exclamation mark` and `exclamation point`.",
        "Corrects the eggcorn `explanation mark/point` to `exclamation mark/point`.",
    ).unwrap();
    assert(rule@ =~~= explanation_mark());
    rule
}

/// `have went` written for `have gone`.
pub open spec fn have_gone() -> RuleModel {
    one_to_one_model(
        "HaveGone",
        seq![
            ("had went", "had gone"),
            ("has went", "has gone"),
            ("have went", "have gone"),
            ("having went", "having gone"),
        ],
        "`Have gone` is the correct form.",
        "Corrects `have went` to `have gone`.",
    )
}

/// Builds the rule `HaveGone`.
fn have_gone_rule() -> (rule: CorrectionRule)
    ensures
        rule.wf(),
        rule@ == have_gone(),
{
    let pairs = vec![
        ("had went", "had gone"),
        ("has went", "has gone"),
        ("have went", "have gone"),
        ("having went", "having gone"),
    ];
    proof {
        reveal_with_fuel(words_from, 24);
        reveal_strlit("had went");
        reveal_strlit("had gone");
        reveal_strlit("has went");
        reveal_strlit("has gone");
        reveal_strlit("have went");
        reveal_strlit("have gone");
        reveal_strlit("having went");
        reveal_strlit("having gone");
        lemma_pairs_hold_no_error(pairs@);
    }
    let rule = CorrectionRule::one_to_one(
        "HaveGone",
        &pairs,
        "`Have gone` is the correct form.",
        "Corrects `have went` to `have gone`.",
    ).unwrap();
    assert(rule@ =~~= have_gone());
    rule
}

/// `have past` written for `have passed`.
pub open spec fn have_passed() -> RuleModel {
    one_to_one_model(
        "HavePassed",
        seq![
            ("had past", "had passed"),
            ("has past", "has passed"),
            ("have past", "have passed"),
            ("having past", "having passed"),
        ],
        "Did you mean the verb `passed`?",
        "Suggests `past` for `passed` in case a verb was intended.",
    )
}

/// Builds the rule `HavePassed`.
fn have_passed_rule() -> (rule: CorrectionRule)
    ensures
        rule.wf(),
        rule@ == have_passed(),
{
    let pairs = vec![
        ("had past", "had passed"),
        ("has past", "has passed"),
        ("have past", "have passed"),
        ("having past", "having passed"),
    ];
    proof {
        reveal_with_fuel(words_from, 24);
        reveal_strlit("had past");
        reveal_strlit("had passed");
        reveal_strlit("has past");
        reveal_strlit("has passed");
        reveal_strlit("have past");
        reveal_strlit("have passed");
        reveal_strlit("having past");
        reveal_strlit("having passed");
        lemma_pairs_hold_no_error(pairs@);
    }
    let rule = CorrectionRule::one_to_one(
        "HavePassed",
        &pairs,
        "Did you mean the verb `passed`?",
        "Suggests `past` for `passed` in case a verb was intended.",
    ).unwrap();
    assert(rule@ =~~= have_passed());
    rule
}

/// `hone in on` written for `home in on`.
pub open spec fn home_in_on() -> RuleModel {
    one_to_one_model(
        "HomeInOn",
        seq![
            ("hone in on", "home in on"),
            ("honed in on", "homed in on"),
            ("hones in on", "homes in on"),
            ("honing in on", "homing in on"),
        ],
        "Use `home in on` rather than `hone in on`",
        "Corrects `hone in on` to `home in on`.",
    )
}

/// Builds the rule `HomeInOn`.
fn home_in_on_rule() -> (rule: CorrectionRule)
    ensures
        rule.wf(),
        rule@ == home_in_on(),
{
    let pairs = vec![
        ("hone in on", "home in on"),
        ("honed in on", "homed in on"),
        ("hones in on", "homes in on"),
        ("honing in on", "homing in on"),
    ];
    proof {
        reveal_with_fuel(words_from, 24);
        reveal_strlit("hone in on");
        reveal_strlit("home in on");
        reveal_strlit("honed in on");
        reveal_strlit("homed in on");
        reveal_strlit("hones in on");
        reveal_strlit("homes in on");
        reveal_strlit("honing in on");
        reveal_strlit("homing in on");
        lemma_pairs_hold_no_error(pairs@);
    }
    let rule = CorrectionRule::one_to_one(
        "HomeInOn",
        &pairs,
        "Use `home in on` rather than `hone in on`",
        "Corrects `hone in on` to `home in on`.",
    ).unwrap();
    assert(rule@ =~~= home_in_on());
    rule
}

/// `in details` written for `in detail`.
pub open spec fn in_detail() -> RuleModel {
    one_to_one_model(
        "InDetail",
        seq![
            ("in details", "in detail"),
            ("in more details", "in more detail"),
        ],
        "Use singular `in detail` for referring to a detailed description.",
        "Corrects unidiomatic plural `in details` to `in detail`.",
    )
}

/// Builds the rule `InDetail`.
fn in_detail_rule() -> (rule: CorrectionRule)
    ensures
        rule.wf(),
        rule@ == in_detail(),
{
    let pairs = vec![
        ("in details", "in detail"),
        ("in more details", "in more detail"),
    ];
    proof {
        reveal_with_fuel(words_from, 24);
        reveal_strlit("in details");
        reveal_strlit("in detail");
        reveal_strlit("in more details");
        reveal_strlit("in more detail");
        lemma_pairs_hold_no_error(pairs@);
    }
    let rule = CorrectionRule::one_to_one(
        "InDetail",
        &pairs,
        "Use singular `in detail` for referring to a detailed description.",
        "Corrects unidiomatic plural `in details` to `in detail`.",
    ).unwrap();
    assert(rule@ =~~= in_detail());
    rule
}

/// `invest into` written for `invest in`.
pub open spec fn invest_in() -> RuleModel {
    one_to_one_model(
        "InvestIn",
        seq![
            ("invest into", "invest in"),
            ("invested into", "invested in"),
            ("investing into", "investing in"),
            ("invests into", "invests in"),
        ],
        "Traditionally `invest` uses the preposition `in`.",
        "`Invest` is traditionally followed by 'in,' not `into.`",
    )
}

/// Builds the rule `InvestIn`.
fn invest_in_rule() -> (rule: CorrectionRule)
    ensures
        rule.wf(),
        rule@ == invest_in(),
{
    let pairs = vec![
        ("invest into", "invest in"),
        ("invested into", "invested in"),
        ("investing into", "investing in"),
        ("invests into", "invests in"),
    ];
    proof {
        reveal_with_fuel(words_from, 24);
        reveal_strlit("invest into");
        reveal_strlit("invest in");
        reveal_strlit("invested into");
        reveal_strlit("invested in");
        reveal_strlit("investing into");
        reveal_strlit("investing in");
        reveal_strlit("invests into");
        reveal_strlit("invests in");
        lemma_pairs_hold_no_error(pairs@);
    }
    let rule = CorrectionRule::one_to_one(
        "InvestIn",
        &pairs,
        "Traditionally `invest` uses the preposition `in`.",
        "`Invest` is traditionally followed by 'in,' not `into.`",
    ).unwrap();
    assert(rule@ =~~= invest_in());
    rule
}

/// `mute point` written for `moot point`.
pub open spec fn moot_point() -> RuleModel {
    one_to_one_model(
        "MootPoint",
        seq![
            ("mute point", "moot point"),
            ("point is mute", "point is moot"),
        ],
        "Use `moot` instead of `mute` when referring to a debatable or irrelevant point.",
        "Corrects `mute` to `moot` in the phrase `moot point`.",
    )
}

/// Builds the rule `MootPoint`.
fn moot_point_rule() -> (rule: CorrectionRule)
    ensures
        rule.wf(),
        rule@ == moot_point(),
{
    let pairs = vec![
        ("mute point", "moot point"),
        ("point is mute", "point is moot"),
    ];
    proof {
        reveal_with_fuel(words_from, 24);
        reveal_strlit("mute point");
        reveal_strlit("moot point");
        reveal_strlit("point is mute");
        reveal_strlit("point is moot");
        lemma_pairs_hold_no_error(pairs@);
    }
    let rule = CorrectionRule::one_to_one(
        "MootPoint",
        &pairs,
        "Use `moot` instead of `mute` when referring to a debatable or irrelevant point.",
        "Corrects `mute` to `moot` in the phrase `moot point`.",
    ).unwrap();
    assert(rule@ =~~= moot_point());
    rule
}

/// `operative system` written for `operating system`.
pub open spec fn operating_system() -> RuleModel {
    one_to_one_model(
        "OperatingSystem",
        seq![
            ("operative system", "operating system"),
            ("operative systems", "operating systems"),
        ],
        "Did you mean `operating system`?",
        "Ensures `operating system` is used correctly instead of `operative system`.",
    )
}

/// Builds the rule `OperatingSystem`.
fn operating_system_rule() -> (rule: CorrectionRule)
    ensures
        rule.wf(),
        rule@ == operating_system(),
{
    let pairs = vec![
        ("operative system", "operating system"),
        ("operative systems", "operating systems"),
    ];
    proof {
        reveal_with_fuel(words_from, 24);
        reveal_strlit("operative system");
        reveal_strlit("operating system");
        reveal_strlit("operative systems");
        reveal_strlit("operating systems");
        lemma_pairs_hold_no_error(pairs@);
    }
    let rule = CorrectionRule::one_to_one(
        "OperatingSystem",
        &pairs,
        "Did you mean `operating system`?",
        "Ensures `operating system` is used correctly instead of `operative system`.",
    ).unwrap();
    assert(rule@ =~~= operating_system());
    rule
}

/// `piggy bag` written for `piggyback`.
pub open spec fn piggyback() -> RuleModel {
    one_to_one_model(
        "Piggyback",
        seq![
            ("piggy bag", "piggyback"),
            ("piggy bagged", "piggybacked"),
            ("piggy bagging", "piggybacking"),
        ],
        "Did you mean `piggyback`?",
        "Corrects the eggcorn `piggy bag` to `piggyback`, which is the proper term for riding on someone’s back or using an existing system.",
    )
}

/// Builds the rule `Piggyback`.
fn piggyback_rule() -> (rule: CorrectionRule)
    ensures
        rule.wf(),
        rule@ == piggyback(),
{
    let pairs = vec![
        ("piggy bag", "piggyback"),
        ("piggy bagged", "piggybacked"),
        ("piggy bagging", "piggybacking"),
    ];
    proof {
        reveal_with_fuel(words_from, 24);
        reveal_strlit("piggy bag");
        reveal_strlit("piggyback");
        reveal_strlit("piggy bagged");
        reveal_strlit("piggybacked");
        reveal_strlit("piggy bagging");
        reveal_strlit("piggybacking");
        lemma_pairs_hold_no_error(pairs@);
    }
    let rule = CorrectionRule::one_to_one(
        "Piggyback",
        &pairs,
        "Did you mean `piggyback`?",
        "Corrects the eggcorn `piggy bag` to `piggyback`, which is the proper term for riding on someone’s back or using an existing system.",
    ).unwrap();
    assert(rule@ =~~= piggyback());
    rule
}

/// `change tact` written for `change tack`, as a verb and as a noun.
pub open spec fn change_tack() -> RuleModel {
    many_to_many_model(
        "ChangeTack",
        seq![
            (seq!["change tact", "change tacks", "change tacts"], seq!["change tack"]),
            (seq!["changed tact", "changed tacks", "changed tacts"], seq!["changed tack"]),
            (seq!["changes tact", "changes tacks", "changes tacts"], seq!["changes tack"]),
            (seq!["changing tact", "changing tacks", "changing tacts"], seq!["changing tack"]),
            (seq!["change of tact", "change of tacks", "change of tacts"], seq!["change of tack"]),
            (seq!["changes of tact", "changes of tacks", "changes of tacts"], seq!["changes of tack"]),
            (seq!["changing of tact", "changing of tacks", "changing of tacts"], seq!["changing of tack"]),
        ],
        "A change in direction or approach is a change of `tack`. Not `tact` (or `tacks` or `tacts`).",
        "Locates errors in the idioms `to change tack` and `change of tack` to convey the correct meaning of altering one's course or strategy.",
    )
}

/// Builds the rule `ChangeTack`.
fn change_tack_rule() -> (rule: CorrectionRule)
    ensures
        rule.wf(),
        rule@ == change_tack(),
{
    let sets = vec![
        (vec!["change tact", "change tacks", "change tacts"], vec!["change tack"]),
        (vec!["changed tact", "changed tacks", "changed tacts"], vec!["changed tack"]),
        (vec!["changes tact", "changes tacks", "changes tacts"], vec!["changes tack"]),
        (vec!["changing tact", "changing tacks", "changing tacts"], vec!["changing tack"]),
        (vec!["change of tact", "change of tacks", "change of tacts"], vec!["change of tack"]),
        (vec!["changes of tact", "changes of tacks", "changes of tacts"], vec!["changes of tack"]),
        (vec!["changing of tact", "changing of tacks", "changing of tacts"], vec!["changing of tack"]),
    ];
    proof {
        reveal_with_fuel(words_from, 24);
        reveal_strlit("change tact");
        reveal_strlit("change tacks");
        reveal_strlit("change tacts");
        reveal_strlit("change tack");
        reveal_strlit("changed tact");
        reveal_strlit("changed tacks");
        reveal_strlit("changed tacts");
        reveal_strlit("changed tack");
        reveal_strlit("changes tact");
        reveal_strlit("changes tacks");
        reveal_strlit("changes tacts");
        reveal_strlit("changes tack");
        reveal_strlit("changing tact");
        reveal_strlit("changing tacks");
        reveal_strlit("changing tacts");
        reveal_strlit("changing tack");
        reveal_strlit("change of tact");
        reveal_strlit("change of tacks");
        reveal_strlit("change of tacts");
        reveal_strlit("change of tack");
        reveal_strlit("changes of tact");
        reveal_strlit("changes of tacks");
        reveal_strlit("changes of tacts");
        reveal_strlit("changes of tack");
        reveal_strlit("changing of tact");
        reveal_strlit("changing of tacks");
        reveal_strlit("changing of tacts");
        reveal_strlit("changing of tack");
        lemma_sets_hold_no_error(set_views(sets@));
    }
    let rule = CorrectionRule::many_to_many(
        "ChangeTack",
        &sets,
        "A change in direction or approach is a change of `tack`. Not `tact` (or `tacks` or `tacts`).",
        "Locates errors in the idioms `to change tack` and `change of tack` to convey the correct meaning of altering one's course or strategy.",
    ).unwrap();
    assert(rule@ =~~= change_tack());
    rule
}

/// `get rid off` and `get ride of` written for `get rid of`.
pub open spec fn get_rid_of() -> RuleModel {
    many_to_many_model(
        "GetRidOf",
        seq![
            (seq!["get rid off", "get ride of", "get ride off"], seq!["get rid of"]),
            (seq!["gets rid off", "gets ride of", "gets ride off"], seq!["gets rid of"]),
            (seq!["getting rid off", "getting ride of", "getting ride off"], seq!["getting rid of"]),
            (seq!["got rid off", "got ride of", "got ride off"], seq!["got rid of"]),
            (seq!["gotten rid off", "gotten ride of", "gotten ride off"], seq!["gotten rid of"]),
        ],
        "The idiom is `to get rid of`, not `off` or `ride`.",
        "Corrects common misspellings of the idiom `get rid of`.",
    )
}

/// Builds the rule `GetRidOf`.
fn get_rid_of_rule() -> (rule: CorrectionRule)
    ensures
        rule.wf(),
        rule@ == get_rid_of(),
{
    let sets = vec![
        (vec!["get rid off", "get ride of", "get ride off"], vec!["get rid of"]),
        (vec!["gets rid off", "gets ride of", "gets ride off"], vec!["gets rid of"]),
        (vec!["getting rid off", "getting ride of", "getting ride off"], vec!["getting rid of"]),
        (vec!["got rid off", "got ride of", "got ride off"], vec!["got rid of"]),
        (vec!["gotten rid off", "gotten ride of", "gotten ride off"], vec!["gotten rid of"]),
    ];
    proof {
        reveal_with_fuel(words_from, 24);
        reveal_strlit("get rid off");
        reveal_strlit("get ride of");
        reveal_strlit("get ride off");
        reveal_strlit("get rid of");
        reveal_strlit("gets rid off");
        reveal_strlit("gets ride of");
        reveal_strlit("gets ride off");
        reveal_strlit("gets rid of");
        reveal_strlit("getting rid off");
        reveal_strlit("getting ride of");
        reveal_strlit("getting ride off");
        reveal_strlit("getting rid of");
        reveal_strlit("got rid off");
        reveal_strlit("got ride of");
        reveal_strlit("got ride off");
        reveal_strlit("got rid of");
        reveal_strlit("gotten rid off");
        reveal_strlit("gotten ride of");
        reveal_strlit("gotten ride off");
        reveal_strlit("gotten rid of");
        lemma_sets_hold_no_error(set_views(sets@));
    }
    let rule = CorrectionRule::many_to_many(
        "GetRidOf",
        &sets,
        "The idiom is `to get rid of`, not `off` or `ride`.",
        "Corrects common misspellings of the idiom `get rid of`.",
    ).unwrap();
    assert(rule@ =~~= get_rid_of());
    rule
}

/// `how` and `like` used together.
pub open spec fn how_it_looks_like() -> RuleModel {
    many_to_many_model(
        "HowItLooksLike",
        seq![
            (seq!["how he looks like"], seq!["how he looks", "what he looks like"]),
            (seq!["how it looks like", "how it look like", "how it look's like"], seq!["how it looks", "what it looks like"]),
            (seq!["how she looks like"], seq!["how she looks", "what she looks like"]),
            (seq!["how they look like", "how they looks like"], seq!["how they look", "what they look like"]),
        ],
        "Don't use both `how` and `like` together to express similarity.",
        "Corrects `how ... looks like` to `how ... looks` or `what ... looks like`.",
    )
}

/// Builds the rule `HowItLooksLike`.
fn how_it_looks_like_rule() -> (rule: CorrectionRule)
    ensures
        rule.wf(),
        rule@ == how_it_looks_like(),
{
    let sets = vec![
        (vec!["how he looks like"], vec!["how he looks", "what he looks like"]),
        (vec!["how it looks like", "how it look like", "how it look's like"], vec!["how it looks", "what it looks like"]),
        (vec!["how she looks like"], vec!["how she looks", "what she looks like"]),
        (vec!["how they look like", "how they looks like"], vec!["how they look", "what they look like"]),
    ];
    proof {
        reveal_with_fuel(words_from, 24);
        reveal_strlit("how he looks like");
        reveal_strlit("how he looks");
        reveal_strlit("what he looks like");
        reveal_strlit("how it looks like");
        reveal_strlit("how it look like");
        reveal_strlit("how it look's like");
        reveal_strlit("how it looks");
        reveal_strlit("what it looks like");
        reveal_strlit("how she looks like");
        reveal_strlit("how she looks");
        reveal_strlit("what she looks like");
        reveal_strlit("how they look like");
        reveal_strlit("how they looks like");
        reveal_strlit("how they look");
        reveal_strlit("what they look like");
        lemma_sets_hold_no_error(set_views(sets@));
    }
    let rule = CorrectionRule::many_to_many(
        "HowItLooksLike",
        &sets,
        "Don't use both `how` and `like` together to express similarity.",
        "Corrects `how ... looks like` to `how ... looks` or `what ... looks like`.",
    ).unwrap();
    assert(rule@ =~~= how_it_looks_like());
    rule
}

/// `rise the question` written for `raise the question`.
pub open spec fn rise_the_question() -> RuleModel {
    many_to_many_model(
        "RiseTheQuestion",
        seq![
            (seq!["rise the question"], seq!["raise the question"]),
            (seq!["rises the question"], seq!["raises the question"]),
        ],
        "Use `raise` instead of `rise` when referring to the act of asking a question.",
        "Corrects `rise the question` to `raise the question`.",
    )
}

/// Builds the rule `RiseTheQuestion`.
fn rise_the_question_rule() -> (rule: CorrectionRule)
    ensures
        rule.wf(),
        rule@ == rise_the_question(),
{
    let sets = vec![
        (vec!["rise the question"], vec!["raise the question"]),
        (vec!["rises the question"], vec!["raises the question"]),
    ];
    proof {
        reveal_with_fuel(words_from, 24);
        reveal_strlit("rise the question");
        reveal_strlit("raise the question");
        reveal_strlit("rises the question");
        reveal_strlit("raises the question");
        lemma_sets_hold_no_error(set_views(sets@));
    }
    let rule = CorrectionRule::many_to_many(
        "RiseTheQuestion",
        &sets,
        "Use `raise` instead of `rise` when referring to the act of asking a question.",
        "Corrects `rise the question` to `raise the question`.",
    ).unwrap();
    assert(rule@ =~~= rise_the_question());
    rule
}

/// `whole entire`, which says the same thing twice.
pub open spec fn whole_entire() -> RuleModel {
    many_to_many_model(
        "WholeEntire",
        seq![
            (seq!["whole entire"], seq!["whole", "entire"]),
            (seq!["a whole entire"], seq!["a whole", "an entire"]),
        ],
        "Avoid redundancy. Use either `whole` or `entire` for referring to the complete amount or extent.",
        "Corrects the redundancy in `whole entire` to `whole` or `entire`.",
    )
}

/// Builds the rule `WholeEntire`.
fn whole_entire_rule() -> (rule: CorrectionRule)
    ensures
        rule.wf(),
        rule@ == whole_entire(),
{
    let sets = vec![
        (vec!["whole entire"], vec!["whole", "entire"]),
        (vec!["a whole entire"], vec!["a whole", "an entire"]),
    ];
    proof {
        reveal_with_fuel(words_from, 24);
        reveal_strlit("whole entire");
        reveal_strlit("whole");
        reveal_strlit("entire");
        reveal_strlit("a whole entire");
        reveal_strlit("a whole");
        reveal_strlit("an entire");
        lemma_sets_hold_no_error(set_views(sets@));
    }
    let rule = CorrectionRule::many_to_many(
        "WholeEntire",
        &sets,
        "Avoid redundancy. Use either `whole` or `entire` for referring to the complete amount or extent.",
        "Corrects the redundancy in `whole entire` to `whole` or `entire`.",
    ).unwrap();
    assert(rule@ =~~= whole_entire());
    rule
}

/// `worse` and `worst` used where the other belongs.
pub open spec fn worse_or_worst() -> RuleModel {
    many_to_many_model(
        "WorseOrWorst",
        seq![
            (seq!["a lot worst", "alot worst"], seq!["a lot worse"]),
            (seq!["far worst"], seq!["far worse"]),
            (seq!["much worst"], seq!["much worse"]),
            (seq!["turn for the worst"], seq!["turn for the worse"]),
            (seq!["worst and worst", "worse and worst", "worst and worse"], seq!["worse and worse"]),
            (seq!["worst than"], seq!["worse than"]),
            (seq!["worse case scenario", "worse-case scenario", "worse-case-scenario"], seq!["worst-case scenario"]),
            (seq!["worse ever"], seq!["worst ever"]),
        ],
        "`Worse` is for comparing and `worst` is for the extreme case.",
        "Corrects `worse` and `worst` used in contexts where the other belongs.",
    )
}

/// Builds the rule `WorseOrWorst`.
fn worse_or_worst_rule() -> (rule: CorrectionRule)
    ensures
        rule.wf(),
        rule@ == worse_or_worst(),
{
    let sets = vec![
        (vec!["a lot worst", "alot worst"], vec!["a lot worse"]),
        (vec!["far worst"], vec!["far worse"]),
        (vec!["much worst"], vec!["much worse"]),
        (vec!["turn for the worst"], vec!["turn for the worse"]),
        (vec!["worst and worst", "worse and worst", "worst and worse"], vec!["worse and worse"]),
        (vec!["worst than"], vec!["worse than"]),
        (vec!["worse case scenario", "worse-case scenario", "worse-case-scenario"], vec!["worst-case scenario"]),
        (vec!["worse ever"], vec!["worst ever"]),
    ];
    proof {
        reveal_with_fuel(words_from, 24);
        reveal_strlit("a lot worst");
        reveal_strlit("alot worst");
        reveal_strlit("a lot worse");
        reveal_strlit("far worst");
        reveal_strlit("far worse");
        reveal_strlit("much worst");
        reveal_strlit("much worse");
        reveal_strlit("turn for the worst");
        reveal_strlit("turn for the worse");
        reveal_strlit("worst and worst");
        reveal_strlit("worse and worst");
        reveal_strlit("worst and worse");
        reveal_strlit("worse and worse");
        reveal_strlit("worst than");
        reveal_strlit("worse than");
        reveal_strlit("worse case scenario");
        reveal_strlit("worse-case scenario");
        reveal_strlit("worse-case-scenario");
        reveal_strlit("worst-case scenario");
        reveal_strlit("worse ever");
        reveal_strlit("worst ever");
        lemma_sets_hold_no_error(set_views(sets@));
    }
    let rule = CorrectionRule::many_to_many(
        "WorseOrWorst",
        &sets,
        "`Worse` is for comparing and `worst` is for the extreme case.",
        "Corrects `worse` and `worst` used in contexts where the other belongs.",
    ).unwrap();
    assert(rule@ =~~= worse_or_worst());
    rule
}

/// The stock rules, in the order in which they are registered.
pub open spec fn catalog() -> Seq<RuleModel> {
    seq![
        ado(),
        client_or_server_side(),
        definite_article(),
        discuss(),
        expand_argument(),
        expand_dependencies(),
        expand_standard_input_and_output(),
        explanation_mark(),
        have_gone(),
        have_passed(),
        home_in_on(),
        in_detail(),
        invest_in(),
        moot_point(),
        operating_system(),
        piggyback(),
        change_tack(),
        get_rid_of(),
        how_it_looks_like(),
        rise_the_question(),
        whole_entire(),
        worse_or_worst(),
    ]
}

/// Registers a rule whose name is free.
fn enroll(group: &mut RuleGroup, rule: CorrectionRule)
    requires
        old(group).wf(),
        rule.wf(),
        !has_rule(old(group)@, rule@.name),
    ensures
        final(group).wf(),
        final(group)@ == old(group)@.push(EntryModel { rule: rule@, enabled: true }),
{
    let _ = group.register(PhraseMatcher::new(rule));
}

/// A registry that holds the stock rules, every one of them switched on.
pub fn lint_group() -> (group: RuleGroup)
    ensures
        group.wf(),
        group@ == all_on(catalog()),
{
    proof {
        // No two names are the same: they differ in length or, where the
        // lengths agree, in a letter.
        reveal_strlit("Ado");
        assert("Ado"@.len() == 3);
        reveal_strlit("ClientOrServerSide");
        assert("ClientOrServerSide"@.len() == 18);
        reveal_strlit("DefiniteArticle");
        assert("DefiniteArticle"@.len() == 15);
        reveal_strlit("Discuss");
        assert("Discuss"@.len() == 7);
        reveal_strlit("ExpandArgument");
        assert("ExpandArgument"@.len() == 14);
        reveal_strlit("ExpandDependencies");
        assert("ExpandDependencies"@.len() == 18);
        reveal_strlit("ExpandStandardInputAndOutput");
        assert("ExpandStandardInputAndOutput"@.len() == 28);
        reveal_strlit("ExplanationMark");
        assert("ExplanationMark"@.len() == 15);
        reveal_strlit("HaveGone");
        assert("HaveGone"@.len() == 8);
        reveal_strlit("HavePassed");
        assert("HavePassed"@.len() == 10);
        reveal_strlit("HomeInOn");
        assert("HomeInOn"@.len() == 8);
        reveal_strlit("InDetail");
        assert("InDetail"@.len() == 8);
        reveal_strlit("InvestIn");
        assert("InvestIn"@.len() == 8);
        reveal_strlit("MootPoint");
        assert("MootPoint"@.len() == 9);
        reveal_strlit("OperatingSystem");
        assert("OperatingSystem"@.len() == 15);
        reveal_strlit("Piggyback");
        assert("Piggyback"@.len() == 9);
        reveal_strlit("ChangeTack");
        assert("ChangeTack"@.len() == 10);
        reveal_strlit("GetRidOf");
        assert("GetRidOf"@.len() == 8);
        reveal_strlit("HowItLooksLike");
        assert("HowItLooksLike"@.len() == 14);
        reveal_strlit("RiseTheQuestion");
        assert("RiseTheQuestion"@.len() == 15);
        reveal_strlit("WholeEntire");
        assert("WholeEntire"@.len() == 11);
        reveal_strlit("WorseOrWorst");
        assert("WorseOrWorst"@.len() == 12);
        assert("ClientOrServerSide"@[0] != "ExpandDependencies"@[0]);
        assert("DefiniteArticle"@[0] != "ExplanationMark"@[0]);
        assert("DefiniteArticle"@[0] != "OperatingSystem"@[0]);
        assert("DefiniteArticle"@[0] != "RiseTheQuestion"@[0]);
        assert("ExpandArgument"@[0] != "HowItLooksLike"@[0]);
        assert("ExplanationMark"@[0] != "OperatingSystem"@[0]);
        assert("ExplanationMark"@[0] != "RiseTheQuestion"@[0]);
        assert("HaveGone"@[1] != "HomeInOn"@[1]);
        assert("HaveGone"@[0] != "InDetail"@[0]);
        assert("HaveGone"@[0] != "InvestIn"@[0]);
        assert("HaveGone"@[0] != "GetRidOf"@[0]);
        assert("HavePassed"@[0] != "ChangeTack"@[0]);
        assert("HomeInOn"@[0] != "InDetail"@[0]);
        assert("HomeInOn"@[0] != "InvestIn"@[0]);
        assert("HomeInOn"@[0] != "GetRidOf"@[0]);
        assert("InDetail"@[2] != "InvestIn"@[2]);
        assert("InDetail"@[0] != "GetRidOf"@[0]);
        assert("InvestIn"@[0] != "GetRidOf"@[0]);
        assert("MootPoint"@[0] != "Piggyback"@[0]);
        assert("OperatingSystem"@[0] != "RiseTheQuestion"@[0]);
    }
    let mut group = RuleGroup::new();
    enroll(&mut group, ado_rule());
    enroll(&mut group, client_or_server_side_rule());
    enroll(&mut group, definite_article_rule());
    enroll(&mut group, discuss_rule());
    enroll(&mut group, expand_argument_rule());
    enroll(&mut group, expand_dependencies_rule());
    enroll(&mut group, expand_standard_input_and_output_rule());
    enroll(&mut group, explanation_mark_rule());
    enroll(&mut group, have_gone_rule());
    enroll(&mut group, have_passed_rule());
    enroll(&mut group, home_in_on_rule());
    enroll(&mut group, in_detail_rule());
    enroll(&mut group, invest_in_rule());
    enroll(&mut group, moot_point_rule());
    enroll(&mut group, operating_system_rule());
    enroll(&mut group, piggyback_rule());
    enroll(&mut group, change_tack_rule());
    enroll(&mut group, get_rid_of_rule());
    enroll(&mut group, how_it_looks_like_rule());
    enroll(&mut group, rise_the_question_rule());
    enroll(&mut group, whole_entire_rule());
    enroll(&mut group, worse_or_worst_rule());
    group.set_all(true);
    assert(group@ =~= all_on(catalog()));
    group
}

} // verus!
