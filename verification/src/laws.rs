//! What holds of matching and of the registry, whatever the rules and the
//! tokens are.
//!
//! The functions of the library are specified by models: `scan_model` says
//! what a matcher finds, `lint_model` what a registry reports. The laws
//! below are proved of these models, and so of every value the functions
//! return.

use vstd::prelude::*;
use crate::fold::fold_word;
use crate::matcher::{
    best_at,
    lemma_best_among,
    lemma_site_place,
    lemma_sites_in_order,
    lemma_sites_in_range,
    lint_at,
    lints_from,
    phrase_table,
    scan_model,
    site_place,
    sites_of,
    stands_at,
    SiteModel,
};
use crate::phrase::{
    lemma_phrase_words_folded,
    phrase_error,
    phrase_words,
    MAX_PHRASE_WORDS,
};
use crate::registry::{entry_lints, lint_model, with_flag, EntryModel};
use crate::rule::{
    group_error,
    lemma_first_error_none_means,
    rule_error,
    suggestions_for,
    CorrectionMode,
    RuleModel,
};
use crate::token::{folded_texts, lint_models, Lint, LintModel, Token};

verus! {

/// Whether `g` and `b` name a wrong phrase of the rule: the phrase at place
/// `b` of the group at place `g`.
pub open spec fn is_site(rule: RuleModel, g: int, b: int) -> bool {
    0 <= g < rule.groups.len() && 0 <= b < rule.groups[g].bad.len()
}

/// The words of the wrong phrase at place `b` of the group at place `g`.
pub open spec fn bad_words(rule: RuleModel, g: int, b: int) -> Seq<Seq<char>> {
    phrase_words(rule.groups[g].bad[b])
}

/// Whether `lint` is a finding of the rule in the stream that reports the
/// wrong phrase at place `b` of the group at place `g`: that phrase is the
/// one the matcher picks where the finding begins.
pub open spec fn reports(rule: RuleModel, tokens: Seq<Token>, lint: LintModel, g: int, b: int) -> bool {
    &&& is_site(rule, g, b)
    &&& scan_model(rule, tokens).contains(lint)
    &&& match best_at(rule, folded_texts(tokens), lint.first_token) {
        Some(e) => sites_of(rule.groups)[e] == (SiteModel { group: g, phrase: b }),
        None => false,
    }
}

/// Whether two streams of tokens differ in the case of their letters at
/// most: token for token the folded texts agree, and the places in the
/// source.
pub open spec fn same_but_for_case(a: Seq<Token>, b: Seq<Token>) -> bool {
    &&& a.len() == b.len()
    &&& forall|i: int|
        0 <= i < a.len() ==> fold_word((#[trigger] a[i]).text@) == fold_word(b[i].text@) && a[i].span
            == b[i].span
}

/// The test that a finding is not of the rule of that name.
pub open spec fn not_of(name: Seq<char>) -> spec_fn(LintModel) -> bool {
    |l: LintModel| l.rule_name != name
}

/// Every wrong phrase of a rule without error has between one and
/// `MAX_PHRASE_WORDS` words.
pub proof fn lemma_bad_phrase_holds_no_error(rule: RuleModel, g: int, b: int)
    requires
        rule_error(rule) is None,
        is_site(rule, g, b),
    ensures
        phrase_error(rule.groups[g].bad[b]) is None,
        1 <= bad_words(rule, g, b).len() <= MAX_PHRASE_WORDS,
{
    let groups = rule.groups;
    let in_groups = Seq::new(groups.len(), |i: int| group_error(groups[i]));
    lemma_first_error_none_means(in_groups);
    assert(in_groups[g] is None);
    let bad = groups[g].bad;
    let in_phrases = Seq::new(bad.len(), |i: int| phrase_error(bad[i]));
    lemma_first_error_none_means(in_phrases);
    assert(in_phrases[b] is None);
}

/// Where a finding comes from: it begins at a token at or behind `pos`, a
/// phrase of the rule is the one to report there, and the finding is the one
/// made for that phrase.
pub proof fn lemma_lint_origin(rule: RuleModel, tokens: Seq<Token>, pos: int, k: int)
    requires
        0 <= pos,
        0 <= k < lints_from(rule, tokens, pos).len(),
    ensures
        ({
            let l = lints_from(rule, tokens, pos)[k];
            let best = best_at(rule, folded_texts(tokens), l.first_token);
            &&& pos <= l.first_token < tokens.len()
            &&& best is Some
            &&& l == lint_at(rule, tokens, l.first_token, sites_of(rule.groups)[best.unwrap()])
        }),
    decreases tokens.len() - pos,
{
    let toks = folded_texts(tokens);
    let table = phrase_table(rule);
    if pos < tokens.len() {
        lemma_best_among(table, toks, pos, table.len() as int);
        match best_at(rule, toks, pos) {
            Some(e) => {
                if k > 0 {
                    lemma_lint_origin(rule, tokens, pos + table[e].len(), k - 1);
                }
            },
            None => {
                lemma_lint_origin(rule, tokens, pos + 1, k);
            },
        }
    }
}

/// Every finding reports a wrong phrase of its rule.
pub proof fn law_lint_reports_phrase(rule: RuleModel, tokens: Seq<Token>, k: int)
    requires
        0 <= k < scan_model(rule, tokens).len(),
    ensures
        exists|g: int, b: int| reports(rule, tokens, scan_model(rule, tokens)[k], g, b),
{
    let l = scan_model(rule, tokens)[k];
    let toks = folded_texts(tokens);
    let table = phrase_table(rule);
    lemma_lint_origin(rule, tokens, 0, k);
    lemma_best_among(table, toks, l.first_token, table.len() as int);
    lemma_sites_in_range(rule.groups);
    let site = sites_of(rule.groups)[best_at(rule, toks, l.first_token).unwrap()];
    assert(reports(rule, tokens, l, site.group, site.phrase));
}

/// What a finding says of the phrase it reports: the phrase stands where the
/// finding begins, the finding ends with the phrase, names it, and carries
/// the name and the message of the rule and the place of its tokens in the
/// source.
pub proof fn law_reported_phrase_stands(
    rule: RuleModel,
    tokens: Seq<Token>,
    lint: LintModel,
    g: int,
    b: int,
)
    requires
        reports(rule, tokens, lint, g, b),
    ensures
        stands_at(bad_words(rule, g, b), folded_texts(tokens), lint.first_token),
        lint.end_token == lint.first_token + bad_words(rule, g, b).len(),
        lint.matched_text == rule.groups[g].bad[b],
        lint.rule_name == rule.name,
        lint.message == rule.message,
        lint.span.start == tokens[lint.first_token].span.start,
        lint.span.end == tokens[lint.end_token - 1].span.end,
{
    let scan = scan_model(rule, tokens);
    let k = choose|k: int| 0 <= k < scan.len() && scan[k] == lint;
    let toks = folded_texts(tokens);
    let table = phrase_table(rule);
    lemma_lint_origin(rule, tokens, 0, k);
    lemma_best_among(table, toks, lint.first_token, table.len() as int);
}

/// Findings are exact: the tokens of a finding, folded, are the words of the
/// wrong phrase it names, one for one. A phrase is never found in a part of
/// a token, nor across tokens that read otherwise.
pub proof fn law_lint_is_exact(rule: RuleModel, tokens: Seq<Token>, k: int)
    requires
        0 <= k < scan_model(rule, tokens).len(),
    ensures
        ({
            let l = scan_model(rule, tokens)[k];
            &&& 0 <= l.first_token < l.end_token <= tokens.len()
            &&& folded_texts(tokens).subrange(l.first_token, l.end_token) == phrase_words(
                l.matched_text,
            )
        }),
{
    let l = scan_model(rule, tokens)[k];
    law_lint_reports_phrase(rule, tokens, k);
    let (g, b) = choose|g: int, b: int| reports(rule, tokens, l, g, b);
    law_reported_phrase_stands(rule, tokens, l, g, b);
}

/// The longest phrase wins: no wrong phrase of the rule that stands where a
/// finding begins has more words than the finding has tokens.
pub proof fn law_longest_match(rule: RuleModel, tokens: Seq<Token>, k: int, g: int, b: int)
    requires
        0 <= k < scan_model(rule, tokens).len(),
        is_site(rule, g, b),
        stands_at(
            bad_words(rule, g, b),
            folded_texts(tokens),
            scan_model(rule, tokens)[k].first_token,
        ),
    ensures
        bad_words(rule, g, b).len() <= scan_model(rule, tokens)[k].end_token - scan_model(
            rule,
            tokens,
        )[k].first_token,
{
    let l = scan_model(rule, tokens)[k];
    let toks = folded_texts(tokens);
    let table = phrase_table(rule);
    lemma_lint_origin(rule, tokens, 0, k);
    lemma_best_among(table, toks, l.first_token, table.len() as int);
    lemma_site_place(rule.groups, g, b);
    assert(table[site_place(rule.groups, g, b)] == bad_words(rule, g, b));
}

/// One to one: a finding that reports the wrong phrase at place `b` of a
/// one-to-one group proposes the right phrase at place `b`, and nothing
/// else.
pub proof fn law_one_to_one(rule: RuleModel, tokens: Seq<Token>, lint: LintModel, g: int, b: int)
    requires
        reports(rule, tokens, lint, g, b),
        rule.groups[g].mode == CorrectionMode::OneToOne,
    ensures
        lint.suggestions == seq![rule.groups[g].good[b]],
{
    let scan = scan_model(rule, tokens);
    let k = choose|k: int| 0 <= k < scan.len() && scan[k] == lint;
    lemma_lint_origin(rule, tokens, 0, k);
}

/// Many to many: a finding that reports a wrong phrase of a many-to-many
/// group proposes all the right phrases of the group, in the order in which
/// they were written.
pub proof fn law_many_to_many(rule: RuleModel, tokens: Seq<Token>, lint: LintModel, g: int, b: int)
    requires
        reports(rule, tokens, lint, g, b),
        rule.groups[g].mode == CorrectionMode::ManyToMany,
    ensures
        lint.suggestions == rule.groups[g].good,
{
    let scan = scan_model(rule, tokens);
    let k = choose|k: int| 0 <= k < scan.len() && scan[k] == lint;
    lemma_lint_origin(rule, tokens, 0, k);
}

/// A finding of a rule without error proposes something: its list of
/// corrections is not empty.
pub proof fn law_lint_proposes(rule: RuleModel, tokens: Seq<Token>, k: int)
    requires
        rule_error(rule) is None,
        0 <= k < scan_model(rule, tokens).len(),
    ensures
        scan_model(rule, tokens)[k].suggestions.len() > 0,
{
    let l = scan_model(rule, tokens)[k];
    law_lint_reports_phrase(rule, tokens, k);
    let (g, b) = choose|g: int, b: int| reports(rule, tokens, l, g, b);
    let groups = rule.groups;
    let in_groups = Seq::new(groups.len(), |i: int| group_error(groups[i]));
    lemma_first_error_none_means(in_groups);
    assert(in_groups[g] is None);
    match groups[g].mode {
        CorrectionMode::OneToOne => law_one_to_one(rule, tokens, l, g, b),
        CorrectionMode::ManyToMany => law_many_to_many(rule, tokens, l, g, b),
    }
}

/// The findings of a rule from `pos` on come in reading order and share no
/// token.
pub proof fn lemma_lints_in_order(rule: RuleModel, tokens: Seq<Token>, pos: int, k: int, later: int)
    requires
        0 <= pos,
        0 <= k < later < lints_from(rule, tokens, pos).len(),
    ensures
        lints_from(rule, tokens, pos)[k].end_token <= lints_from(rule, tokens, pos)[later].first_token,
    decreases tokens.len() - pos,
{
    let toks = folded_texts(tokens);
    let table = phrase_table(rule);
    if pos < tokens.len() {
        lemma_best_among(table, toks, pos, table.len() as int);
        match best_at(rule, toks, pos) {
            Some(e) => {
                let next = pos + table[e].len();
                if k == 0 {
                    lemma_lint_origin(rule, tokens, next, later - 1);
                } else {
                    lemma_lints_in_order(rule, tokens, next, k - 1, later - 1);
                }
            },
            None => {
                lemma_lints_in_order(rule, tokens, pos + 1, k, later);
            },
        }
    }
}

/// The findings of a rule come in reading order, and none begins before the
/// one before it has ended.
pub proof fn law_lints_do_not_overlap(rule: RuleModel, tokens: Seq<Token>, k: int, later: int)
    requires
        0 <= k < later < scan_model(rule, tokens).len(),
    ensures
        scan_model(rule, tokens)[k].end_token <= scan_model(rule, tokens)[later].first_token,
{
    lemma_lints_in_order(rule, tokens, 0, k, later);
}

/// A token at or behind `pos` at which a phrase of the table stands lies in
/// a finding.
pub proof fn lemma_match_is_covered(rule: RuleModel, tokens: Seq<Token>, pos: int, at: int, e: int)
    requires
        0 <= pos <= at,
        0 <= e < phrase_table(rule).len(),
        stands_at(phrase_table(rule)[e], folded_texts(tokens), at),
    ensures
        exists|k: int|
            0 <= k < lints_from(rule, tokens, pos).len() && (#[trigger] lints_from(
                rule,
                tokens,
                pos,
            )[k]).first_token <= at < lints_from(rule, tokens, pos)[k].end_token,
    decreases tokens.len() - pos,
{
    let toks = folded_texts(tokens);
    let table = phrase_table(rule);
    let lints = lints_from(rule, tokens, pos);
    lemma_best_among(table, toks, pos, table.len() as int);
    match best_at(rule, toks, pos) {
        Some(found) => {
            let next = pos + table[found].len();
            if at < next {
                assert(lints[0].first_token <= at < lints[0].end_token);
            } else {
                lemma_match_is_covered(rule, tokens, next, at, e);
                let rest = lints_from(rule, tokens, next);
                let k = choose|k: int|
                    0 <= k < rest.len() && (#[trigger] rest[k]).first_token <= at < rest[k].end_token;
                assert(lints[k + 1] == rest[k]);
            }
        },
        None => {
            lemma_match_is_covered(rule, tokens, pos + 1, at, e);
        },
    }
}

/// Nothing is missed: where a wrong phrase of the rule stands, a finding
/// holds the token at which it begins.
pub proof fn law_match_is_reported(rule: RuleModel, tokens: Seq<Token>, at: int, g: int, b: int)
    requires
        is_site(rule, g, b),
        stands_at(bad_words(rule, g, b), folded_texts(tokens), at),
    ensures
        exists|k: int|
            0 <= k < scan_model(rule, tokens).len() && (#[trigger] scan_model(
                rule,
                tokens,
            )[k]).first_token <= at < scan_model(rule, tokens)[k].end_token,
{
    lemma_site_place(rule.groups, g, b);
    let e = site_place(rule.groups, g, b);
    lemma_match_is_covered(rule, tokens, 0, at, e);
    let lints = lints_from(rule, tokens, 0);
    let k = choose|k: int|
        0 <= k < lints.len() && (#[trigger] lints[k]).first_token <= at < lints[k].end_token;
    assert(scan_model(rule, tokens)[k] == lints[k]);
}

/// Matching never fails, and finds nothing where there is nothing: a stream
/// in which no wrong phrase of the rule stands, an empty one among them,
/// yields no finding.
pub proof fn law_no_match_no_lint(rule: RuleModel, tokens: Seq<Token>)
    requires
        forall|at: int, g: int, b: int|
            is_site(rule, g, b) ==> !#[trigger] stands_at(
                bad_words(rule, g, b),
                folded_texts(tokens),
                at,
            ),
    ensures
        scan_model(rule, tokens).len() == 0,
{
    if scan_model(rule, tokens).len() > 0 {
        law_lint_reports_phrase(rule, tokens, 0);
        let l = scan_model(rule, tokens)[0];
        let (g, b) = choose|g: int, b: int| reports(rule, tokens, l, g, b);
        law_reported_phrase_stands(rule, tokens, l, g, b);
    }
}

/// A wrong phrase given alone is found once, whole, with its corrections:
/// where the folded texts of the stream are the words of the wrong phrase at
/// place `b` of the group at place `g`, the rule finds one thing, from the
/// first token to the last, and proposes what the group has for that
/// phrase. This is claimed of a phrase whose words no phrase written before
/// it in the rule has with other corrections: of two phrases with the same
/// words the first is the one that is reported.
pub proof fn law_bad_phrase_alone(rule: RuleModel, tokens: Seq<Token>, g: int, b: int)
    requires
        rule_error(rule) is None,
        is_site(rule, g, b),
        folded_texts(tokens) == bad_words(rule, g, b),
        forall|g2: int, b2: int|
            is_site(rule, g2, b2) && (g2 < g || (g2 == g && b2 < b)) && #[trigger] bad_words(
                rule,
                g2,
                b2,
            ) == bad_words(rule, g, b) ==> suggestions_for(rule.groups[g2], b2)
                == suggestions_for(rule.groups[g], b),
    ensures
        scan_model(rule, tokens).len() == 1,
        scan_model(rule, tokens)[0].first_token == 0,
        scan_model(rule, tokens)[0].end_token == tokens.len(),
        scan_model(rule, tokens)[0].suggestions == suggestions_for(rule.groups[g], b),
        scan_model(rule, tokens)[0].rule_name == rule.name,
{
    let toks = folded_texts(tokens);
    let table = phrase_table(rule);
    let words = bad_words(rule, g, b);
    lemma_bad_phrase_holds_no_error(rule, g, b);
    lemma_site_place(rule.groups, g, b);
    let own = site_place(rule.groups, g, b);
    assert(table[own] == words);
    lemma_best_among(table, toks, 0, table.len() as int);
    lemma_sites_in_range(rule.groups);
    let e = best_at(rule, toks, 0).unwrap();
    let site = sites_of(rule.groups)[e];
    assert(bad_words(rule, site.group, site.phrase) == words);
    lemma_sites_in_order(rule.groups, e, own);
    assert(lints_from(rule, tokens, tokens.len() as int) =~= Seq::<LintModel>::empty());
}

/// The words of a phrase, taken as the texts of tokens, are folded
/// already: a stream that spells a phrase as the rule has it is a stream
/// whose folded texts are the words of the phrase.
pub proof fn law_words_are_folded(text: Seq<char>, tokens: Seq<Token>)
    requires
        tokens.len() == phrase_words(text).len(),
        forall|i: int| 0 <= i < tokens.len() ==> (#[trigger] tokens[i]).text@ == phrase_words(text)[i],
    ensures
        folded_texts(tokens) == phrase_words(text),
{
    lemma_phrase_words_folded(text);
}

/// The findings from `pos` on are the same for two streams that differ in
/// case at most.
pub proof fn lemma_case_is_ignored_from(rule: RuleModel, a: Seq<Token>, b: Seq<Token>, pos: int)
    requires
        same_but_for_case(a, b),
    ensures
        lints_from(rule, a, pos) == lints_from(rule, b, pos),
    decreases a.len() - pos,
{
    assert(folded_texts(a) =~= folded_texts(b));
    let toks = folded_texts(a);
    let table = phrase_table(rule);
    if 0 <= pos < a.len() {
        lemma_best_among(table, toks, pos, table.len() as int);
        match best_at(rule, toks, pos) {
            Some(e) => {
                lemma_case_is_ignored_from(rule, a, b, pos + table[e].len());
            },
            None => {
                lemma_case_is_ignored_from(rule, a, b, pos + 1);
            },
        }
    }
}

/// Case is ignored: a rule finds the same in two streams that differ in the
/// case of their letters at most.
pub proof fn law_case_is_ignored(rule: RuleModel, a: Seq<Token>, b: Seq<Token>)
    requires
        same_but_for_case(a, b),
    ensures
        scan_model(rule, a) == scan_model(rule, b),
{
    lemma_case_is_ignored_from(rule, a, b, 0);
}

/// Case is ignored by a registry as by each of its rules.
pub proof fn law_registry_ignores_case(entries: Seq<EntryModel>, a: Seq<Token>, b: Seq<Token>)
    requires
        same_but_for_case(a, b),
    ensures
        lint_model(entries, a) == lint_model(entries, b),
    decreases entries.len(),
{
    if entries.len() > 0 {
        law_registry_ignores_case(entries.drop_last(), a, b);
        law_case_is_ignored(entries.last().rule, a, b);
    }
}

/// A test that no item passes leaves nothing.
proof fn lemma_filter_none<A>(s: Seq<A>, pred: spec_fn(A) -> bool)
    requires
        forall|i: int| 0 <= i < s.len() ==> !pred(#[trigger] s[i]),
    ensures
        s.filter(pred) == Seq::<A>::empty(),
    decreases s.len(),
{
    reveal(Seq::filter);
    if s.len() > 0 {
        lemma_filter_none(s.drop_last(), pred);
    }
}

/// A test that every item passes leaves everything.
proof fn lemma_filter_all<A>(s: Seq<A>, pred: spec_fn(A) -> bool)
    requires
        forall|i: int| 0 <= i < s.len() ==> pred(#[trigger] s[i]),
    ensures
        s.filter(pred) == s,
    decreases s.len(),
{
    reveal(Seq::filter);
    if s.len() > 0 {
        lemma_filter_all(s.drop_last(), pred);
    }
}

/// Switching a rule off takes its findings away and leaves the others as
/// they were, in their order: what the registry reports afterwards is what
/// it reported before, less the findings that carry the name of the rule.
pub proof fn law_disabling_removes_its_lints(
    entries: Seq<EntryModel>,
    name: Seq<char>,
    tokens: Seq<Token>,
)
    ensures
        lint_model(with_flag(entries, name, false), tokens) == lint_model(entries, tokens).filter(
            not_of(name),
        ),
    decreases entries.len(),
{
    reveal(Seq::filter);
    if entries.len() > 0 {
        let front = entries.drop_last();
        let last = entries.last();
        let off = with_flag(entries, name, false);
        law_disabling_removes_its_lints(front, name, tokens);
        assert(off.drop_last() =~= with_flag(front, name, false));
        let found = entry_lints(last, tokens);
        assert forall|k: int| 0 <= k < found.len() implies (#[trigger] found[k]).rule_name
            == last.rule.name by {
            lemma_lint_origin(last.rule, tokens, 0, k);
        }
        if last.rule.name == name {
            lemma_filter_none(found, not_of(name));
        } else {
            lemma_filter_all(found, not_of(name));
        }
        Seq::filter_distributes_over_add(lint_model(front, tokens), found, not_of(name));
    }
}

/// Linting is repeatable: what a registry reports is a function of its rules,
/// their switches and the tokens, so two runs over the same stream give the
/// same findings in the same order.
pub proof fn law_lint_is_repeatable(
    entries: Seq<EntryModel>,
    tokens: Seq<Token>,
    first: Seq<Lint>,
    second: Seq<Lint>,
)
    requires
        lint_models(first) == lint_model(entries, tokens),
        lint_models(second) == lint_model(entries, tokens),
    ensures
        lint_models(first) == lint_models(second),
{
}

} // verus!
