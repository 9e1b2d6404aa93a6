//! Finding the wrong phrases of one rule in a stream of tokens.
//!
//! The stream is read from left to right. At each place the wrong phrases of
//! the rule are tried against the folded tokens that follow. Where several
//! stand, the one with the most words wins; among phrases of the same length
//! the one written first. A finding is reported for it and reading goes on
//! behind its last token, so findings never share a token.
//!
//! A matcher files the phrases of its rule under the key of their first
//! word, and tries at each place only those filed under the key of the token
//! found there.

use std::collections::HashMap;
use vstd::prelude::*;
use crate::fold::{fold_str, key_of, same_word, texts, views, word_key};
use crate::phrase::{phrase_words, Phrase};
use crate::rule::{
    rule_error,
    suggestions_for,
    CorrectionGroup,
    CorrectionMode,
    CorrectionRule,
    GroupModel,
    RuleModel,
};
use crate::token::{folded_texts, lint_models, Lint, LintModel, Span, Token};

verus! {

broadcast use vstd::std_specs::hash::group_hash_axioms;

/// The place of a wrong phrase in its rule: the group, and the place in the
/// group's list.
pub struct SiteModel {
    pub group: int,
    pub phrase: int,
}

/// The places of the wrong phrases of the group at `g`, which has `n`.
pub open spec fn group_sites(g: int, n: nat) -> Seq<SiteModel> {
    Seq::new(n, |b: int| SiteModel { group: g, phrase: b })
}

/// The places of all wrong phrases, in the order in which they were written.
pub open spec fn sites_of(groups: Seq<GroupModel>) -> Seq<SiteModel>
    decreases groups.len(),
{
    if groups.len() == 0 {
        Seq::empty()
    } else {
        sites_of(groups.drop_last()) + group_sites(groups.len() - 1, groups.last().bad.len())
    }
}

/// The text of the wrong phrase at a site.
pub open spec fn site_text(rule: RuleModel, site: SiteModel) -> Seq<char> {
    rule.groups[site.group].bad[site.phrase]
}

/// The words of every wrong phrase of a rule, in the order of `sites_of`.
pub open spec fn phrase_table(rule: RuleModel) -> Seq<Seq<Seq<char>>> {
    Seq::new(
        sites_of(rule.groups).len(),
        |e: int| phrase_words(site_text(rule, sites_of(rule.groups)[e])),
    )
}

/// Whether the phrase `words` stands in `toks` at `pos`: it has a word, and
/// its words are the tokens from `pos` on, one for one. A phrase without
/// words stands nowhere.
pub open spec fn stands_at(words: Seq<Seq<char>>, toks: Seq<Seq<char>>, pos: int) -> bool {
    &&& words.len() > 0
    &&& 0 <= pos
    &&& pos + words.len() <= toks.len()
    &&& forall|k: int| 0 <= k < words.len() ==> toks[pos + k] == #[trigger] words[k]
}

/// Whether the phrase at `e` is the one to report at `pos`, the first `n`
/// phrases of the table considered: it stands there, no phrase that stands
/// there is longer, and none of the same length comes before it.
pub open spec fn is_best_among(
    table: Seq<Seq<Seq<char>>>,
    toks: Seq<Seq<char>>,
    pos: int,
    n: int,
    e: int,
) -> bool {
    &&& 0 <= e < n
    &&& stands_at(table[e], toks, pos)
    &&& forall|o: int|
        0 <= o < n && stands_at(#[trigger] table[o], toks, pos) ==> table[o].len() < table[e].len()
            || (table[o].len() == table[e].len() && e <= o)
}

/// The phrase to report at `pos`, the first `n` phrases of the table
/// considered.
pub open spec fn best_among(
    table: Seq<Seq<Seq<char>>>,
    toks: Seq<Seq<char>>,
    pos: int,
    n: int,
) -> Option<int>
    decreases n,
{
    if n <= 0 {
        None
    } else {
        let before = best_among(table, toks, pos, n - 1);
        if stands_at(table[n - 1], toks, pos) && (before is None || table[n - 1].len()
            > table[before.unwrap()].len()) {
            Some(n - 1)
        } else {
            before
        }
    }
}

/// The phrase of the rule to report at `pos`, if any stands there.
pub open spec fn best_at(rule: RuleModel, toks: Seq<Seq<char>>, pos: int) -> Option<int> {
    best_among(phrase_table(rule), toks, pos, phrase_table(rule).len() as int)
}

/// The finding for the phrase at `site`, found at token `pos`.
pub open spec fn lint_at(rule: RuleModel, tokens: Seq<Token>, pos: int, site: SiteModel) -> LintModel {
    let end = pos + phrase_words(site_text(rule, site)).len();
    LintModel {
        first_token: pos,
        end_token: end,
        span: Span { start: tokens[pos].span.start, end: tokens[end - 1].span.end },
        matched_text: site_text(rule, site),
        rule_name: rule.name,
        message: rule.message,
        suggestions: suggestions_for(rule.groups[site.group], site.phrase),
    }
}

/// The findings of a rule from token `pos` on.
pub open spec fn lints_from(rule: RuleModel, tokens: Seq<Token>, pos: int) -> Seq<LintModel>
    decreases tokens.len() - pos,
    via lints_from_ends
{
    if pos < 0 || pos >= tokens.len() {
        Seq::empty()
    } else {
        match best_at(rule, folded_texts(tokens), pos) {
            Some(e) => seq![lint_at(rule, tokens, pos, sites_of(rule.groups)[e])] + lints_from(
                rule,
                tokens,
                pos + phrase_table(rule)[e].len(),
            ),
            None => lints_from(rule, tokens, pos + 1),
        }
    }
}

/// Reading ends: a phrase that stands at a place has a word, and ends within
/// the stream.
#[via_fn]
proof fn lints_from_ends(rule: RuleModel, tokens: Seq<Token>, pos: int) {
    lemma_best_among(
        phrase_table(rule),
        folded_texts(tokens),
        pos,
        phrase_table(rule).len() as int,
    );
}

/// The findings of a rule in a stream of tokens.
pub open spec fn scan_model(rule: RuleModel, tokens: Seq<Token>) -> Seq<LintModel> {
    lints_from(rule, tokens, 0)
}

/// `best_among` yields the phrase that `is_best_among`, and nothing where
/// no phrase stands.
pub proof fn lemma_best_among(table: Seq<Seq<Seq<char>>>, toks: Seq<Seq<char>>, pos: int, n: int)
    requires
        n <= table.len(),
    ensures
        match best_among(table, toks, pos, n) {
            Some(e) => is_best_among(table, toks, pos, n, e),
            None => forall|o: int| 0 <= o < n ==> !stands_at(#[trigger] table[o], toks, pos),
        },
    decreases n,
{
    if n > 0 {
        lemma_best_among(table, toks, pos, n - 1);
    }
}

/// Only one phrase `is_best_among`: the one that `best_among` yields.
pub proof fn lemma_best_is_unique(
    table: Seq<Seq<Seq<char>>>,
    toks: Seq<Seq<char>>,
    pos: int,
    n: int,
    e: int,
)
    requires
        n <= table.len(),
        is_best_among(table, toks, pos, n, e),
    ensures
        best_among(table, toks, pos, n) == Some(e),
{
    lemma_best_among(table, toks, pos, n);
}

/// Every site names a wrong phrase of the rule.
pub proof fn lemma_sites_in_range(groups: Seq<GroupModel>)
    ensures
        forall|e: int|
            0 <= e < sites_of(groups).len() ==> {
                &&& 0 <= (#[trigger] sites_of(groups)[e]).group < groups.len()
                &&& 0 <= sites_of(groups)[e].phrase < groups[sites_of(groups)[e].group].bad.len()
            },
    decreases groups.len(),
{
    if groups.len() > 0 {
        lemma_sites_in_range(groups.drop_last());
    }
}

/// The sites come in the order of writing: group by group, and within a
/// group phrase by phrase.
pub proof fn lemma_sites_in_order(groups: Seq<GroupModel>, e: int, later: int)
    requires
        0 <= e <= later < sites_of(groups).len(),
    ensures
        sites_of(groups)[e].group < sites_of(groups)[later].group || (sites_of(groups)[e].group
            == sites_of(groups)[later].group && sites_of(groups)[e].phrase <= sites_of(
            groups,
        )[later].phrase),
    decreases groups.len(),
{
    if groups.len() > 0 {
        let front = groups.drop_last();
        let head = sites_of(front);
        lemma_sites_in_range(front);
        if later < head.len() {
            lemma_sites_in_order(front, e, later);
        }
    }
}

/// The sites of the first `g` groups are the first sites of the rule.
pub proof fn lemma_sites_of_prefix(groups: Seq<GroupModel>, g: int)
    requires
        0 <= g <= groups.len(),
    ensures
        sites_of(groups.take(g)).len() <= sites_of(groups).len(),
        sites_of(groups.take(g)) == sites_of(groups).take(sites_of(groups.take(g)).len() as int),
    decreases groups.len() - g,
{
    if g == groups.len() {
        assert(groups.take(g) =~= groups);
    } else {
        lemma_sites_of_prefix(groups, g + 1);
        let longer = groups.take(g + 1);
        assert(longer.drop_last() =~= groups.take(g));
        assert(sites_of(groups.take(g)) =~= sites_of(groups).take(
            sites_of(groups.take(g)).len() as int,
        ));
    }
}

/// Where the wrong phrase at place `b` of group `g` is found among the sites.
pub open spec fn site_place(groups: Seq<GroupModel>, g: int, b: int) -> int {
    sites_of(groups.take(g)).len() + b
}

/// Every wrong phrase of the rule has its site, at `site_place`.
pub proof fn lemma_site_place(groups: Seq<GroupModel>, g: int, b: int)
    requires
        0 <= g < groups.len(),
        0 <= b < groups[g].bad.len(),
    ensures
        0 <= site_place(groups, g, b) < sites_of(groups).len(),
        sites_of(groups)[site_place(groups, g, b)] == (SiteModel { group: g, phrase: b }),
{
    lemma_sites_of_prefix(groups, g + 1);
    let longer = groups.take(g + 1);
    assert(longer.drop_last() =~= groups.take(g));
    let e = site_place(groups, g, b);
    assert(sites_of(longer)[e] == group_sites(g, groups[g].bad.len())[b]);
}

/// The place of a wrong phrase, as the matcher holds it.
#[derive(Clone, Copy, Debug)]
struct Site {
    group: usize,
    phrase: usize,
}

impl View for Site {
    type V = SiteModel;

    closed spec fn view(&self) -> SiteModel {
        SiteModel { group: self.group as int, phrase: self.phrase as int }
    }
}

/// The sites held by a sequence.
spec fn site_models(v: Seq<Site>) -> Seq<SiteModel> {
    Seq::new(v.len(), |i: int| v[i]@)
}

/// Whether the index files the phrase at `e` under the key `k`.
spec fn files(index: Map<u64, Vec<usize>>, k: u64, e: int) -> bool {
    index.contains_key(k) && exists|j: int| 0 <= j < index[k]@.len() && #[trigger] index[k]@[j] == e
}

/// The key of the first word of a phrase.
spec fn first_key(words: Seq<Seq<char>>) -> u64 {
    key_of(words[0])
}

/// Every phrase that the index names is one of the first `n` of the table.
spec fn index_sound(index: Map<u64, Vec<usize>>, n: int) -> bool {
    forall|k: u64, j: int|
        index.contains_key(k) && 0 <= j < index[k]@.len() ==> (#[trigger] index[k]@[j]) < n
}

/// Each of the first `n` phrases of the table is filed under the key of its
/// first word.
spec fn index_complete(index: Map<u64, Vec<usize>>, table: Seq<Seq<Seq<char>>>, n: int) -> bool {
    forall|e: int| 0 <= e < n ==> files(index, first_key(#[trigger] table[e]), e)
}

/// A rule made ready for matching.
#[derive(Debug)]
pub struct PhraseMatcher {
    rule: CorrectionRule,
    sites: Vec<Site>,
    index: HashMap<u64, Vec<usize>>,
}

impl View for PhraseMatcher {
    type V = RuleModel;

    /// The rule that the matcher was made from.
    closed spec fn view(&self) -> RuleModel {
        self.rule@
    }
}

impl PhraseMatcher {
    /// The rule is well-formed, the sites are those of its wrong phrases,
    /// and the index files each of them under the key of its first word.
    pub closed spec fn wf(&self) -> bool {
        &&& self.rule.wf()
        &&& site_models(self.sites@) == sites_of(self.rule@.groups)
        &&& index_sound(self.index@, self.sites.len() as int)
        &&& index_complete(self.index@, phrase_table(self.rule@), self.sites.len() as int)
    }

    /// The rule of a well-formed matcher holds no error.
    pub proof fn lemma_wf(&self)
        requires
            self.wf(),
        ensures
            rule_error(self@) is None,
    {
        self.rule.lemma_wf();
    }

    /// Makes a rule ready for matching.
    pub fn new(rule: CorrectionRule) -> (m: PhraseMatcher)
        requires
            rule.wf(),
        ensures
            m.wf(),
            m@ == rule@,
    {
        let sites = list_sites(&rule);
        let index = file_sites(&rule, &sites);
        PhraseMatcher { rule, sites, index }
    }

    /// The rule that the matcher was made from.
    pub fn rule(&self) -> (r: &CorrectionRule)
        requires
            self.wf(),
        ensures
            r.wf(),
            r@ == self@,
    {
        &self.rule
    }

    /// The findings of the rule in a stream of tokens, in reading order.
    pub fn scan(&self, tokens: &Vec<Token>) -> (lints: Vec<Lint>)
        requires
            self.wf(),
        ensures
            lint_models(lints@) == scan_model(self@, tokens@),
    {
        let folded = fold_tokens(tokens);
        self.scan_folded(tokens, &folded)
    }

    /// The findings of the rule in a stream of tokens whose folded texts are
    /// at hand.
    pub(crate) fn scan_folded(&self, tokens: &Vec<Token>, folded: &Vec<Vec<char>>) -> (lints: Vec<Lint>)
        requires
            self.wf(),
            views(folded@) == folded_texts(tokens@),
        ensures
            lint_models(lints@) == scan_model(self@, tokens@),
    {
        let mut out: Vec<Lint> = Vec::new();
        let mut pos: usize = 0;
        assert(folded.len() == tokens.len()) by {
            assert(views(folded@).len() == folded@.len());
        }
        while pos < tokens.len()
            invariant
                self.wf(),
                views(folded@) == folded_texts(tokens@),
                folded.len() == tokens.len(),
                pos <= tokens.len(),
                lint_models(out@) + lints_from(self@, tokens@, pos as int) == lints_from(
                    self@,
                    tokens@,
                    0,
                ),
            decreases tokens.len() - pos,
        {
            match best_site(&self.rule, &self.sites, &self.index, folded, pos) {
                Some(e) => {
                    proof {
                        lemma_sites_in_range(self@.groups);
                        lemma_best_among(
                            phrase_table(self@),
                            views(folded@),
                            pos as int,
                            phrase_table(self@).len() as int,
                        );
                    }
                    let site = self.sites[e];
                    let lint = make_lint(&self.rule, tokens, pos, site);
                    let n = self.rule.group(site.group).bad_phrase(site.phrase).word_count();
                    out.push(lint);
                    pos += n;
                },
                None => {
                    pos += 1;
                },
            }
        }
        out
    }
}

/// The folded texts of a stream of tokens.
pub fn fold_tokens(tokens: &Vec<Token>) -> (folded: Vec<Vec<char>>)
    ensures
        views(folded@) == folded_texts(tokens@),
{
    let mut out: Vec<Vec<char>> = Vec::new();
    let mut i: usize = 0;
    while i < tokens.len()
        invariant
            i <= tokens.len(),
            out.len() == i,
            forall|j: int| 0 <= j < i ==> (#[trigger] out@[j])@ == folded_texts(tokens@)[j],
        decreases tokens.len() - i,
    {
        out.push(fold_str(tokens[i].text.as_str()));
        i += 1;
    }
    out
}

/// Lists the places of the wrong phrases of a rule.
fn list_sites(rule: &CorrectionRule) -> (sites: Vec<Site>)
    requires
        rule.wf(),
    ensures
        site_models(sites@) == sites_of(rule@.groups),
{
    let mut sites: Vec<Site> = Vec::new();
    let mut g: usize = 0;
    while g < rule.group_count()
        invariant
            rule.wf(),
            g <= rule@.groups.len(),
            site_models(sites@) == sites_of(rule@.groups.take(g as int)),
        decreases rule@.groups.len() - g,
    {
        let group = rule.group(g);
        let ghost before = site_models(sites@);
        let mut b: usize = 0;
        while b < group.bad_count()
            invariant
                b <= group@.bad.len(),
                site_models(sites@) == before + group_sites(g as int, b as nat),
            decreases group@.bad.len() - b,
        {
            let ghost prior = site_models(sites@);
            let site = Site { group: g, phrase: b };
            sites.push(site);
            assert(site_models(sites@) =~= prior.push(site@));
            b += 1;
        }
        proof {
            let longer = rule@.groups.take(g + 1);
            assert(longer.drop_last() =~= rule@.groups.take(g as int));
        }
        g += 1;
    }
    assert(rule@.groups.take(g as int) =~= rule@.groups);
    sites
}

/// The wrong phrase at the site at place `e`.
fn phrase_at<'a>(rule: &'a CorrectionRule, sites: &Vec<Site>, e: usize) -> (p: &'a Phrase)
    requires
        rule.wf(),
        site_models(sites@) == sites_of(rule@.groups),
        e < sites.len(),
    ensures
        p.wf(),
        p.words() == phrase_table(rule@)[e as int],
        p@ == site_text(rule@, sites_of(rule@.groups)[e as int]),
{
    proof {
        lemma_sites_in_range(rule@.groups);
        assert(site_models(sites@)[e as int] == sites@[e as int]@);
    }
    let site = sites[e];
    rule.group(site.group).bad_phrase(site.phrase)
}

/// Files the wrong phrases of a rule under the keys of their first words.
fn file_sites(rule: &CorrectionRule, sites: &Vec<Site>) -> (index: HashMap<u64, Vec<usize>>)
    requires
        rule.wf(),
        site_models(sites@) == sites_of(rule@.groups),
    ensures
        index_sound(index@, sites.len() as int),
        index_complete(index@, phrase_table(rule@), sites.len() as int),
{
    let ghost table = phrase_table(rule@);
    let mut index: HashMap<u64, Vec<usize>> = HashMap::new();
    let mut e: usize = 0;
    while e < sites.len()
        invariant
            rule.wf(),
            site_models(sites@) == sites_of(rule@.groups),
            table == phrase_table(rule@),
            e <= sites.len(),
            index_sound(index@, e as int),
            index_complete(index@, table, e as int),
        decreases sites.len() - e,
    {
        let phrase = phrase_at(rule, sites, e);
        proof {
            phrase.lemma_wf();
        }
        let key = word_key(phrase.word(0));
        let ghost before = index@;
        let mut list: Vec<usize> = match index.remove(&key) {
            Some(l) => l,
            None => Vec::new(),
        };
        let ghost old_list = list@;
        list.push(e);
        index.insert(key, list);
        proof {
            let after = index@;
            assert forall|o: int| 0 <= o < e + 1 implies files(
                after,
                first_key(#[trigger] table[o]),
                o,
            ) by {
                let k = first_key(table[o]);
                if o == e {
                    assert(after[key]@[old_list.len() as int] == e);
                } else {
                    let j = choose|j: int| 0 <= j < before[k]@.len() && #[trigger] before[k]@[j] == o;
                    if k == key {
                        assert(after[k]@[j] == o);
                    }
                }
            }
        }
        e += 1;
    }
    index
}

/// Whether the phrase at the site at place `e` stands at `pos`.
fn stands(
    rule: &CorrectionRule,
    sites: &Vec<Site>,
    e: usize,
    folded: &Vec<Vec<char>>,
    pos: usize,
) -> (r: bool)
    requires
        rule.wf(),
        site_models(sites@) == sites_of(rule@.groups),
        e < sites.len(),
        pos <= folded.len(),
    ensures
        r == stands_at(phrase_table(rule@)[e as int], views(folded@), pos as int),
{
    let phrase = phrase_at(rule, sites, e);
    let n = phrase.word_count();
    let ghost words = phrase.words();
    let ghost toks = views(folded@);
    if n > folded.len() - pos {
        return false;
    }
    let mut k: usize = 0;
    while k < n
        invariant
            phrase.wf(),
            words == phrase.words(),
            toks == views(folded@),
            words == phrase_table(rule@)[e as int],
            toks.len() == folded.len(),
            n == words.len(),
            k <= n,
            pos + n <= folded.len(),
            forall|j: int| 0 <= j < k ==> toks[pos + j] == #[trigger] words[j],
        decreases n - k,
    {
        if !same_word(&folded[pos + k], phrase.word(k)) {
            return false;
        }
        k += 1;
    }
    true
}

/// The phrase to report at `pos`, found through the index.
fn best_site(
    rule: &CorrectionRule,
    sites: &Vec<Site>,
    index: &HashMap<u64, Vec<usize>>,
    folded: &Vec<Vec<char>>,
    pos: usize,
) -> (r: Option<usize>)
    requires
        rule.wf(),
        site_models(sites@) == sites_of(rule@.groups),
        index_sound(index@, sites.len() as int),
        index_complete(index@, phrase_table(rule@), sites.len() as int),
        pos < folded.len(),
    ensures
        match r {
            Some(e) => e < sites.len() && best_at(rule@, views(folded@), pos as int) == Some(
                e as int,
            ),
            None => best_at(rule@, views(folded@), pos as int) is None,
        },
{
    let ghost table = phrase_table(rule@);
    let ghost toks = views(folded@);
    let ghost total = sites.len() as int;
    // A phrase that stands here begins with this token, and so is filed
    // under its key: the best of those filed there is the best of all.
    let key = word_key(&folded[pos]);
    match index.get(&key) {
        None => {
            proof {
                lemma_best_among(table, toks, pos as int, total);
            }
            None
        },
        Some(filed) => {
            let mut best: Option<usize> = None;
            let mut best_len: usize = 0;
            let mut j: usize = 0;
            while j < filed.len()
                invariant
                    rule.wf(),
                    site_models(sites@) == sites_of(rule@.groups),
                    table == phrase_table(rule@),
                    toks == views(folded@),
                    total == sites.len(),
                    table.len() == total,
                    pos < folded.len(),
                    j <= filed.len(),
                    forall|i: int| 0 <= i < filed@.len() ==> (#[trigger] filed@[i]) < total,
                    match best {
                        Some(b) => {
                            &&& b < total
                            &&& stands_at(table[b as int], toks, pos as int)
                            &&& best_len == table[b as int].len()
                            &&& forall|i: int|
                                0 <= i < j && stands_at(table[(#[trigger] filed@[i]) as int], toks, pos as int)
                                    ==> table[filed@[i] as int].len() < best_len || (
                                table[filed@[i] as int].len() == best_len && b <= filed@[i])
                        },
                        None => forall|i: int|
                            0 <= i < j ==> !stands_at(
                                table[(#[trigger] filed@[i]) as int],
                                toks,
                                pos as int,
                            ),
                    },
                decreases filed.len() - j,
            {
                let e = filed[j];
                if stands(rule, sites, e, folded, pos) {
                    let n = phrase_at(rule, sites, e).word_count();
                    let better = match best {
                        None => true,
                        Some(b) => n > best_len || (n == best_len && e < b),
                    };
                    if better {
                        best = Some(e);
                        best_len = n;
                    }
                }
                j += 1;
            }
            proof {
                match best {
                    Some(b) => {
                        lemma_best_is_unique(table, toks, pos as int, total, b as int);
                    },
                    None => {
                        lemma_best_among(table, toks, pos as int, total);
                    },
                }
            }
            best
        },
    }
}

/// The texts of a list of phrases, each a string of its own.
fn phrase_strings(group: &CorrectionGroup) -> (out: Vec<String>)
    requires
        group.wf(),
    ensures
        texts(out@) == group@.good,
{
    let mut out: Vec<String> = Vec::new();
    let mut i: usize = 0;
    while i < group.good_count()
        invariant
            group.wf(),
            i <= group@.good.len(),
            out.len() == i,
            forall|j: int| 0 <= j < i ==> (#[trigger] out@[j])@ == group@.good[j],
        decreases group@.good.len() - i,
    {
        out.push(group.good_phrase(i).text().to_owned());
        i += 1;
    }
    out
}

/// The finding for the phrase at `site`, which stands at `pos`.
fn make_lint(rule: &CorrectionRule, tokens: &Vec<Token>, pos: usize, site: Site) -> (lint: Lint)
    requires
        rule.wf(),
        site.group < rule@.groups.len(),
        site.phrase < rule@.groups[site.group as int].bad.len(),
        pos + phrase_words(site_text(rule@, site@)).len() <= tokens.len(),
    ensures
        lint@ == lint_at(rule@, tokens@, pos as int, site@),
{
    let group = rule.group(site.group);
    let phrase = group.bad_phrase(site.phrase);
    let end = pos + phrase.word_count();
    proof {
        group.lemma_wf();
    }
    let suggestions = match group.mode() {
        CorrectionMode::OneToOne => {
            let mut one: Vec<String> = Vec::new();
            one.push(group.good_phrase(site.phrase).text().to_owned());
            assert(texts(one@) =~= seq![group@.good[site.phrase as int]]);
            one
        },
        CorrectionMode::ManyToMany => phrase_strings(group),
    };
    Lint {
        tokens: Span { start: pos, end },
        span: Span { start: tokens[pos].span.start, end: tokens[end - 1].span.end },
        matched_text: phrase.text().to_owned(),
        rule_name: rule.name().to_owned(),
        message: rule.message().to_owned(),
        suggestions,
    }
}

} // verus!
