//! Payee rules: each names a payee of the budget and a pattern; a
//! description belongs to the payee of the first rule whose pattern matches.

use vstd::prelude::*;
use vstd::string::*;

verus! {

/// Whether `regex::Regex::new` compiles `pattern`, under the limits that it
/// sets by itself.
pub uninterp spec fn pattern_compiles(pattern: Seq<char>) -> bool;

/// What `regex::Regex::is_match` answers on `text` for the regular expression
/// compiled from `pattern`: whether the expression matches anywhere in it.
pub uninterp spec fn pattern_matches(pattern: Seq<char>, text: Seq<char>) -> bool;

/// Calls `regex::Regex::new` on `pattern` and, on the expression it returns,
/// `regex::Regex::is_match` on `text`. Assumed: the result is `Some` exactly
/// where the pattern compiles, and then holds what `is_match` answered; equal
/// arguments give equal results.
#[verifier::external_body]
fn regex_is_match(pattern: &str, text: &str) -> (found: Option<bool>)
    ensures
        found is Some <==> pattern_compiles(pattern@),
        found matches Some(answer) ==> answer == pattern_matches(pattern@, text@),
{
    match regex::Regex::new(pattern) {
        Ok(expression) => Some(expression.is_match(text)),
        Err(_) => None,
    }
}

/// A rule as contracts see it.
pub struct PayeeRuleView {
    pub payee_id: Seq<char>,
    pub pattern: Seq<char>,
}

/// One payee of the budget and the pattern that finds it in a description.
/// The pattern of every rule compiles.
#[derive(Debug)]
pub struct PayeeRule {
    payee_id: String,
    pattern: String,
}

impl View for PayeeRule {
    type V = PayeeRuleView;

    closed spec fn view(&self) -> PayeeRuleView {
        PayeeRuleView { payee_id: self.payee_id@, pattern: self.pattern@ }
    }
}

impl Clone for PayeeRule {
    fn clone(&self) -> (copy: Self)
        ensures
            copy@ == self@,
    {
        proof {
            use_type_invariant(self);
        }
        PayeeRule { payee_id: self.payee_id.clone(), pattern: self.pattern.clone() }
    }
}

impl PayeeRule {
    #[verifier::type_invariant]
    closed spec fn compiles(self) -> bool {
        pattern_compiles(self.pattern@)
    }

    /// The rule that gives descriptions matching `pattern` to `payee_id`;
    /// `None` where the pattern is no regular expression.
    pub fn new(payee_id: &str, pattern: &str) -> (rule: Option<PayeeRule>)
        ensures
            rule is Some <==> pattern_compiles(pattern@),
            rule matches Some(r) ==> r@.payee_id == payee_id@ && r@.pattern == pattern@,
    {
        match regex_is_match(pattern, "") {
            Some(_) => Some(
                PayeeRule { payee_id: payee_id.to_owned(), pattern: pattern.to_owned() },
            ),
            None => None,
        }
    }

    /// The payee that the rule names.
    pub fn payee_id(&self) -> (id: &str)
        ensures
            id@ == self@.payee_id,
    {
        self.payee_id.as_str()
    }

    /// The pattern of the rule.
    pub fn pattern(&self) -> (pattern: &str)
        ensures
            pattern@ == self@.pattern,
            pattern_compiles(pattern@),
    {
        proof {
            use_type_invariant(self);
        }
        self.pattern.as_str()
    }

    /// Whether the pattern of the rule matches anywhere in `text`.
    pub fn matches(&self, text: &str) -> (found: bool)
        ensures
            found == pattern_matches(self@.pattern, text@),
    {
        proof {
            use_type_invariant(self);
        }
        regex_is_match(self.pattern.as_str(), text).unwrap()
    }
}

/// Whether rule `i` is the first of `rules` whose pattern matches `text`.
pub open spec fn first_match_at(rules: Seq<PayeeRuleView>, text: Seq<char>, i: int) -> bool {
    &&& 0 <= i < rules.len()
    &&& pattern_matches(rules[i].pattern, text)
    &&& forall|j: int| 0 <= j < i ==> !pattern_matches((#[trigger] rules[j]).pattern, text)
}

/// The payee of the first of `rules` whose pattern matches `text`.
pub open spec fn payee_of(rules: Seq<PayeeRuleView>, text: Seq<char>) -> Option<Seq<char>> {
    if exists|i: int| first_match_at(rules, text, i) {
        Some(rules[choose|i: int| first_match_at(rules, text, i)].payee_id)
    } else {
        None
    }
}

/// The rules as contracts see them.
pub open spec fn rule_views(rules: Seq<PayeeRule>) -> Seq<PayeeRuleView> {
    rules.map_values(|rule: PayeeRule| rule@)
}

/// Where rule `i` is the first to match, its payee is the one found.
pub proof fn lemma_first_match(rules: Seq<PayeeRuleView>, text: Seq<char>, i: int)
    requires
        first_match_at(rules, text, i),
    ensures
        payee_of(rules, text) == Some(rules[i].payee_id),
{
    let chosen = choose|k: int| first_match_at(rules, text, k);
    assert(first_match_at(rules, text, chosen));
    if chosen < i {
        assert(!pattern_matches(rules[chosen].pattern, text));
    } else if i < chosen {
        assert(!pattern_matches(rules[i].pattern, text));
    }
}

/// Where no rule matches, no payee is found.
pub proof fn lemma_no_match(rules: Seq<PayeeRuleView>, text: Seq<char>)
    requires
        forall|j: int| 0 <= j < rules.len() ==> !pattern_matches((#[trigger] rules[j]).pattern, text),
    ensures
        payee_of(rules, text) is None,
{
    if exists|i: int| first_match_at(rules, text, i) {
        let i = choose|i: int| first_match_at(rules, text, i);
        assert(pattern_matches(rules[i].pattern, text));
    }
}

/// The payee of the first of `rules` whose pattern matches `text`, in the
/// order in which the rules stand.
pub fn find_payee(rules: &Vec<PayeeRule>, text: &str) -> (payee: Option<String>)
    ensures
        payee.deep_view() == payee_of(rule_views(rules@), text@),
{
    let ghost views = rule_views(rules@);
    let mut i: usize = 0;
    while i < rules.len()
        invariant
            i <= rules.len(),
            views == rule_views(rules@),
            forall|j: int| 0 <= j < i ==> !pattern_matches((#[trigger] views[j]).pattern, text@),
        decreases rules.len() - i,
    {
        if rules[i].matches(text) {
            proof {
                assert(views[i as int] == rules[i as int]@);
                lemma_first_match(views, text@, i as int);
            }
            return Some(rules[i].payee_id().to_owned());
        }
        assert(views[i as int] == rules[i as int]@);
        i += 1;
    }
    proof {
        lemma_no_match(views, text@);
    }
    None
}

} // verus!
