//! The settings of a run: tokens, the budget, the accounts to keep in step
//! and the payee rules.

use crate::payee::{pattern_compiles, PayeeRule, PayeeRuleView};
use crate::text::str_eq;
use vstd::prelude::*;
use vstd::string::*;

verus! {

#[derive(Clone, Debug, PartialEq, Eq)]
pub struct YNABSettings {
    pub access_token: String,
}

#[derive(Clone, Debug, PartialEq, Eq)]
pub struct BankSettings {
    pub app_token: String,
    pub user_token: String,
}

/// A bank account and the budget account that follows it.
#[derive(Clone, Debug, PartialEq, Eq)]
pub struct AccountSettings {
    pub akahu_id: String,
    pub ynab_id: String,
}

#[derive(Clone, Debug, PartialEq, Eq)]
pub struct RichSettings {
    pub budget_id: String,
    /// The accounts, each under its name.
    pub accounts: Vec<(String, AccountSettings)>,
}

#[derive(Clone, Debug, PartialEq, Eq)]
pub struct PayeeSettings {
    /// Pairs of a payee and the pattern that finds it, in the order in which
    /// they are tried.
    pub regex: Vec<(String, String)>,
}

#[derive(Clone, Debug, PartialEq, Eq)]
pub struct Settings {
    pub ynab: YNABSettings,
    pub bank: BankSettings,
    pub rich: RichSettings,
    pub payee: PayeeSettings,
}

/// Whether entry `i` is the first of `accounts` under `name`.
pub open spec fn first_named(accounts: Seq<(String, AccountSettings)>, name: Seq<char>, i: int) -> bool {
    &&& 0 <= i < accounts.len()
    &&& accounts[i].0@ == name
    &&& forall|j: int| 0 <= j < i ==> (#[trigger] accounts[j]).0@ != name
}

/// Whether entry `i` is the first of `entries` whose pattern does not
/// compile.
pub open spec fn first_bad_pattern(entries: Seq<(String, String)>, i: int) -> bool {
    &&& 0 <= i < entries.len()
    &&& !pattern_compiles(entries[i].1@)
    &&& forall|j: int| 0 <= j < i ==> pattern_compiles((#[trigger] entries[j]).1@)
}

/// The rules that `entries` spell out.
pub open spec fn entry_views(entries: Seq<(String, String)>) -> Seq<PayeeRuleView> {
    entries.map_values(
        |entry: (String, String)| PayeeRuleView { payee_id: entry.0@, pattern: entry.1@ },
    )
}

impl RichSettings {
    /// The first account under `name`.
    pub fn account(&self, name: &str) -> (found: Option<&AccountSettings>)
        ensures
            match found {
                Some(account) => exists|i: int|
                    first_named(self.accounts@, name@, i) && *account == (
                    #[trigger] self.accounts@[i]).1,
                None => forall|i: int|
                    0 <= i < self.accounts@.len() ==> (#[trigger] self.accounts@[i]).0@ != name@,
            },
    {
        let mut i: usize = 0;
        while i < self.accounts.len()
            invariant
                i <= self.accounts.len(),
                forall|j: int| 0 <= j < i ==> (#[trigger] self.accounts@[j]).0@ != name@,
            decreases self.accounts.len() - i,
        {
            if str_eq(self.accounts[i].0.as_str(), name) {
                assert(first_named(self.accounts@, name@, i as int));
                return Some(&self.accounts[i].1);
            }
            i += 1;
        }
        None
    }
}

impl PayeeSettings {
    /// The payee rules of the settings, in their order; where a pattern does
    /// not compile, the first such pattern.
    pub fn rules(&self) -> (compiled: Result<Vec<PayeeRule>, String>)
        ensures
            match compiled {
                Ok(rules) => rules@.map_values(|rule: PayeeRule| rule@) == entry_views(self.regex@)
                    && forall|i: int|
                    0 <= i < self.regex@.len() ==> pattern_compiles((#[trigger] self.regex@[i]).1@),
                Err(pattern) => exists|i: int|
                    first_bad_pattern(self.regex@, i) && pattern@ == (#[trigger] self.regex@[i]).1@,
            },
    {
        let mut rules: Vec<PayeeRule> = Vec::new();
        let mut i: usize = 0;
        while i < self.regex.len()
            invariant
                i <= self.regex.len(),
                rules@.map_values(|rule: PayeeRule| rule@) == entry_views(self.regex@.take(i as int)),
                forall|j: int| 0 <= j < i ==> pattern_compiles((#[trigger] self.regex@[j]).1@),
            decreases self.regex.len() - i,
        {
            let ghost before = rules@.map_values(|rule: PayeeRule| rule@);
            match PayeeRule::new(self.regex[i].0.as_str(), self.regex[i].1.as_str()) {
                Some(rule) => {
                    rules.push(rule);
                    assert(rules@.map_values(|rule: PayeeRule| rule@) =~= before.push(rule@));
                    assert(entry_views(self.regex@.take(i + 1)) =~= entry_views(
                        self.regex@.take(i as int),
                    ).push(
                        PayeeRuleView {
                            payee_id: self.regex@[i as int].0@,
                            pattern: self.regex@[i as int].1@,
                        },
                    ));
                },
                None => {
                    assert(first_bad_pattern(self.regex@, i as int));
                    return Err(self.regex[i].1.clone());
                },
            }
            i += 1;
        }
        assert(self.regex@.take(i as int) =~= self.regex@);
        Ok(rules)
    }
}

} // verus!
