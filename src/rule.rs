use vstd::prelude::*;

use crate::platform::{Os, Platform};

verus! {

/// What a rule does when it matches the host.
#[derive(Debug, Clone, Copy, PartialEq, Eq, Structural)]
pub enum RuleAction {
    Allow,
    Disallow,
}

/// A platform rule of a library or of a conditional argument.
#[derive(Debug, Clone)]
pub struct Rule {
    pub action: RuleAction,
    /// Feature flags the rule asks for; their evaluation is not supported, so
    /// a rule that carries any never matches.
    pub features: Option<Vec<(String, bool)>>,
    pub os: Option<Os>,
}

/// Whether an action lets an item through, given whether its rule matched.
pub open spec fn action_permits(action: RuleAction, matched: bool) -> bool {
    match action {
        RuleAction::Allow => matched,
        RuleAction::Disallow => !matched,
    }
}

pub open spec fn rule_matches(rule: Rule, platform: Platform) -> bool {
    &&& (rule.os is None || rule.os->0.spec_matches(platform))
    &&& rule.features is None
}

pub open spec fn rule_allowed(rule: Rule, platform: Platform) -> bool {
    action_permits(rule.action, rule_matches(rule, platform))
}

/// Every rule of the list is allowed on the host.
pub open spec fn all_rules_allowed(rules: Seq<Rule>, platform: Platform) -> bool {
    forall|i: int| 0 <= i < rules.len() ==> #[trigger] rule_allowed(rules[i], platform)
}

impl Rule {
    /// True when the rule's filter fits the host and it carries no feature flags.
    pub fn matches(&self, platform: &Platform) -> (r: bool)
        ensures
            r == rule_matches(*self, *platform),
    {
        let os_ok = match &self.os {
            None => true,
            Some(os) => os.matches(platform),
        };
        os_ok && self.features.is_none()
    }

    /// Whether the rule lets its item through on the host.
    pub fn is_allowed(&self, platform: &Platform) -> (r: bool)
        ensures
            r == rule_allowed(*self, *platform),
    {
        let is_matched = self.matches(platform);
        match self.action {
            RuleAction::Allow => is_matched,
            RuleAction::Disallow => !is_matched,
        }
    }
}

/// True when every rule of the list is allowed: the rules are joined by AND.
pub fn rules_allowed(rules: &Vec<Rule>, platform: &Platform) -> (r: bool)
    ensures
        r == all_rules_allowed(rules@, *platform),
{
    let mut i: usize = 0;
    while i < rules.len()
        invariant
            i <= rules.len(),
            forall|j: int| 0 <= j < i ==> #[trigger] rule_allowed(rules@[j], *platform),
        decreases rules.len() - i,
    {
        if !rules[i].is_allowed(platform) {
            return false;
        }
        i = i + 1;
    }
    true
}

/// The four cases of a rule's decision: an allowing rule lets its item through
/// exactly when it matches, a disallowing rule exactly when it does not.
pub proof fn lemma_rule_decision(rule: Rule, platform: Platform)
    ensures
        rule.action == RuleAction::Allow && rule_matches(rule, platform) ==> rule_allowed(rule, platform),
        rule.action == RuleAction::Allow && !rule_matches(rule, platform) ==> !rule_allowed(rule, platform),
        rule.action == RuleAction::Disallow && rule_matches(rule, platform) ==> !rule_allowed(rule, platform),
        rule.action == RuleAction::Disallow && !rule_matches(rule, platform) ==> rule_allowed(rule, platform),
{
}

} // verus!
