//! Platform rules: whether a conditional manifest entry applies to a platform.

use vstd::prelude::*;
use crate::text::{has_infix, lower_of, lowercase, contains_str};

verus! {

/// What a rule asks for when it applies.
#[derive(PartialEq, Eq, Structural, Clone, Copy, Debug)]
pub enum RuleAction {
    Allow,
    Disallow,
}

/// The operating-system clause of a rule.
pub struct OsCondition {
    /// Operating-system name as manifests write it (`windows`, `linux`, `osx`).
    pub name: Option<String>,
    /// A substring to look for, ignoring case, in the platform's architecture.
    pub arch: Option<String>,
}

/// One conditional clause of a manifest entry.
pub struct Rule {
    pub action: RuleAction,
    pub os: Option<OsCondition>,
}

/// The platform that rules are evaluated against.
pub struct Platform {
    /// Operating-system name as Rust reports it (`windows`, `linux`, `macos`).
    pub os: String,
    /// Architecture name as Rust reports it (`x86_64`, `aarch64`).
    pub arch: String,
}

/// What a condition that does not match does to the result so far.
#[derive(PartialEq, Eq, Structural, Clone, Copy, Debug)]
pub enum RuleMode {
    /// A condition that does not match resets the result to `false`; this can
    /// erase an earlier `true`.
    ResetOnMismatch,
    /// A condition that does not match leaves the result as it was.
    KeepOnMismatch,
}

/// The operating-system name that manifests use for a platform's name:
/// `macos` is written `osx`, every other name as it is.
pub open spec fn manifest_os(os: Seq<char>) -> Seq<char> {
    if os == "macos"@ {
        "osx"@
    } else {
        os
    }
}

/// The result so far after one condition of a rule has been checked.
pub open spec fn condition_step(acc: bool, allows: bool, matched: bool, mode: RuleMode) -> bool {
    if matched {
        acc || allows
    } else {
        match mode {
            RuleMode::ResetOnMismatch => false,
            RuleMode::KeepOnMismatch => acc,
        }
    }
}

/// The architecture condition `arch` matches the platform's architecture.
pub open spec fn arch_matches(platform_arch: Seq<char>, arch: Seq<char>) -> bool {
    has_infix(lower_of(platform_arch), lower_of(arch))
}

/// The OS clause `c` matches the platform: its name, where it has one, is
/// the platform's, and its architecture, where it has one, occurs in the
/// platform's.
pub open spec fn clause_matches(c: OsCondition, p: Platform) -> bool {
    (match c.name {
        Some(n) => manifest_os(p.os@) == n@,
        None => true,
    }) && (match c.arch {
        Some(a) => arch_matches(p.arch@, a@),
        None => true,
    })
}

/// The result so far after `rule`: a rule without an OS clause adds its
/// action; a rule whose OS clause names a condition acts as
/// `condition_step` says, matched only where every condition it names
/// matches; an OS clause that names nothing leaves the result as it was.
pub open spec fn rule_step(acc: bool, rule: Rule, p: Platform, mode: RuleMode) -> bool {
    let allows = rule.action == RuleAction::Allow;
    match rule.os {
        None => acc || allows,
        Some(c) => if c.name is None && c.arch is None {
            acc
        } else {
            condition_step(acc, allows, clause_matches(c, p), mode)
        },
    }
}

/// The result of a rule list: `false` to begin with, then each rule in turn.
pub open spec fn rules_allow(rules: Seq<Rule>, p: Platform, mode: RuleMode) -> bool
    decreases rules.len(),
{
    if rules.len() == 0 {
        false
    } else {
        rule_step(rules_allow(rules.drop_last(), p, mode), rules.last(), p, mode)
    }
}

/// Evaluation is a pure function of the rule list, the mode and the
/// platform's text: platforms that spell the same OS and architecture get
/// the same answer, on every evaluation.
pub proof fn lemma_evaluation_deterministic(rules: Seq<Rule>, p: Platform, q: Platform, mode: RuleMode)
    requires
        p.os@ == q.os@,
        p.arch@ == q.arch@,
    ensures
        rules_allow(rules, p, mode) == rules_allow(rules, q, mode),
    decreases rules.len(),
{
    if rules.len() > 0 {
        lemma_evaluation_deterministic(rules.drop_last(), p, q, mode);
    }
}

/// The operating-system name that manifests use for `os`.
pub fn manifest_os_name(os: &str) -> (r: String)
    ensures
        r@ == manifest_os(os@),
{
    let s = os.to_string();
    if s == "macos".to_string() {
        "osx".to_string()
    } else {
        s
    }
}

/// One rule applied to the result so far; `os_key` is the platform's OS name
/// as manifests write it.
fn apply_rule(acc: bool, rule: &Rule, platform: &Platform, os_key: &String, mode: RuleMode) -> (r: bool)
    requires
        os_key@ == manifest_os(platform.os@),
    ensures
        r == rule_step(acc, *rule, *platform, mode),
{
    let allows = rule.action == RuleAction::Allow;
    match &rule.os {
        None => acc || allows,
        Some(c) => {
            if c.name.is_none() && c.arch.is_none() {
                return acc;
            }
            let name_ok = match &c.name {
                Some(n) => *os_key == *n,
                None => true,
            };
            let arch_ok = match &c.arch {
                Some(a) => contains_str(
                    lowercase(platform.arch.as_str()).as_str(),
                    lowercase(a.as_str()).as_str(),
                ),
                None => true,
            };
            if name_ok && arch_ok {
                acc || allows
            } else {
                match mode {
                    RuleMode::ResetOnMismatch => false,
                    RuleMode::KeepOnMismatch => acc,
                }
            }
        },
    }
}

/// Whether a rule list admits the platform. Starts from `false`; a rule
/// whose named conditions all match adds its action by "or"; a rule with a
/// condition that does not match acts as `mode` says; a rule without an OS
/// clause always adds its action.
pub fn evaluate(rules: &Vec<Rule>, platform: &Platform, mode: RuleMode) -> (r: bool)
    ensures
        r == rules_allow(rules@, *platform, mode),
{
    let os_key = manifest_os_name(platform.os.as_str());
    let mut acc = false;
    let mut i: usize = 0;
    while i < rules.len()
        invariant
            i <= rules@.len(),
            os_key@ == manifest_os(platform.os@),
            acc == rules_allow(rules@.subrange(0, i as int), *platform, mode),
        decreases rules.len() - i,
    {
        acc = apply_rule(acc, &rules[i], platform, &os_key, mode);
        assert(rules@.subrange(0, i + 1).drop_last() =~= rules@.subrange(0, i as int));
        i += 1;
    }
    assert(rules@.subrange(0, i as int) =~= rules@);
    acc
}

} // verus!
