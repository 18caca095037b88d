use akiraka::rules::{evaluate, manifest_os_name, OsCondition, Platform, Rule, RuleAction, RuleMode};

fn platform(os: &str, arch: &str) -> Platform {
    Platform { os: os.to_string(), arch: arch.to_string() }
}

fn os_rule(action: RuleAction, name: Option<&str>, arch: Option<&str>) -> Rule {
    Rule {
        action,
        os: Some(OsCondition { name: name.map(|s| s.to_string()), arch: arch.map(|s| s.to_string()) }),
    }
}

fn plain_rule(action: RuleAction) -> Rule {
    Rule { action, os: None }
}

#[test]
fn osx_rule_matches_macos() {
    let rules = vec![os_rule(RuleAction::Allow, Some("osx"), None)];
    assert!(evaluate(&rules, &platform("macos", "aarch64"), RuleMode::ResetOnMismatch));
    assert!(evaluate(&rules, &platform("macos", "aarch64"), RuleMode::KeepOnMismatch));
}

#[test]
fn osx_rule_alone_excludes_linux() {
    let rules = vec![os_rule(RuleAction::Allow, Some("osx"), None)];
    assert!(!evaluate(&rules, &platform("linux", "x86_64"), RuleMode::ResetOnMismatch));
    assert!(!evaluate(&rules, &platform("linux", "x86_64"), RuleMode::KeepOnMismatch));
}

#[test]
fn arch_substring_matches() {
    let rules = vec![os_rule(RuleAction::Allow, None, Some("64"))];
    assert!(evaluate(&rules, &platform("linux", "x86_64"), RuleMode::ResetOnMismatch));
    assert!(!evaluate(&rules, &platform("linux", "x86"), RuleMode::ResetOnMismatch));
}

#[test]
fn arch_match_ignores_case() {
    let rules = vec![os_rule(RuleAction::Allow, None, Some("X86"))];
    assert!(evaluate(&rules, &platform("windows", "x86_64"), RuleMode::KeepOnMismatch));
    let upper = vec![os_rule(RuleAction::Allow, None, Some("arch"))];
    assert!(evaluate(&upper, &platform("windows", "AARCH64"), RuleMode::KeepOnMismatch));
}

#[test]
fn evaluation_is_repeatable() {
    let rules = vec![
        plain_rule(RuleAction::Allow),
        os_rule(RuleAction::Disallow, Some("osx"), None),
        os_rule(RuleAction::Allow, None, Some("64")),
    ];
    let p = platform("linux", "x86_64");
    for mode in [RuleMode::ResetOnMismatch, RuleMode::KeepOnMismatch] {
        let first = evaluate(&rules, &p, mode);
        for _ in 0..5 {
            assert_eq!(evaluate(&rules, &p, mode), first);
        }
    }
}

#[test]
fn empty_rule_list_excludes() {
    assert!(!evaluate(&Vec::new(), &platform("linux", "x86_64"), RuleMode::KeepOnMismatch));
}

#[test]
fn mismatch_resets_or_keeps_by_mode() {
    let rules = vec![plain_rule(RuleAction::Allow), os_rule(RuleAction::Allow, Some("osx"), None)];
    let p = platform("linux", "x86_64");
    assert!(!evaluate(&rules, &p, RuleMode::ResetOnMismatch));
    assert!(evaluate(&rules, &p, RuleMode::KeepOnMismatch));
}

#[test]
fn later_match_restores_after_reset() {
    let rules = vec![os_rule(RuleAction::Allow, Some("osx"), None), os_rule(RuleAction::Allow, Some("linux"), None)];
    assert!(evaluate(&rules, &platform("linux", "x86_64"), RuleMode::ResetOnMismatch));
}

#[test]
fn disallow_adds_nothing() {
    let rules = vec![plain_rule(RuleAction::Allow), os_rule(RuleAction::Disallow, Some("osx"), None)];
    assert!(evaluate(&rules, &platform("macos", "x86_64"), RuleMode::KeepOnMismatch));
    assert!(!evaluate(&vec![plain_rule(RuleAction::Disallow)], &platform("macos", "x86_64"), RuleMode::KeepOnMismatch));
}

#[test]
fn rule_needs_every_named_condition() {
    let rules = vec![os_rule(RuleAction::Allow, Some("windows"), Some("86"))];
    for mode in [RuleMode::ResetOnMismatch, RuleMode::KeepOnMismatch] {
        assert!(!evaluate(&rules, &platform("linux", "x86_64"), mode));
        assert!(!evaluate(&rules, &platform("windows", "arm64"), mode));
        assert!(evaluate(&rules, &platform("windows", "x86_64"), mode));
    }
    let osx_zzz = vec![os_rule(RuleAction::Allow, Some("osx"), Some("zzz"))];
    assert!(!evaluate(&osx_zzz, &platform("macos", "x86_64"), RuleMode::KeepOnMismatch));
    let keep = vec![plain_rule(RuleAction::Allow), os_rule(RuleAction::Allow, Some("osx"), Some("zzz"))];
    assert!(evaluate(&keep, &platform("macos", "x86_64"), RuleMode::KeepOnMismatch));
    assert!(!evaluate(&keep, &platform("macos", "x86_64"), RuleMode::ResetOnMismatch));
}

#[test]
fn empty_os_clause_leaves_result() {
    let rules = vec![plain_rule(RuleAction::Allow), os_rule(RuleAction::Allow, None, None)];
    assert!(evaluate(&rules, &platform("linux", "x86_64"), RuleMode::ResetOnMismatch));
    let alone = vec![os_rule(RuleAction::Allow, None, None)];
    assert!(!evaluate(&alone, &platform("linux", "x86_64"), RuleMode::KeepOnMismatch));
}

#[test]
fn manifest_names_macos_osx() {
    assert_eq!(manifest_os_name("macos"), "osx");
    assert_eq!(manifest_os_name("linux"), "linux");
    assert_eq!(manifest_os_name("windows"), "windows");
}
