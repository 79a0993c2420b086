use prism_bootstrap::model::patch::{Os, Rule};
use prism_bootstrap::platform::{expand_platform, Platform};
use prism_bootstrap::rules::{allowed, decide, os_matches, os_matches_given, rule_applies};
use prism_bootstrap::string_map::StringMap;

fn rule(action: &str) -> Rule {
    Rule { action: action.to_owned(), os: None, features: None }
}

fn os_rule(action: &str, name: Option<&str>, arch: Option<&str>, version: Option<&str>) -> Rule {
    Rule {
        action: action.to_owned(),
        os: Some(Os {
            name: name.map(str::to_owned),
            arch: arch.map(str::to_owned),
            version: version.map(str::to_owned),
        }),
        features: None,
    }
}

#[test]
fn empty_rules_allow() {
    let ctx = expand_platform(Platform::Linux);
    assert!(allowed(&[], &ctx));
}

#[test]
fn single_allow_and_disallow() {
    let ctx = expand_platform(Platform::Linux);
    assert!(allowed(&[rule("allow")], &ctx));
    assert!(!allowed(&[rule("disallow")], &ctx));
}

#[test]
fn allow_then_disallow_excludes_linux_but_not_windows() {
    let twitch = vec![rule("allow"), os_rule("disallow", Some("linux"), None, None)];
    assert!(!allowed(&twitch, &expand_platform(Platform::Linux)));
    assert!(allowed(&twitch, &expand_platform(Platform::WindowsX86)));
    assert!(allowed(&twitch, &expand_platform(Platform::OsxArm64)));
}

#[test]
fn mmc_token_os_name_matches() {
    let rule = vec![os_rule("allow", Some("osx-arm64"), None, None)];
    assert!(allowed(&rule, &expand_platform(Platform::OsxArm64)));
    assert!(!allowed(&rule, &expand_platform(Platform::Osx)));
    assert!(!allowed(&rule, &expand_platform(Platform::Linux)));
}

#[test]
fn classic_os_name_matches_both_arches_of_that_os() {
    let rule = vec![os_rule("allow", Some("osx"), None, None)];
    assert!(allowed(&rule, &expand_platform(Platform::Osx)));
    assert!(allowed(&rule, &expand_platform(Platform::OsxArm64)));
    assert!(!allowed(&rule, &expand_platform(Platform::Windows)));
}

#[test]
fn classic_name_and_arch_must_both_match() {
    let rule = vec![os_rule("allow", Some("osx"), Some("arm64"), None)];
    assert!(allowed(&rule, &expand_platform(Platform::OsxArm64)));
    // Right OS, wrong arch -> excluded.
    assert!(!allowed(&rule, &expand_platform(Platform::Osx)));
}

#[test]
fn arch_mismatch_excludes() {
    let rule = vec![os_rule("allow", Some("linux"), Some("arm64"), None)];
    assert!(!allowed(&rule, &expand_platform(Platform::Linux)));
    assert!(allowed(&rule, &expand_platform(Platform::LinuxArm64)));
}

#[test]
fn features_gate_defaults_false() {
    let mut features = StringMap::new();
    features.insert("is_demo_user".to_owned(), true);
    let demo = vec![Rule { action: "allow".to_owned(), os: None, features: Some(features) }];
    let mut ctx = expand_platform(Platform::Linux);
    assert!(!allowed(&demo, &ctx));

    ctx.features.insert("is_demo_user".to_owned(), true);
    assert!(allowed(&demo, &ctx));
}

#[test]
fn version_regex_matches_modern_default() {
    let win10 = vec![os_rule("allow", Some("windows"), None, Some("^10\\."))];
    assert!(allowed(&win10, &expand_platform(Platform::Windows)));

    let old_osx = vec![os_rule("allow", Some("osx"), None, Some("^10\\.5\\."))];
    assert!(!allowed(&old_osx, &expand_platform(Platform::Osx)));
}

#[test]
fn malformed_version_pattern_matches_nothing() {
    let broken = vec![os_rule("allow", Some("linux"), None, Some("("))];
    assert!(!allowed(&broken, &expand_platform(Platform::Linux)));
}

#[test]
fn last_applicable_rule_decides_whatever_came_before() {
    let rules = vec![
        rule("disallow"),
        os_rule("allow", Some("linux"), None, None),
        os_rule("disallow", Some("windows"), None, None),
    ];
    assert!(allowed(&rules, &expand_platform(Platform::Linux)));
    assert!(!allowed(&rules, &expand_platform(Platform::Windows)));
    assert!(!allowed(&rules, &expand_platform(Platform::FreeBsd)));
}

#[test]
fn rules_of_which_none_applies_exclude() {
    let rules = vec![os_rule("disallow", Some("windows"), None, None)];
    assert!(!allowed(&rules, &expand_platform(Platform::Linux)));
}

#[test]
fn unknown_action_does_not_allow() {
    assert!(!allowed(&[rule("maybe")], &expand_platform(Platform::Linux)));
}

#[test]
fn decision_follows_what_applies() {
    let rules = vec![rule("allow"), rule("disallow"), rule("allow")];
    assert!(!decide(&rules, &vec![true, true, false]));
    assert!(decide(&rules, &vec![true, true, true]));
    assert!(!decide(&rules, &vec![false, false, false]));
}

#[test]
fn rule_needs_all_its_predicates() {
    let ctx = expand_platform(Platform::Linux);
    let mut features = StringMap::new();
    features.insert("is_demo_user".to_owned(), false);
    let mut gated = os_rule("allow", Some("linux"), None, None);
    gated.features = Some(features);
    // The feature is asked to be off, which it is.
    assert!(rule_applies(&gated, &ctx));
    gated.os = Some(Os { name: Some("osx".to_owned()), arch: None, version: None });
    assert!(!rule_applies(&gated, &ctx));
}

#[test]
fn version_verdict_counts_only_where_a_version_is_asked_for() {
    let ctx = expand_platform(Platform::Linux);
    let with = Os { name: None, arch: None, version: Some("x".to_owned()) };
    let without = Os { name: None, arch: None, version: None };
    assert!(os_matches_given(&with, &ctx, Some(true)));
    assert!(!os_matches_given(&with, &ctx, Some(false)));
    assert!(!os_matches_given(&with, &ctx, None));
    assert!(os_matches_given(&without, &ctx, None));
    // The default version of linux is 6.1.0.
    let six = Os { name: None, arch: None, version: Some("^6\\.[0-9]+".to_owned()) };
    assert!(os_matches(&six, &ctx));
    assert!(!os_matches(&six, &expand_platform(Platform::Osx)));
}
