use biome_analyze::RuleSource;
use biome_diagnostics::Severity;
use biome_to_eslint::registry::RuleRegistry;

fn keys(registry: &RuleRegistry) -> Vec<(String, String)> {
    let mut keys = Vec::new();
    for i in 0..registry.len() {
        let rule = registry.rule(i);
        keys.push((rule.group.clone(), rule.name.clone()));
    }
    keys
}

fn key(group: &str, name: &str) -> (String, String) {
    (group.to_string(), name.to_string())
}

#[test]
fn a_new_registry_is_empty() {
    let registry = RuleRegistry::new();
    assert_eq!(registry.len(), 0);
    assert_eq!(RuleRegistry::default().len(), 0);
}

#[test]
fn rules_are_kept_by_group_and_then_by_name() {
    let mut registry = RuleRegistry::new();
    registry.record_rule("style", "useConst", Severity::Error, vec![]);
    registry.record_rule("a11y", "useAltText", Severity::Error, vec![]);
    registry.record_rule("style", "noVar", Severity::Warning, vec![]);
    registry.record_rule("suspicious", "noDebugger", Severity::Error, vec![]);
    registry.record_rule("a11y", "noBlankTarget", Severity::Error, vec![]);
    registry.record_rule("complexity", "useLiteralKeys", Severity::Error, vec![]);
    assert_eq!(
        keys(&registry),
        vec![
            key("a11y", "noBlankTarget"),
            key("a11y", "useAltText"),
            key("complexity", "useLiteralKeys"),
            key("style", "noVar"),
            key("style", "useConst"),
            key("suspicious", "noDebugger"),
        ]
    );
}

#[test]
fn the_group_decides_before_the_name() {
    let mut registry = RuleRegistry::new();
    registry.record_rule("b", "a", Severity::Error, vec![]);
    registry.record_rule("a", "z", Severity::Error, vec![]);
    registry.record_rule("ab", "c", Severity::Error, vec![]);
    registry.record_rule("a", "b", Severity::Error, vec![]);
    assert_eq!(keys(&registry), vec![key("a", "b"), key("a", "z"), key("ab", "c"), key("b", "a")]);
}

#[test]
fn a_rule_recorded_again_replaces_the_first() {
    let mut registry = RuleRegistry::new();
    registry.record_rule("style", "noVar", Severity::Warning, vec![]);
    registry.record_rule("style", "useConst", Severity::Warning, vec![]);
    registry.record_rule("style", "noVar", Severity::Error, vec![RuleSource::Eslint("no-var")]);
    assert_eq!(registry.len(), 2);
    let rule = registry.rule(0);
    assert_eq!(rule.group, "style");
    assert_eq!(rule.name, "noVar");
    assert_eq!(rule.severity, Severity::Error);
    assert_eq!(rule.sources.len(), 1);
    assert_eq!(rule.sources[0].as_rule_name(), "no-var");
    let other = registry.rule(1);
    assert_eq!(other.name, "useConst");
    assert_eq!(other.severity, Severity::Warning);
}

#[test]
fn a_rule_keeps_what_it_was_recorded_with() {
    let mut registry = RuleRegistry::new();
    registry.record_rule(
        "suspicious",
        "noExplicitAny",
        Severity::Information,
        vec![RuleSource::EslintTypeScript("no-explicit-any"), RuleSource::Eslint("other")],
    );
    let rule = registry.rule(0);
    assert_eq!(rule.group, "suspicious");
    assert_eq!(rule.name, "noExplicitAny");
    assert_eq!(rule.severity, Severity::Information);
    assert_eq!(rule.sources.len(), 2);
    assert!(matches!(rule.sources[0], RuleSource::EslintTypeScript("no-explicit-any")));
    assert!(matches!(rule.sources[1], RuleSource::Eslint("other")));
}

#[test]
fn the_same_name_in_two_groups_is_two_rules() {
    let mut registry = RuleRegistry::new();
    registry.record_rule("style", "noVar", Severity::Error, vec![]);
    registry.record_rule("nursery", "noVar", Severity::Warning, vec![]);
    assert_eq!(keys(&registry), vec![key("nursery", "noVar"), key("style", "noVar")]);
}

#[test]
fn the_order_does_not_depend_on_the_order_of_recording() {
    let rules = vec![("style", "noVar"), ("a11y", "useAltText"), ("style", "useConst"), ("a11y", "a")];
    let mut forward = RuleRegistry::new();
    for (group, name) in &rules {
        forward.record_rule(group, name, Severity::Error, vec![]);
    }
    let mut backward = RuleRegistry::new();
    for (group, name) in rules.iter().rev() {
        backward.record_rule(group, name, Severity::Error, vec![]);
    }
    assert_eq!(keys(&forward), keys(&backward));
}
