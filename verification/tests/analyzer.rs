use biome_analyze::{Queryable, RegistryVisitor, Rule, RuleGroup, RuleSource};
use biome_diagnostics::Severity;
use biome_js_analyze::visit_registry;
use biome_js_syntax::JsLanguage;
use biome_to_eslint::generate::generate_eslint_config;
use biome_to_eslint::registry::RuleRegistry;
use biome_to_eslint::resolve::EnabledRules;
use biome_to_eslint::severity::Rules;
use biome_to_eslint::source::{namespaced_rule_name, RuleSourceKind};
use biome_to_eslint::text::{rank, Rank};

struct Collector {
    registry: RuleRegistry,
}

impl RegistryVisitor<JsLanguage> for Collector {
    fn record_rule<R>(&mut self)
    where
        R: Rule + 'static,
        R::Query: Queryable<Language = JsLanguage>,
        <R::Query as Queryable>::Output: Clone,
    {
        let metadata = R::METADATA;
        let sources: Vec<RuleSource> = metadata.source.into_iter().collect();
        self.registry.record_rule(
            <R::Group as RuleGroup>::NAME,
            metadata.name,
            Severity::Error,
            sources,
        );
    }
}

fn analyzer_rules() -> RuleRegistry {
    let mut collector = Collector { registry: RuleRegistry::new() };
    visit_registry(&mut collector);
    collector.registry
}

#[test]
fn the_analyzers_rules_are_kept_in_order() {
    let registry = analyzer_rules();
    assert!(registry.len() > 100);
    for i in 1..registry.len() {
        let before = registry.rule(i - 1);
        let after = registry.rule(i);
        assert!((before.group.as_str(), before.name.as_str()) < (after.group.as_str(), after.name.as_str()));
        let by_group = rank(&before.group, &after.group);
        assert!(
            by_group == Rank::Before
                || (by_group == Rank::Same && rank(&before.name, &after.name) == Rank::Before)
        );
    }
}

#[test]
fn the_analyzers_rules_convert_to_a_module() {
    let registry = analyzer_rules();
    let mut enabled = EnabledRules::new();
    let mut expected = std::collections::BTreeMap::new();
    let mut with_typescript = false;
    for i in 0..registry.len() {
        let rule = registry.rule(i);
        enabled.insert(&rule.group, &rule.name);
        if let Some(source) = rule.sources.first() {
            expected.insert(namespaced_rule_name(source), "error".to_string());
            with_typescript |= RuleSourceKind::from(source) == RuleSourceKind::EslintTypeScript;
        }
    }
    let done = generate_eslint_config(&registry, &enabled, &Rules::new()).unwrap();
    assert_eq!(done.trace.len(), registry.len());
    let rules: Vec<(String, String)> =
        done.config.rules.iter().map(|rule| (rule.name.clone(), rule.level.clone())).collect();
    assert_eq!(rules, expected.into_iter().collect::<Vec<_>>());
    assert!(rules.len() > 50);
    assert!(with_typescript);
    assert_eq!(done.config.plugins.len(), 1);
    assert_eq!(done.config.imports.len(), 2);
    assert!(done.source.starts_with(
        "import tseslint from \"typescript-eslint\";\nimport { defineConfig } from \"eslint/config\";\nexport default defineConfig({\n"
    ));
    assert!(done.source.contains("\tplugins: { \"@typescript-eslint\": tseslint },\n"));
    assert!(done.source.ends_with("\t},\n});\n"));
    for (name, level) in &rules {
        let quoted = format!("\t\t\"{name}\": \"{level}\",\n");
        let bare = format!("\t\t{name}: \"{level}\",\n");
        assert!(done.source.contains(&quoted) || done.source.contains(&bare), "{name}");
    }
    let again = generate_eslint_config(&registry, &enabled, &Rules::new()).unwrap();
    assert_eq!(done.source, again.source);
}
