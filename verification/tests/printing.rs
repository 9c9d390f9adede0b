use biome_analyze::RuleSource;
use biome_diagnostics::Severity;
use biome_to_eslint::assemble::{assemble, EslintConfig, Import, NamedImport, PluginEntry, RuleLevel};
use biome_formatter::format_element::tag::TagKind;
use biome_formatter::{FormatError, InvalidDocumentError, PrintError};
use biome_to_eslint::emit::{
    check_identifier, check_plain_text, check_printable, laid_out, printed_text, render,
    unformatted, EmitError,
};
use biome_to_eslint::generate::generate_eslint_config;
use biome_to_eslint::registry::RuleRegistry;
use biome_to_eslint::resolve::{resolve_rules, EnabledRules, ResolvedRules};
use biome_to_eslint::severity::{GroupPlainConfiguration, Rules, SeverityOrGroup};
use biome_to_eslint::source::{DefaultImport, RuleSourceKind};

fn helper() -> Import {
    Import::Named(NamedImport {
        name: "defineConfig".to_string(),
        module: "eslint/config".to_string(),
    })
}

fn module(plugins: Vec<(&str, &str)>, rules: Vec<(&str, &str)>) -> EslintConfig {
    EslintConfig {
        imports: vec![helper()],
        plugins: plugins
            .into_iter()
            .map(|(namespace, ident)| PluginEntry {
                namespace: namespace.to_string(),
                ident: ident.to_string(),
            })
            .collect(),
        rules: rules
            .into_iter()
            .map(|(name, level)| RuleLevel { name: name.to_string(), level: level.to_string() })
            .collect(),
    }
}

#[test]
fn an_empty_module_still_has_both_objects() {
    let text = render(&assemble(&ResolvedRules::new())).unwrap();
    assert_eq!(
        text,
        "import { defineConfig } from \"eslint/config\";\nexport default defineConfig({ plugins: {}, rules: {} });\n"
    );
}

#[test]
fn one_core_rule_gives_one_entry_and_no_plugin() {
    let mut registry = RuleRegistry::new();
    registry.record_rule("style", "noVar", Severity::Error, vec![RuleSource::Eslint("no-var")]);
    let mut enabled = EnabledRules::new();
    enabled.insert("style", "noVar");
    let done = generate_eslint_config(&registry, &enabled, &Rules::new()).unwrap();
    assert_eq!(done.config.rules, vec![RuleLevel { name: "no-var".to_string(), level: "error".to_string() }]);
    assert_eq!(done.config.plugins, vec![]);
    assert_eq!(done.config.imports, vec![helper()]);
    assert!(done
        .source
        .contains("export default defineConfig({ plugins: {}, rules: { \"no-var\": \"error\" } });"));
    assert_eq!(
        done.source,
        "import { defineConfig } from \"eslint/config\";\nexport default defineConfig({ plugins: {}, rules: { \"no-var\": \"error\" } });\n"
    );
    assert_eq!(done.source.matches("import").count(), 1);
    assert_eq!(done.trace.len(), 1);
    assert_eq!(done.trace[0].external, Some("no-var".to_string()));
}

#[test]
fn enabled_rules_without_equivalents_give_an_empty_module() {
    let mut registry = RuleRegistry::new();
    registry.record_rule("style", "useBiomeOnly", Severity::Error, vec![]);
    registry.record_rule("style", "noVar", Severity::Error, vec![RuleSource::Eslint("no-var")]);
    let mut enabled = EnabledRules::new();
    enabled.insert("style", "useBiomeOnly");
    let done = generate_eslint_config(&registry, &enabled, &Rules::new()).unwrap();
    assert!(done.source.contains("rules: {}"));
    assert!(done.source.contains("plugins: {}"));
    assert_eq!(
        done.source,
        "import { defineConfig } from \"eslint/config\";\nexport default defineConfig({ plugins: {}, rules: {} });\n"
    );
}

#[test]
fn a_full_module_is_laid_out_by_the_formatter() {
    let mut registry = RuleRegistry::new();
    registry.record_rule("style", "noVar", Severity::Error, vec![RuleSource::Eslint("no-var")]);
    registry.record_rule(
        "suspicious",
        "noExplicitAny",
        Severity::Warning,
        vec![RuleSource::EslintTypeScript("no-explicit-any")],
    );
    registry.record_rule("a11y", "useAltText", Severity::Error, vec![RuleSource::EslintJsxA11y("alt-text")]);
    registry.record_rule("complexity", "useEqeq", Severity::Error, vec![RuleSource::Eslint("eqeqeq")]);
    let mut enabled = EnabledRules::new();
    enabled.insert("style", "noVar");
    enabled.insert("suspicious", "noExplicitAny");
    enabled.insert("a11y", "useAltText");
    enabled.insert("complexity", "useEqeq");
    let done = generate_eslint_config(&registry, &enabled, &Rules::new()).unwrap();
    assert_eq!(
        done.source,
        "import tseslint from \"typescript-eslint\";\n\
         import { defineConfig } from \"eslint/config\";\n\
         export default defineConfig({\n\
         \tplugins: { \"@typescript-eslint\": tseslint },\n\
         \trules: {\n\
         \t\t\"@typescript-eslint/no-explicit-any\": \"warn\",\n\
         \t\teqeqeq: \"error\",\n\
         \t\t\"jsx-a11y/alt-text\": \"error\",\n\
         \t\t\"no-var\": \"error\",\n\
         \t},\n\
         });\n"
    );
}

#[test]
fn a_group_override_reaches_the_text() {
    let mut registry = RuleRegistry::new();
    registry.record_rule("style", "noVar", Severity::Information, vec![RuleSource::Eslint("no-var")]);
    let mut enabled = EnabledRules::new();
    enabled.insert("style", "noVar");
    let plain = generate_eslint_config(&registry, &enabled, &Rules::new()).unwrap();
    assert!(plain.source.contains("\"no-var\": \"warn\""));
    let mut config = Rules::new();
    config.style = Some(SeverityOrGroup::Plain(GroupPlainConfiguration::Error));
    let overridden = generate_eslint_config(&registry, &enabled, &config).unwrap();
    assert!(overridden.source.contains("\"no-var\": \"error\""));
}

#[test]
fn converting_twice_gives_the_same_bytes() {
    let mut registry = RuleRegistry::new();
    registry.record_rule("style", "noVar", Severity::Error, vec![RuleSource::Eslint("no-var")]);
    registry.record_rule(
        "suspicious",
        "noExplicitAny",
        Severity::Warning,
        vec![RuleSource::EslintTypeScript("no-explicit-any")],
    );
    registry.record_rule("style", "useConst", Severity::Error, vec![RuleSource::Eslint("prefer-const")]);
    let mut enabled = EnabledRules::new();
    enabled.insert("suspicious", "noExplicitAny");
    enabled.insert("style", "useConst");
    enabled.insert("style", "noVar");
    let config = Rules::new();
    let first = generate_eslint_config(&registry, &enabled, &config).unwrap();
    let second = generate_eslint_config(&registry, &enabled, &config).unwrap();
    assert_eq!(first.config, second.config);
    assert_eq!(first.source.as_bytes(), second.source.as_bytes());
    let walk = resolve_rules(&registry, &enabled, &config);
    assert_eq!(render(&assemble(&walk.resolved)).unwrap(), first.source);
}

#[test]
fn every_plugin_is_imported_and_registered() {
    let config = EslintConfig {
        imports: vec![
            Import::Default(DefaultImport { ident: "a".to_string(), module: "plugin-a".to_string() }),
            Import::Default(DefaultImport { ident: "b".to_string(), module: "plugin-b".to_string() }),
            helper(),
        ],
        plugins: vec![
            PluginEntry { namespace: "a".to_string(), ident: "a".to_string() },
            PluginEntry { namespace: "@b/b".to_string(), ident: "b".to_string() },
        ],
        rules: vec![],
    };
    assert_eq!(
        render(&config).unwrap(),
        "import a from \"plugin-a\";\n\
         import b from \"plugin-b\";\n\
         import { defineConfig } from \"eslint/config\";\n\
         export default defineConfig({ plugins: { a: a, \"@b/b\": b }, rules: {} });\n"
    );
}

#[test]
fn identifiers_are_told_from_other_names() {
    assert!(check_identifier("tseslint"));
    assert!(check_identifier("defineConfig"));
    assert!(check_identifier("_a$1"));
    assert!(check_identifier("$"));
    assert!(!check_identifier(""));
    assert!(!check_identifier("1a"));
    assert!(!check_identifier("a-b"));
    assert!(!check_identifier("a b"));
    assert!(!check_identifier("a\n"));
    assert!(!check_identifier("\u{e9}"));
    assert!(!check_identifier("a.b"));
}

#[test]
fn plain_texts_are_told_from_others() {
    assert!(check_plain_text(""));
    assert!(check_plain_text("@typescript-eslint/no-explicit-any"));
    assert!(check_plain_text("eslint/config"));
    assert!(check_plain_text(" ~"));
    assert!(check_plain_text("it's"));
    assert!(!check_plain_text("say \"hi\""));
    assert!(!check_plain_text("back\\slash"));
    assert!(!check_plain_text("line\nbreak"));
    assert!(!check_plain_text("carriage\rreturn"));
    assert!(!check_plain_text("tab\t"));
    assert!(!check_plain_text("\u{7f}"));
    assert!(!check_plain_text("\u{80}"));
    assert!(!check_plain_text("\u{9f}"));
    assert!(!check_plain_text("\u{0}"));
    assert!(!check_plain_text("\u{1f}"));
    assert!(check_plain_text("\u{a0}"));
    assert!(check_plain_text("caf\u{e9}"));
    assert!(check_plain_text("\u{89c4}\u{5219}"));
    assert!(check_plain_text("\u{1f600}"));
    assert!(check_plain_text("\u{2028}"));
    assert!(!check_plain_text("caf\u{e9}\""));
}

#[test]
fn a_module_with_an_odd_text_is_refused() {
    assert!(check_printable(&module(vec![("ns", "plugin")], vec![("no-var", "error")])));
    let cases = vec![
        module(vec![], vec![("no-\"var", "error")]),
        module(vec![], vec![("no-var", "err\\or")]),
        module(vec![("n\ns", "plugin")], vec![]),
        module(vec![("ns", "plug-in")], vec![]),
        module(vec![("ns", "")], vec![]),
        EslintConfig {
            imports: vec![Import::Named(NamedImport {
                name: "define Config".to_string(),
                module: "eslint/config".to_string(),
            })],
            plugins: vec![],
            rules: vec![],
        },
        EslintConfig {
            imports: vec![Import::Default(DefaultImport {
                ident: "tseslint".to_string(),
                module: "typescript\"eslint".to_string(),
            })],
            plugins: vec![],
            rules: vec![],
        },
    ];
    for config in &cases {
        assert!(!check_printable(config), "{config:?}");
        assert_eq!(render(config), Err(EmitError::InvalidText), "{config:?}");
    }
}

#[test]
fn an_odd_rule_name_stops_the_conversion() {
    let mut registry = RuleRegistry::new();
    registry.record_rule("style", "noVar", Severity::Error, vec![RuleSource::Eslint("no\"var")]);
    let mut enabled = EnabledRules::new();
    enabled.insert("style", "noVar");
    let done = generate_eslint_config(&registry, &enabled, &Rules::new());
    assert!(matches!(done, Err(EmitError::InvalidText)));
    let nothing = generate_eslint_config(&registry, &EnabledRules::new(), &Rules::new());
    assert!(nothing.is_ok());
}

#[test]
fn a_module_may_have_no_import_at_all() {
    let config = EslintConfig { imports: vec![], plugins: vec![], rules: vec![] };
    assert_eq!(render(&config).unwrap(), "export default defineConfig({ plugins: {}, rules: {} });\n");
}

#[test]
fn many_rules_are_separated_and_kept_in_order() {
    let mut resolved = ResolvedRules::new();
    for i in 0..40 {
        resolved.insert(RuleSourceKind::Eslint, format!("rule-{i:02}"), Severity::Error);
    }
    let text = render(&assemble(&resolved)).unwrap();
    let mut from = 0;
    for i in 0..40 {
        let entry = format!("\"rule-{i:02}\": \"error\",");
        let at = text[from..].find(&entry).expect("every rule is printed, in order");
        from += at + entry.len();
    }
    assert_eq!(text.matches("\"error\"").count(), 40);
}

#[test]
fn a_failure_to_lay_out_is_reported_as_such() {
    assert!(matches!(laid_out(Err(FormatError::SyntaxError)), Err(EmitError::Format)));
    assert!(matches!(laid_out(Err(FormatError::PoorLayout)), Err(EmitError::Format)));
}

#[test]
fn a_failure_to_print_is_reported_as_such() {
    let error = PrintError::InvalidDocument(InvalidDocumentError::StartTagMissing {
        kind: TagKind::Group,
    });
    assert_eq!(printed_text(Err(error)), Err(EmitError::Print));
}

#[test]
fn printed_text_is_handed_on_as_it_is() {
    assert_eq!(printed_text(Ok("export default 1;\n".to_string())), Ok("export default 1;\n".to_string()));
    assert_eq!(printed_text(Ok(String::new())), Ok(String::new()));
}

#[test]
fn the_tree_holds_the_tokens_of_the_module() {
    let config = EslintConfig {
        imports: vec![
            Import::Default(DefaultImport {
                ident: "tseslint".to_string(),
                module: "typescript-eslint".to_string(),
            }),
            helper(),
        ],
        plugins: vec![PluginEntry {
            namespace: "@typescript-eslint".to_string(),
            ident: "tseslint".to_string(),
        }],
        rules: vec![
            RuleLevel { name: "@typescript-eslint/ban-types".to_string(), level: "warn".to_string() },
            RuleLevel { name: "eqeqeq".to_string(), level: "error".to_string() },
            RuleLevel { name: "no-var".to_string(), level: "error".to_string() },
        ],
    };
    assert_eq!(
        unformatted(&config).unwrap(),
        "importtseslint from \"typescript-eslint\"\
         import{defineConfig} from \"eslint/config\";\
         exportdefaultdefineConfig({\
         plugins:{\"@typescript-eslint\":tseslint},\
         rules:{\"@typescript-eslint/ban-types\":\"warn\",\"eqeqeq\":\"error\",\"no-var\":\"error\"}\
         })"
    );
}

#[test]
fn an_empty_tree_holds_both_objects() {
    let config = EslintConfig { imports: vec![], plugins: vec![], rules: vec![] };
    assert_eq!(unformatted(&config).unwrap(), "exportdefaultdefineConfig({plugins:{},rules:{}})");
    let config = EslintConfig { imports: vec![helper()], plugins: vec![], rules: vec![] };
    assert_eq!(
        unformatted(&config).unwrap(),
        "import{defineConfig} from \"eslint/config\";exportdefaultdefineConfig({plugins:{},rules:{}})"
    );
}

#[test]
fn a_tree_separates_its_entries_by_commas() {
    let one = module(vec![("a", "x")], vec![("r", "warn")]);
    assert_eq!(
        unformatted(&one).unwrap(),
        "import{defineConfig} from \"eslint/config\";\
         exportdefaultdefineConfig({plugins:{\"a\":x},rules:{\"r\":\"warn\"}})"
    );
    let two = module(vec![("a", "x"), ("b", "y")], vec![("r", "warn"), ("s", "error")]);
    assert_eq!(
        unformatted(&two).unwrap(),
        "import{defineConfig} from \"eslint/config\";\
         exportdefaultdefineConfig({plugins:{\"a\":x,\"b\":y},rules:{\"r\":\"warn\",\"s\":\"error\"}})"
    );
}

#[test]
fn no_tree_is_built_for_an_odd_text() {
    assert_eq!(
        unformatted(&module(vec![], vec![("no-\"var", "error")])),
        Err(EmitError::InvalidText)
    );
    assert_eq!(unformatted(&module(vec![("ns", "plug-in")], vec![])), Err(EmitError::InvalidText));
}

#[test]
fn texts_beyond_ascii_are_printed_as_they_are() {
    let config = module(
        vec![("caf\u{e9}", "plugin")],
        vec![
            ("r\u{e8}gle/\u{89c4}\u{5219}", "error"),
            ("a\u{2028}b", "warn"),
            ("x\u{1f600}", "warn"),
        ],
    );
    assert!(check_printable(&config));
    assert_eq!(
        render(&config).unwrap(),
        "import { defineConfig } from \"eslint/config\";\n\
         export default defineConfig({\n\
         \tplugins: { caf\u{e9}: plugin },\n\
         \trules: { \"r\u{e8}gle/\u{89c4}\u{5219}\": \"error\", \"a\u{2028}b\": \"warn\", \"x\u{1f600}\": \"warn\" },\n\
         });\n"
    );
    assert_eq!(
        unformatted(&config).unwrap(),
        "import{defineConfig} from \"eslint/config\";\
         exportdefaultdefineConfig({plugins:{\"caf\u{e9}\":plugin},\
         rules:{\"r\u{e8}gle/\u{89c4}\u{5219}\":\"error\",\"a\u{2028}b\":\"warn\",\"x\u{1f600}\":\"warn\"}})"
    );
}

#[test]
fn a_rule_name_beyond_ascii_is_converted() {
    let mut registry = RuleRegistry::new();
    registry.record_rule("style", "noVar", Severity::Error, vec![RuleSource::Eslint("no-r\u{e8}gle")]);
    let mut enabled = EnabledRules::new();
    enabled.insert("style", "noVar");
    let done = generate_eslint_config(&registry, &enabled, &Rules::new()).unwrap();
    assert_eq!(
        done.source,
        "import { defineConfig } from \"eslint/config\";\n\
         export default defineConfig({ plugins: {}, rules: { \"no-r\u{e8}gle\": \"error\" } });\n"
    );
}

#[test]
fn a_control_character_stops_the_conversion() {
    for name in ["no\u{0}var", "no\u{1f}var", "no\u{7f}var", "no\u{85}var", "no\u{9f}var", "no\nvar"] {
        let mut resolved = ResolvedRules::new();
        resolved.insert(RuleSourceKind::Eslint, name.to_string(), Severity::Error);
        assert_eq!(render(&assemble(&resolved)), Err(EmitError::InvalidText), "{name:?}");
        assert_eq!(unformatted(&assemble(&resolved)), Err(EmitError::InvalidText), "{name:?}");
    }
}
