use biome_analyze::RuleSource;
use biome_to_eslint::source::{
    namespaced_rule_name, rule_name, DefaultImport, RuleSourceKind, KIND_COUNT,
};

fn all_kinds() -> Vec<RuleSourceKind> {
    vec![
        RuleSourceKind::Clippy,
        RuleSourceKind::DenoLint,
        RuleSourceKind::Eslint,
        RuleSourceKind::EslintBarrelFiles,
        RuleSourceKind::EslintGraphql,
        RuleSourceKind::EslintImport,
        RuleSourceKind::EslintImportAccess,
        RuleSourceKind::EslintJest,
        RuleSourceKind::EslintJsDoc,
        RuleSourceKind::EslintJsxA11y,
        RuleSourceKind::EslintMysticatea,
        RuleSourceKind::EslintN,
        RuleSourceKind::EslintNext,
        RuleSourceKind::EslintNoSecrets,
        RuleSourceKind::EslintPackageJson,
        RuleSourceKind::EslintPackageJsonDependencies,
        RuleSourceKind::EslintPerfectionist,
        RuleSourceKind::EslintQwik,
        RuleSourceKind::EslintReact,
        RuleSourceKind::EslintReactHooks,
        RuleSourceKind::EslintReactPreferFunctionComponent,
        RuleSourceKind::EslintReactRefresh,
        RuleSourceKind::EslintReactX,
        RuleSourceKind::EslintReactXyz,
        RuleSourceKind::EslintRegexp,
        RuleSourceKind::EslintSolid,
        RuleSourceKind::EslintSonarJs,
        RuleSourceKind::EslintStylistic,
        RuleSourceKind::EslintTypeScript,
        RuleSourceKind::EslintUnicorn,
        RuleSourceKind::EslintUnusedImports,
        RuleSourceKind::EslintVitest,
        RuleSourceKind::EslintVueJs,
        RuleSourceKind::GraphqlSchemaLinter,
        RuleSourceKind::Stylelint,
        RuleSourceKind::EslintTurbo,
    ]
}

#[test]
fn every_family_has_the_namespace_of_its_plugin() {
    let expected = vec![
        None,
        None,
        None,
        Some("barrel-files"),
        Some("@graphql-eslint"),
        Some("import"),
        Some("import-access"),
        Some("jest"),
        Some("jsdoc"),
        Some("jsx-a11y"),
        Some("@mysticatea"),
        Some("n"),
        Some("@next/next"),
        Some("no-secrets"),
        Some("package-json"),
        Some("package-json-dependencies"),
        Some("perfectionist"),
        Some("qwik"),
        Some("react"),
        Some("react-hooks"),
        Some("react-prefer-function-component"),
        Some("react-refresh"),
        Some("react-x"),
        Some("@eslint-react"),
        Some("regexp"),
        Some("solid"),
        Some("sonarjs"),
        Some("@stylistic"),
        Some("@typescript-eslint"),
        Some("unicorn"),
        Some("unused-imports"),
        Some("vitest"),
        Some("vue"),
        None,
        None,
        Some("turbo"),
    ];
    let kinds = all_kinds();
    assert_eq!(kinds.len(), expected.len());
    for (kind, namespace) in kinds.iter().zip(expected) {
        assert_eq!(kind.as_namespace(), namespace, "{kind:?}");
    }
}

#[test]
fn families_without_a_plugin_have_no_namespace() {
    assert_eq!(RuleSourceKind::Eslint.as_namespace(), None);
    assert_eq!(RuleSourceKind::Clippy.as_namespace(), None);
    assert_eq!(RuleSourceKind::DenoLint.as_namespace(), None);
    assert_eq!(RuleSourceKind::GraphqlSchemaLinter.as_namespace(), None);
    assert_eq!(RuleSourceKind::Stylelint.as_namespace(), None);
}

#[test]
fn ordinals_count_the_families_in_declared_order() {
    let kinds = all_kinds();
    assert_eq!(kinds.len(), KIND_COUNT as usize);
    for (place, kind) in kinds.iter().enumerate() {
        assert_eq!(kind.ordinal() as usize, place);
        assert_eq!(RuleSourceKind::from_ordinal(place as u8), Some(*kind));
    }
    assert_eq!(RuleSourceKind::from_ordinal(KIND_COUNT), None);
    assert_eq!(RuleSourceKind::from_ordinal(255), None);
    assert_eq!(RuleSourceKind::Clippy.ordinal(), 0);
    assert_eq!(RuleSourceKind::Eslint.ordinal(), 2);
    assert_eq!(RuleSourceKind::EslintTypeScript.ordinal(), 28);
    assert_eq!(RuleSourceKind::EslintTurbo.ordinal(), 35);
}

#[test]
fn the_order_of_families_is_the_order_of_their_ordinals() {
    let kinds = all_kinds();
    for a in &kinds {
        for b in &kinds {
            assert_eq!(a < b, a.ordinal() < b.ordinal());
            assert_eq!(a == b, a.ordinal() == b.ordinal());
        }
    }
    assert!(RuleSourceKind::Stylelint < RuleSourceKind::EslintTurbo);
    assert!(RuleSourceKind::Eslint < RuleSourceKind::EslintTypeScript);
}

#[test]
fn every_source_has_its_family() {
    let cases = vec![
        (RuleSource::Clippy("a"), RuleSourceKind::Clippy),
        (RuleSource::Eslint("a"), RuleSourceKind::Eslint),
        (RuleSource::EslintImport("a"), RuleSourceKind::EslintImport),
        (RuleSource::EslintImportAccess("a"), RuleSourceKind::EslintImportAccess),
        (RuleSource::EslintJest("a"), RuleSourceKind::EslintJest),
        (RuleSource::EslintJsxA11y("a"), RuleSourceKind::EslintJsxA11y),
        (RuleSource::EslintReact("a"), RuleSourceKind::EslintReact),
        (RuleSource::EslintReactHooks("a"), RuleSourceKind::EslintReactHooks),
        (RuleSource::EslintSonarJs("a"), RuleSourceKind::EslintSonarJs),
        (RuleSource::EslintStylistic("a"), RuleSourceKind::EslintStylistic),
        (RuleSource::EslintTypeScript("a"), RuleSourceKind::EslintTypeScript),
        (RuleSource::EslintUnicorn("a"), RuleSourceKind::EslintUnicorn),
        (RuleSource::EslintMysticatea("a"), RuleSourceKind::EslintMysticatea),
        (RuleSource::EslintBarrelFiles("a"), RuleSourceKind::EslintBarrelFiles),
    ];
    for (source, kind) in &cases {
        assert_eq!(RuleSourceKind::from(source), *kind);
    }
    for (i, (_, a)) in cases.iter().enumerate() {
        for (j, (_, b)) in cases.iter().enumerate() {
            assert_eq!(a == b, i == j);
        }
    }
}

#[test]
fn the_family_does_not_depend_on_the_rule() {
    assert_eq!(
        RuleSourceKind::from(&RuleSource::Eslint("no-var")),
        RuleSourceKind::from(&RuleSource::Eslint("eqeqeq"))
    );
}

#[test]
fn only_the_typescript_plugin_is_imported() {
    for kind in all_kinds() {
        if kind == RuleSourceKind::EslintTypeScript {
            assert_eq!(kind.to_ident(), Some("tseslint"));
            assert_eq!(
                kind.to_import("tseslint"),
                Some(DefaultImport {
                    ident: "tseslint".to_string(),
                    module: "typescript-eslint".to_string()
                })
            );
        } else {
            assert_eq!(kind.to_ident(), None, "{kind:?}");
            assert_eq!(kind.to_import("anything"), None, "{kind:?}");
        }
    }
}

#[test]
fn an_import_binds_the_name_it_is_given() {
    let import = RuleSourceKind::EslintTypeScript.to_import("ts").unwrap();
    assert_eq!(import.ident, "ts");
    assert_eq!(import.module, "typescript-eslint");
}

#[test]
fn a_source_names_its_rule() {
    assert_eq!(rule_name(&RuleSource::Eslint("no-var")), "no-var");
    assert_eq!(rule_name(&RuleSource::EslintTypeScript("no-explicit-any")), "no-explicit-any");
    assert_eq!(rule_name(&RuleSource::Clippy("")), "");
}

#[test]
fn eslint_names_stand_behind_the_namespace() {
    assert_eq!(namespaced_rule_name(&RuleSource::Eslint("no-var")), "no-var");
    assert_eq!(namespaced_rule_name(&RuleSource::Clippy("approx_constant")), "approx_constant");
    assert_eq!(
        namespaced_rule_name(&RuleSource::EslintTypeScript("no-explicit-any")),
        "@typescript-eslint/no-explicit-any"
    );
    assert_eq!(namespaced_rule_name(&RuleSource::EslintJsxA11y("alt-text")), "jsx-a11y/alt-text");
    assert_eq!(namespaced_rule_name(&RuleSource::EslintImport("no-default-export")), "import/no-default-export");
    assert_eq!(namespaced_rule_name(&RuleSource::EslintImportAccess("jsdoc")), "import-access/jsdoc");
    assert_eq!(namespaced_rule_name(&RuleSource::EslintJest("no-focused-tests")), "jest/no-focused-tests");
    assert_eq!(namespaced_rule_name(&RuleSource::EslintReact("jsx-key")), "react/jsx-key");
    assert_eq!(
        namespaced_rule_name(&RuleSource::EslintReactHooks("rules-of-hooks")),
        "react-hooks/rules-of-hooks"
    );
    assert_eq!(namespaced_rule_name(&RuleSource::EslintSonarJs("x")), "sonarjs/x");
    assert_eq!(namespaced_rule_name(&RuleSource::EslintStylistic("x")), "@stylistic/x");
    assert_eq!(namespaced_rule_name(&RuleSource::EslintUnicorn("x")), "unicorn/x");
    assert_eq!(namespaced_rule_name(&RuleSource::EslintMysticatea("x")), "@mysticatea/x");
    assert_eq!(namespaced_rule_name(&RuleSource::EslintBarrelFiles("x")), "barrel-files/x");
}

#[test]
fn a_namespaced_name_is_no_copy_of_the_rule_name() {
    let source = RuleSource::EslintTypeScript("ban-types");
    assert_ne!(namespaced_rule_name(&source), rule_name(&source));
}
