//! The whole conversion: from the registry, the enabled rules and the rule
//! configuration to the configuration module and its text.
use crate::assemble::{
    assemble, assembled, helper_import, import_of, law_nothing_found_gives_empty_objects,
    law_one_plugin_per_wired_source, rule_level_of, wired, ConfigView, EslintConfig,
};
use crate::emit::{
    import_printable, is_identifier, is_plain_text, printable, render, renders, text_view,
    EmitError,
};
use crate::registry::{RuleRegistry, RuleView};
use crate::resolve::{
    contributes, has_name, law_entries_come_from_references, law_first_reference_is_mapped,
    lemma_ascending_entries_unique, lemma_level_map_at, level_map, names_ascend, resolve_rules,
    target_name, trace_views, walked_levels, walked_sources, walked_trace, EnabledRules, Level,
    Resolution, RuleKey,
};
use crate::severity::{eslint_level, Rules};
use crate::source::RuleSourceKind;
use crate::text::lex_lt;
use biome_diagnostics::Severity;
use vstd::prelude::*;

verus! {

/// What a conversion gives: the configuration module, its text, and what
/// became of each enabled rule.
#[derive(Debug)]
pub struct Conversion {
    pub config: EslintConfig,
    pub source: String,
    pub trace: Vec<Resolution>,
}

/// `module` is the configuration module for the enabled rules of a registry:
/// its rules are those that a walk over the registry finds, in ascending
/// order of their names, and its plugins those of the families that the walk
/// takes rules from.
pub open spec fn converts(
    rules: Seq<RuleView>,
    enabled: Set<RuleKey>,
    config: Rules,
    module: ConfigView,
) -> bool {
    exists|entries: Seq<Level>|
        names_ascend(entries) && level_map(entries) == walked_levels(rules, enabled, config)
            && module == #[trigger] assembled(entries, walked_sources(rules, enabled))
}

/// The text of a conversion, or why there is none.
pub open spec fn conversion_text(done: Result<Conversion, EmitError>) -> Result<
    Seq<char>,
    EmitError,
> {
    match done {
        Ok(conversion) => Ok(conversion.source@),
        Err(error) => Err(error),
    }
}

/// Converts the enabled rules of a registry into a configuration module and
/// prints it. What the module holds is decided by the arguments alone. The
/// conversion is refused where the ESLint name of a rule that it takes is not
/// plain text. Otherwise the module is built as a syntax tree, and the
/// conversion succeeds exactly where the formatter lays that tree out and
/// prints it: its text is then the text printed.
pub fn generate_eslint_config(
    registry: &RuleRegistry,
    enabled: &EnabledRules,
    config: &Rules,
) -> (done: Result<Conversion, EmitError>)
    ensures
        (done matches Err(error) && error == EmitError::InvalidText) <==> !all_names_plain(
            registry@,
            enabled@,
        ),
        all_names_plain(registry@, enabled@) ==> exists|module: ConfigView| #[trigger]
            converts(registry@, enabled@, *config, module) && renders(
                module,
                conversion_text(done),
            ),
        done matches Ok(conversion) ==> {
            &&& converts(registry@, enabled@, *config, conversion.config@)
            &&& printable(conversion.config@)
            &&& renders(conversion.config@, Ok(conversion.source@))
            &&& trace_views(conversion.trace@) == walked_trace(registry@, enabled@, *config)
        },
{
    let walk = resolve_rules(registry, enabled, config);
    let module = assemble(&walk.resolved);
    let ghost entries = walk.resolved.entries();
    assert(module@ == assembled(entries, walked_sources(registry@, enabled@)));
    assert(converts(registry@, enabled@, *config, module@));
    proof {
        law_refused_only_for_rule_names(registry@, enabled@, *config, module@);
    }
    let ghost view = module@;
    let text = render(&module);
    let ghost outcome = text_view(text);
    let done = match text {
        Ok(source) => Ok(Conversion { config: module, source, trace: walk.trace }),
        Err(error) => Err(error),
    };
    assert(conversion_text(done) == outcome);
    assert(printable(view) ==> converts(registry@, enabled@, *config, view) && renders(
        view,
        conversion_text(done),
    ));
    done
}

/// Whether the ESLint name of every rule that the walk takes is plain text.
pub open spec fn all_names_plain(rules: Seq<RuleView>, enabled: Set<RuleKey>) -> bool {
    forall|at: int|
        0 <= at < rules.len() && contributes(#[trigger] rules[at], enabled) ==> is_plain_text(
            target_name(rules[at]),
        )
}

/// The same registry, enabled rules and configuration give the same module,
/// entry for entry and in the same order, whenever they are converted.
pub proof fn law_conversion_is_determined(
    rules: Seq<RuleView>,
    enabled: Set<RuleKey>,
    config: Rules,
    first: ConfigView,
    second: ConfigView,
)
    requires
        converts(rules, enabled, config, first),
        converts(rules, enabled, config, second),
    ensures
        first == second,
{
    let sources = walked_sources(rules, enabled);
    let a = choose|entries: Seq<Level>|
        names_ascend(entries) && level_map(entries) == walked_levels(rules, enabled, config)
            && first == #[trigger] assembled(entries, sources);
    let b = choose|entries: Seq<Level>|
        names_ascend(entries) && level_map(entries) == walked_levels(rules, enabled, config)
            && second == #[trigger] assembled(entries, sources);
    lemma_ascending_entries_unique(a, b);
}

/// The rules of the module are the rules found, in ascending order of their
/// names, each once and with the level of the severity found for it.
pub proof fn law_rules_are_sorted_levels(
    rules: Seq<RuleView>,
    enabled: Set<RuleKey>,
    config: Rules,
    module: ConfigView,
)
    requires
        converts(rules, enabled, config, module),
    ensures
        forall|i: int, j: int|
            0 <= i < j < module.rules.len() ==> lex_lt(
                (#[trigger] module.rules[i]).0,
                (#[trigger] module.rules[j]).0,
            ),
        forall|i: int|
            0 <= i < module.rules.len() ==> {
                let name = (#[trigger] module.rules[i]).0;
                &&& walked_levels(rules, enabled, config).dom().contains(name)
                &&& module.rules[i].1 == eslint_level(walked_levels(rules, enabled, config)[name])
            },
{
    let sources = walked_sources(rules, enabled);
    let entries = choose|entries: Seq<Level>|
        names_ascend(entries) && level_map(entries) == walked_levels(rules, enabled, config)
            && module == #[trigger] assembled(entries, sources);
    assert forall|i: int| 0 <= i < module.rules.len() implies {
        let name = (#[trigger] module.rules[i]).0;
        &&& walked_levels(rules, enabled, config).dom().contains(name)
        &&& module.rules[i].1 == eslint_level(walked_levels(rules, enabled, config)[name])
    } by {
        lemma_level_map_at(entries, i);
        assert(module.rules[i] == rule_level_of(entries[i]));
    }
    assert forall|i: int, j: int| 0 <= i < j < module.rules.len() implies lex_lt(
        (#[trigger] module.rules[i]).0,
        (#[trigger] module.rules[j]).0,
    ) by {
        assert(module.rules[i] == rule_level_of(entries[i]));
        assert(module.rules[j] == rule_level_of(entries[j]));
    }
}

/// Every enabled rule that names an external equivalent is in the module
/// under the ESLint name of the first equivalent it names.
pub proof fn law_enabled_rule_is_emitted(
    rules: Seq<RuleView>,
    enabled: Set<RuleKey>,
    config: Rules,
    module: ConfigView,
    at: int,
)
    requires
        converts(rules, enabled, config, module),
        0 <= at < rules.len(),
        contributes(rules[at], enabled),
    ensures
        exists|i: int|
            0 <= i < module.rules.len() && (#[trigger] module.rules[i]).0 == target_name(rules[at]),
{
    let sources = walked_sources(rules, enabled);
    let entries = choose|entries: Seq<Level>|
        names_ascend(entries) && level_map(entries) == walked_levels(rules, enabled, config)
            && module == #[trigger] assembled(entries, sources);
    law_first_reference_is_mapped(rules, enabled, config, at);
    assert(has_name(entries, target_name(rules[at])));
    let name = target_name(rules[at]);
    let i = choose|i: int| 0 <= i < entries.len() && #[trigger] entries[i].0 == name;
    assert(module.rules[i] == rule_level_of(entries[i]));
}

/// Every rule of the module stands for the first equivalent of an enabled
/// rule: a rule that names no equivalent, or is not enabled, is not in the
/// module.
pub proof fn law_emitted_rule_has_a_reference(
    rules: Seq<RuleView>,
    enabled: Set<RuleKey>,
    config: Rules,
    module: ConfigView,
    i: int,
)
    requires
        converts(rules, enabled, config, module),
        0 <= i < module.rules.len(),
    ensures
        exists|at: int|
            0 <= at < rules.len() && contributes(#[trigger] rules[at], enabled) && target_name(
                rules[at],
            ) == module.rules[i].0,
{
    let sources = walked_sources(rules, enabled);
    let entries = choose|entries: Seq<Level>|
        names_ascend(entries) && level_map(entries) == walked_levels(rules, enabled, config)
            && module == #[trigger] assembled(entries, sources);
    assert(module.rules[i] == rule_level_of(entries[i]));
    assert(has_name(entries, entries[i].0));
    law_entries_come_from_references(rules, enabled, config, entries[i].0);
}

/// The texts that a plugin brings into a module can all be printed.
proof fn lemma_wired_texts(kind: RuleSourceKind)
    requires
        kind.is_wired(),
    ensures
        is_plain_text(kind.namespace()->0),
        is_identifier(kind.import_ident()->0),
        is_plain_text(kind.import_module()->0),
        import_printable(import_of(kind)),
{
    reveal_strlit("@typescript-eslint");
    reveal_strlit("tseslint");
    reveal_strlit("typescript-eslint");
}

/// The texts that every module holds can all be printed.
proof fn lemma_fixed_texts(severity: Severity)
    ensures
        import_printable(helper_import()),
        is_plain_text(eslint_level(severity)),
{
    reveal_strlit("defineConfig");
    reveal_strlit("eslint/config");
    reveal_strlit("error");
    reveal_strlit("warn");
}

/// A module can be printed unless the ESLint name of one of its rules is not
/// plain text: the plugins and imports of a conversion always can.
pub proof fn law_refused_only_for_rule_names(
    rules: Seq<RuleView>,
    enabled: Set<RuleKey>,
    config: Rules,
    module: ConfigView,
)
    requires
        converts(rules, enabled, config, module),
    ensures
        printable(module) <==> all_names_plain(rules, enabled),
{
    let sources = walked_sources(rules, enabled);
    let entries = choose|entries: Seq<Level>|
        names_ascend(entries) && level_map(entries) == walked_levels(rules, enabled, config)
            && module == #[trigger] assembled(entries, sources);
    if printable(module) {
        assert forall|at: int|
            0 <= at < rules.len() && contributes(
                #[trigger] rules[at],
                enabled,
            ) implies is_plain_text(target_name(rules[at])) by {
            law_enabled_rule_is_emitted(rules, enabled, config, module, at);
            let i = choose|i: int|
                0 <= i < module.rules.len() && (#[trigger] module.rules[i]).0 == target_name(
                    rules[at],
                );
            assert(is_plain_text(module.rules[i].0));
        }
    }
    if all_names_plain(rules, enabled) {
        law_one_plugin_per_wired_source(entries, sources);
        let all = wired(sources);
        assert forall|i: int| 0 <= i < module.imports.len() implies import_printable(
            #[trigger] module.imports[i],
        ) by {
            if i < all.len() {
                assert(all.contains(all[i]));
                lemma_wired_texts(all[i]);
            } else {
                lemma_fixed_texts(Severity::Error);
            }
        }
        assert forall|i: int| 0 <= i < module.plugins.len() implies is_plain_text(
            (#[trigger] module.plugins[i]).0,
        ) && is_identifier(module.plugins[i].1) by {
            assert(all.contains(all[i]));
            lemma_wired_texts(all[i]);
        }
        assert forall|i: int| 0 <= i < module.rules.len() implies is_plain_text(
            (#[trigger] module.rules[i]).0,
        ) && is_plain_text(module.rules[i].1) by {
            law_emitted_rule_has_a_reference(rules, enabled, config, module, i);
            assert(module.rules[i] == rule_level_of(entries[i]));
            lemma_fixed_texts(entries[i].1);
        }
    }
}

/// Where no enabled rule names an external equivalent, the module still has
/// its two objects, both empty, and imports `defineConfig` only.
pub proof fn law_empty_walk_gives_empty_module(
    rules: Seq<RuleView>,
    enabled: Set<RuleKey>,
    config: Rules,
    module: ConfigView,
)
    requires
        converts(rules, enabled, config, module),
        forall|at: int| 0 <= at < rules.len() ==> !contributes(#[trigger] rules[at], enabled),
    ensures
        module.rules == Seq::<(Seq<char>, Seq<char>)>::empty(),
        module.plugins == Seq::<(Seq<char>, Seq<char>)>::empty(),
        module.imports == seq![helper_import()],
{
    let sources = walked_sources(rules, enabled);
    let entries = choose|entries: Seq<Level>|
        names_ascend(entries) && level_map(entries) == walked_levels(rules, enabled, config)
            && module == #[trigger] assembled(entries, sources);
    lemma_nothing_walked(rules, enabled, config);
    if entries.len() > 0 {
        assert(has_name(entries, entries[0].0));
        assert(level_map(entries).dom().contains(entries[0].0));
    }
    law_nothing_found_gives_empty_objects(entries, sources);
}

/// A walk over rules of which none contributes finds nothing.
proof fn lemma_nothing_walked(rules: Seq<RuleView>, enabled: Set<RuleKey>, config: Rules)
    requires
        forall|at: int| 0 <= at < rules.len() ==> !contributes(#[trigger] rules[at], enabled),
    ensures
        walked_levels(rules, enabled, config) == Map::<Seq<char>, Severity>::empty(),
        walked_sources(rules, enabled) == Set::<RuleSourceKind>::empty(),
    decreases rules.len(),
{
    if rules.len() > 0 {
        let shorter = rules.drop_last();
        assert forall|at: int| 0 <= at < shorter.len() implies !contributes(
            #[trigger] shorter[at],
            enabled,
        ) by {
            assert(shorter[at] == rules[at]);
        }
        lemma_nothing_walked(shorter, enabled, config);
        assert(rules.last() == rules[rules.len() - 1]);
    }
}

} // verus!
