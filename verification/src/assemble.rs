//! The layout of the configuration module: what it imports, which plugins it
//! registers and which level it gives each rule.
use crate::resolve::{Level, ResolvedRules};
use crate::severity::{eslint_level, severity_to_eslint_level};
use crate::source::{lemma_ordinal_unique, DefaultImport, RuleSourceKind, KIND_COUNT};
use vstd::prelude::*;

verus! {

/// `import { <name> } from "<module>"`: one export of a module under its own name.
#[derive(Debug, PartialEq, Eq)]
pub struct NamedImport {
    pub name: String,
    pub module: String,
}

/// An import statement.
#[derive(Debug, PartialEq, Eq)]
pub enum Import {
    Default(DefaultImport),
    Named(NamedImport),
}

/// A plugin registered under its namespace: the namespace is the key, the
/// binding of the plugin's import is the value.
#[derive(Debug, PartialEq, Eq)]
pub struct PluginEntry {
    pub namespace: String,
    pub ident: String,
}

/// A rule and the level ESLint is to give it.
#[derive(Debug, PartialEq, Eq)]
pub struct RuleLevel {
    pub name: String,
    pub level: String,
}

/// The configuration module: its imports from top to bottom, then
/// `export default defineConfig({ plugins: {..}, rules: {..} })` with the
/// entries of the two objects in their order.
#[derive(Debug, PartialEq, Eq)]
pub struct EslintConfig {
    pub imports: Vec<Import>,
    pub plugins: Vec<PluginEntry>,
    pub rules: Vec<RuleLevel>,
}

/// An import statement as plain values.
pub enum ImportView {
    Default { ident: Seq<char>, module: Seq<char> },
    Named { name: Seq<char>, module: Seq<char> },
}

/// A configuration module as plain values; the entries of the two objects
/// are pairs of key and value.
pub struct ConfigView {
    pub imports: Seq<ImportView>,
    pub plugins: Seq<(Seq<char>, Seq<char>)>,
    pub rules: Seq<(Seq<char>, Seq<char>)>,
}

impl View for Import {
    type V = ImportView;

    open spec fn view(&self) -> ImportView {
        match self {
            Import::Default(import) => ImportView::Default {
                ident: import.ident@,
                module: import.module@,
            },
            Import::Named(import) => ImportView::Named {
                name: import.name@,
                module: import.module@,
            },
        }
    }
}

impl View for PluginEntry {
    type V = (Seq<char>, Seq<char>);

    open spec fn view(&self) -> (Seq<char>, Seq<char>) {
        (self.namespace@, self.ident@)
    }
}

impl View for RuleLevel {
    type V = (Seq<char>, Seq<char>);

    open spec fn view(&self) -> (Seq<char>, Seq<char>) {
        (self.name@, self.level@)
    }
}

impl View for EslintConfig {
    type V = ConfigView;

    open spec fn view(&self) -> ConfigView {
        ConfigView {
            imports: Seq::new(self.imports@.len(), |i: int| self.imports@[i]@),
            plugins: Seq::new(self.plugins@.len(), |i: int| self.plugins@[i]@),
            rules: Seq::new(self.rules@.len(), |i: int| self.rules@[i]@),
        }
    }
}

/// The families among `sources` that get a plugin, as far as they stand
/// before `place` in the declared order, in that order.
pub open spec fn wired_before(sources: Set<RuleSourceKind>, place: u8) -> Seq<RuleSourceKind>
    decreases place,
{
    if place == 0 {
        Seq::empty()
    } else {
        let rest = wired_before(sources, (place - 1) as u8);
        match RuleSourceKind::spec_from_ordinal((place - 1) as u8) {
            Some(kind) => if sources.contains(kind) && kind.is_wired() {
                rest.push(kind)
            } else {
                rest
            },
            None => rest,
        }
    }
}

/// The families among `sources` that get a plugin, in declared order.
pub open spec fn wired(sources: Set<RuleSourceKind>) -> Seq<RuleSourceKind> {
    wired_before(sources, KIND_COUNT)
}

/// The import of a family's plugin.
pub open spec fn import_of(kind: RuleSourceKind) -> ImportView {
    ImportView::Default { ident: kind.import_ident()->0, module: kind.import_module()->0 }
}

/// The entry that registers a family's plugin.
pub open spec fn plugin_of(kind: RuleSourceKind) -> (Seq<char>, Seq<char>) {
    (kind.namespace()->0, kind.import_ident()->0)
}

/// The import of `defineConfig`, which every configuration module has.
pub open spec fn helper_import() -> ImportView {
    ImportView::Named { name: "defineConfig"@, module: "eslint/config"@ }
}

/// The entry that gives a rule its level.
pub open spec fn rule_level_of(entry: Level) -> (Seq<char>, Seq<char>) {
    (entry.0, eslint_level(entry.1))
}

/// The module for the rules found and the families they are from: the
/// plugins' imports in declared order of the families and then the import of
/// `defineConfig`; the plugins in the same order; the rules in the order given.
pub open spec fn assembled(entries: Seq<Level>, sources: Set<RuleSourceKind>) -> ConfigView {
    ConfigView {
        imports: wired(sources).map_values(|kind: RuleSourceKind| import_of(kind)).push(
            helper_import(),
        ),
        plugins: wired(sources).map_values(|kind: RuleSourceKind| plugin_of(kind)),
        rules: entries.map_values(|entry: Level| rule_level_of(entry)),
    }
}

/// Lays out the configuration module for what a walk has found.
pub fn assemble(resolved: &ResolvedRules) -> (config: EslintConfig)
    ensures
        config@ == assembled(resolved.entries(), resolved.sources()),
{
    let mut imports: Vec<Import> = Vec::new();
    let mut plugins: Vec<PluginEntry> = Vec::new();
    let ghost sources = resolved.sources();
    let mut place: u8 = 0;
    while place < KIND_COUNT
        invariant
            place <= KIND_COUNT,
            sources == resolved.sources(),
            Seq::new(imports@.len(), |i: int| imports@[i]@) == wired_before(
                sources,
                place,
            ).map_values(|kind: RuleSourceKind| import_of(kind)),
            Seq::new(plugins@.len(), |i: int| plugins@[i]@) == wired_before(
                sources,
                place,
            ).map_values(|kind: RuleSourceKind| plugin_of(kind)),
        decreases KIND_COUNT - place,
    {
        let ghost imports_before = Seq::new(imports@.len(), |i: int| imports@[i]@);
        let ghost plugins_before = Seq::new(plugins@.len(), |i: int| plugins@[i]@);
        let ghost wired_so_far = wired_before(sources, place);
        if let Some(source) = RuleSourceKind::from_ordinal(place) {
            // ESLint's own rules need no plugin.
            if resolved.has_source(source) && source != RuleSourceKind::Eslint {
                if let Some(ident) = source.to_ident() {
                    if let Some(import) = source.to_import(ident) {
                        if let Some(namespace) = source.as_namespace() {
                            imports.push(Import::Default(import));
                            plugins.push(
                                PluginEntry {
                                    namespace: namespace.to_owned(),
                                    ident: ident.to_owned(),
                                },
                            );
                            proof {
                                assert(source.is_wired());
                                assert(Seq::new(imports@.len(), |i: int| imports@[i]@)
                                    =~= imports_before.push(import_of(source)));
                                assert(Seq::new(plugins@.len(), |i: int| plugins@[i]@)
                                    =~= plugins_before.push(plugin_of(source)));
                                assert(wired_so_far.push(source).map_values(
                                    |kind: RuleSourceKind| import_of(kind),
                                ) =~= imports_before.push(import_of(source)));
                                assert(wired_so_far.push(source).map_values(
                                    |kind: RuleSourceKind| plugin_of(kind),
                                ) =~= plugins_before.push(plugin_of(source)));
                            }
                        }
                    }
                }
            }
        }
        place += 1;
    }
    imports.push(
        Import::Named(
            NamedImport { name: "defineConfig".to_owned(), module: "eslint/config".to_owned() },
        ),
    );
    let mut rules: Vec<RuleLevel> = Vec::new();
    let count = resolved.len();
    let mut i: usize = 0;
    while i < count
        invariant
            count == resolved.entries().len(),
            i <= count,
            rules@.len() == i,
            forall|j: int|
                0 <= j < i ==> (#[trigger] rules@[j])@ == rule_level_of(resolved.entries()[j]),
        decreases count - i,
    {
        let severity = resolved.severity(i);
        rules.push(
            RuleLevel {
                name: resolved.name(i).to_owned(),
                level: severity_to_eslint_level(&severity).to_owned(),
            },
        );
        i += 1;
    }
    let config = EslintConfig { imports, plugins, rules };
    proof {
        let want = assembled(resolved.entries(), resolved.sources());
        assert(config@.imports =~= want.imports);
        assert(config@.plugins =~= want.plugins);
        assert(config@.rules =~= want.rules);
    }
    config
}

/// What stands before a place among the wired families: each is among the
/// sources, gets a plugin and stands before the place, and they ascend.
pub proof fn lemma_wired_before(sources: Set<RuleSourceKind>, place: u8)
    requires
        place <= KIND_COUNT,
    ensures
        forall|kind: RuleSourceKind| #[trigger]
            wired_before(sources, place).contains(kind) <==> sources.contains(kind)
                && kind.is_wired() && kind.spec_ordinal() < place,
        forall|i: int, j: int|
            0 <= i < j < wired_before(sources, place).len() ==> (#[trigger] wired_before(
                sources,
                place,
            )[i]).spec_ordinal() < (#[trigger] wired_before(sources, place)[j]).spec_ordinal(),
    decreases place,
{
    if place > 0 {
        let before = (place - 1) as u8;
        let rest = wired_before(sources, before);
        let all = wired_before(sources, place);
        lemma_wired_before(sources, before);
        let at = RuleSourceKind::spec_from_ordinal(before)->0;
        assert(at.spec_ordinal() == before);
        assert forall|kind: RuleSourceKind| #[trigger]
            all.contains(kind) <==> sources.contains(kind) && kind.is_wired()
                && kind.spec_ordinal() < place by {
            lemma_ordinal_unique(kind, at);
            if all.contains(kind) {
                let i = choose|i: int| 0 <= i < all.len() && all[i] == kind;
                if i < rest.len() {
                    assert(rest[i] == kind);
                    assert(rest.contains(kind));
                }
            }
            if sources.contains(kind) && kind.is_wired() && kind.spec_ordinal() < place {
                if kind == at {
                    assert(all[rest.len() as int] == kind);
                } else {
                    assert(rest.contains(kind));
                    let i = choose|i: int| 0 <= i < rest.len() && rest[i] == kind;
                    assert(all[i] == kind);
                }
            }
        }
        assert forall|i: int, j: int| 0 <= i < j < all.len() implies (
        #[trigger] all[i]).spec_ordinal() < (#[trigger] all[j]).spec_ordinal() by {
            if j < rest.len() {
                assert(rest[i].spec_ordinal() < rest[j].spec_ordinal());
            } else {
                assert(rest[i] == all[i]);
                assert(rest.contains(rest[i]));
            }
        }
    }
}

/// A configuration imports and registers exactly one plugin for each family
/// that rules were found from and that can be imported, however many rules
/// are from it: such a family is there, no other is, and none is there twice.
/// The plugins stand in the declared order of their families.
pub proof fn law_one_plugin_per_wired_source(entries: Seq<Level>, sources: Set<RuleSourceKind>)
    ensures
        forall|kind: RuleSourceKind| #[trigger]
            wired(sources).contains(kind) <==> sources.contains(kind) && kind.is_wired(),
        wired(sources).no_duplicates(),
        forall|i: int, j: int|
            0 <= i < j < wired(sources).len() ==> (#[trigger] wired(sources)[i]).spec_ordinal() < (
            #[trigger] wired(sources)[j]).spec_ordinal(),
        assembled(entries, sources).plugins.len() == wired(sources).len(),
        assembled(entries, sources).imports.len() == wired(sources).len() + 1,
        assembled(entries, sources).imports.last() == helper_import(),
        forall|i: int|
            0 <= i < wired(sources).len() ==> #[trigger] assembled(entries, sources).imports[i]
                == import_of(wired(sources)[i]) && assembled(entries, sources).plugins[i]
                == plugin_of(wired(sources)[i]),
{
    lemma_wired_before(sources, KIND_COUNT);
    let all = wired(sources);
    assert forall|kind: RuleSourceKind| #[trigger]
        all.contains(kind) <==> sources.contains(kind) && kind.is_wired() by {
        lemma_ordinal_unique(kind, kind);
    }
    assert forall|i: int, j: int| 0 <= i < all.len() && 0 <= j < all.len() && i != j implies all[i]
        != all[j] by {
        if i < j {
            assert(all[i].spec_ordinal() < all[j].spec_ordinal());
        } else {
            assert(all[j].spec_ordinal() < all[i].spec_ordinal());
        }
    }
}

/// Where no rule was found, or none from a family that can be imported, the
/// two objects are still there, and empty; the module then imports
/// `defineConfig` and nothing else.
pub proof fn law_nothing_found_gives_empty_objects(
    entries: Seq<Level>,
    sources: Set<RuleSourceKind>,
)
    ensures
        entries.len() == 0 ==> assembled(entries, sources).rules == Seq::<
            (Seq<char>, Seq<char>),
        >::empty(),
        (forall|kind: RuleSourceKind| sources.contains(kind) ==> !kind.is_wired()) ==> assembled(
            entries,
            sources,
        ).plugins == Seq::<(Seq<char>, Seq<char>)>::empty() && assembled(entries, sources).imports
            == seq![helper_import()],
{
    if entries.len() == 0 {
        assert(assembled(entries, sources).rules =~= Seq::<(Seq<char>, Seq<char>)>::empty());
    }
    if forall|kind: RuleSourceKind| sources.contains(kind) ==> !kind.is_wired() {
        lemma_wired_before(sources, KIND_COUNT);
        let all = wired(sources);
        if all.len() > 0 {
            assert(all.contains(all[0]));
        }
        assert(assembled(entries, sources).plugins =~= Seq::<(Seq<char>, Seq<char>)>::empty());
        assert(assembled(entries, sources).imports =~= seq![helper_import()]);
    }
}

/// The rules of a configuration stand in the order of the rules found, each
/// with the level of its severity.
pub proof fn law_rules_keep_their_order(entries: Seq<Level>, sources: Set<RuleSourceKind>)
    ensures
        assembled(entries, sources).rules.len() == entries.len(),
        forall|i: int|
            0 <= i < entries.len() ==> #[trigger] assembled(entries, sources).rules[i] == (
                entries[i].0,
                eslint_level(entries[i].1),
            ),
{
}

} // verus!
