//! The families of external rules that a Biome rule can name as its equivalent,
//! and what ESLint needs to know of each: the namespace of its plugin and,
//! where the plugin can be imported, the binding and the module.
use biome_analyze::RuleSource;
use vstd::prelude::*;
use vstd::std_specs::convert::FromSpecImpl;
use vstd::string::*;

verus! {

/// `biome_analyze::RuleSource`, one variant per family, each carrying the rule's
/// name in that family. Verus reads the variants from the crate itself, so
/// nothing is assumed of them here.
#[verifier::external_type_specification]
pub struct ExRuleSource(RuleSource);

/// A family of external rules. The variants are declared in the order in which
/// plugins are laid out in a configuration.
#[derive(Clone, Copy, Debug, PartialEq, Eq, Structural, PartialOrd, Ord)]
pub enum RuleSourceKind {
    Clippy,
    DenoLint,
    Eslint,
    EslintBarrelFiles,
    EslintGraphql,
    EslintImport,
    EslintImportAccess,
    EslintJest,
    EslintJsDoc,
    EslintJsxA11y,
    EslintMysticatea,
    EslintN,
    EslintNext,
    EslintNoSecrets,
    EslintPackageJson,
    EslintPackageJsonDependencies,
    EslintPerfectionist,
    EslintQwik,
    EslintReact,
    EslintReactHooks,
    EslintReactPreferFunctionComponent,
    EslintReactRefresh,
    EslintReactX,
    EslintReactXyz,
    EslintRegexp,
    EslintSolid,
    EslintSonarJs,
    EslintStylistic,
    EslintTypeScript,
    EslintUnicorn,
    EslintUnusedImports,
    EslintVitest,
    EslintVueJs,
    GraphqlSchemaLinter,
    Stylelint,
    EslintTurbo,
}

/// How many families there are.
pub const KIND_COUNT: u8 = 36;

/// The characters of an optional string.
pub open spec fn text_of(s: Option<&'static str>) -> Option<Seq<char>> {
    match s {
        Some(s) => Some(s@),
        None => None,
    }
}

/// The family that a rule source belongs to.
pub open spec fn kind_of(source: RuleSource) -> RuleSourceKind {
    match source {
        RuleSource::Clippy(_) => RuleSourceKind::Clippy,
        RuleSource::Eslint(_) => RuleSourceKind::Eslint,
        RuleSource::EslintImport(_) => RuleSourceKind::EslintImport,
        RuleSource::EslintImportAccess(_) => RuleSourceKind::EslintImportAccess,
        RuleSource::EslintJest(_) => RuleSourceKind::EslintJest,
        RuleSource::EslintJsxA11y(_) => RuleSourceKind::EslintJsxA11y,
        RuleSource::EslintReact(_) => RuleSourceKind::EslintReact,
        RuleSource::EslintReactHooks(_) => RuleSourceKind::EslintReactHooks,
        RuleSource::EslintSonarJs(_) => RuleSourceKind::EslintSonarJs,
        RuleSource::EslintStylistic(_) => RuleSourceKind::EslintStylistic,
        RuleSource::EslintTypeScript(_) => RuleSourceKind::EslintTypeScript,
        RuleSource::EslintUnicorn(_) => RuleSourceKind::EslintUnicorn,
        RuleSource::EslintMysticatea(_) => RuleSourceKind::EslintMysticatea,
        RuleSource::EslintBarrelFiles(_) => RuleSourceKind::EslintBarrelFiles,
    }
}

/// The name that a rule source gives the rule within its family.
pub open spec fn rule_name_of(source: RuleSource) -> Seq<char> {
    match source {
        RuleSource::Clippy(name) => name@,
        RuleSource::Eslint(name) => name@,
        RuleSource::EslintImport(name) => name@,
        RuleSource::EslintImportAccess(name) => name@,
        RuleSource::EslintJest(name) => name@,
        RuleSource::EslintJsxA11y(name) => name@,
        RuleSource::EslintReact(name) => name@,
        RuleSource::EslintReactHooks(name) => name@,
        RuleSource::EslintSonarJs(name) => name@,
        RuleSource::EslintStylistic(name) => name@,
        RuleSource::EslintTypeScript(name) => name@,
        RuleSource::EslintUnicorn(name) => name@,
        RuleSource::EslintMysticatea(name) => name@,
        RuleSource::EslintBarrelFiles(name) => name@,
    }
}

/// A rule's name as an ESLint configuration spells it: behind the namespace of
/// its family's plugin and a slash, or bare where the family has no namespace.
pub open spec fn namespaced(kind: RuleSourceKind, rule: Seq<char>) -> Seq<char> {
    match kind.namespace() {
        Some(namespace) => namespace + seq!['/'] + rule,
        None => rule,
    }
}

/// The ESLint name of the rule that a source points to.
pub open spec fn external_name(source: RuleSource) -> Seq<char> {
    namespaced(kind_of(source), rule_name_of(source))
}

impl From<&RuleSource> for RuleSourceKind {
    /// Classifies a rule source. Every source has exactly one family.
    fn from(value: &RuleSource) -> (kind: RuleSourceKind) {
        match value {
            RuleSource::Clippy(_) => RuleSourceKind::Clippy,
            RuleSource::Eslint(_) => RuleSourceKind::Eslint,
            RuleSource::EslintImport(_) => RuleSourceKind::EslintImport,
            RuleSource::EslintImportAccess(_) => RuleSourceKind::EslintImportAccess,
            RuleSource::EslintJest(_) => RuleSourceKind::EslintJest,
            RuleSource::EslintJsxA11y(_) => RuleSourceKind::EslintJsxA11y,
            RuleSource::EslintReact(_) => RuleSourceKind::EslintReact,
            RuleSource::EslintReactHooks(_) => RuleSourceKind::EslintReactHooks,
            RuleSource::EslintSonarJs(_) => RuleSourceKind::EslintSonarJs,
            RuleSource::EslintStylistic(_) => RuleSourceKind::EslintStylistic,
            RuleSource::EslintTypeScript(_) => RuleSourceKind::EslintTypeScript,
            RuleSource::EslintUnicorn(_) => RuleSourceKind::EslintUnicorn,
            RuleSource::EslintMysticatea(_) => RuleSourceKind::EslintMysticatea,
            RuleSource::EslintBarrelFiles(_) => RuleSourceKind::EslintBarrelFiles,
        }
    }
}

impl FromSpecImpl<&RuleSource> for RuleSourceKind {
    open spec fn obeys_from_spec() -> bool {
        true
    }

    open spec fn from_spec(value: &RuleSource) -> RuleSourceKind {
        kind_of(*value)
    }
}

impl RuleSourceKind {
    /// The place of this family in the declared order.
    pub open spec fn spec_ordinal(self) -> u8 {
        match self {
            Self::Clippy => 0,
            Self::DenoLint => 1,
            Self::Eslint => 2,
            Self::EslintBarrelFiles => 3,
            Self::EslintGraphql => 4,
            Self::EslintImport => 5,
            Self::EslintImportAccess => 6,
            Self::EslintJest => 7,
            Self::EslintJsDoc => 8,
            Self::EslintJsxA11y => 9,
            Self::EslintMysticatea => 10,
            Self::EslintN => 11,
            Self::EslintNext => 12,
            Self::EslintNoSecrets => 13,
            Self::EslintPackageJson => 14,
            Self::EslintPackageJsonDependencies => 15,
            Self::EslintPerfectionist => 16,
            Self::EslintQwik => 17,
            Self::EslintReact => 18,
            Self::EslintReactHooks => 19,
            Self::EslintReactPreferFunctionComponent => 20,
            Self::EslintReactRefresh => 21,
            Self::EslintReactX => 22,
            Self::EslintReactXyz => 23,
            Self::EslintRegexp => 24,
            Self::EslintSolid => 25,
            Self::EslintSonarJs => 26,
            Self::EslintStylistic => 27,
            Self::EslintTypeScript => 28,
            Self::EslintUnicorn => 29,
            Self::EslintUnusedImports => 30,
            Self::EslintVitest => 31,
            Self::EslintVueJs => 32,
            Self::GraphqlSchemaLinter => 33,
            Self::Stylelint => 34,
            Self::EslintTurbo => 35,
        }
    }

    /// The family at a place of the declared order.
    pub open spec fn spec_from_ordinal(place: u8) -> Option<RuleSourceKind> {
        match place {
            0 => Some(Self::Clippy),
            1 => Some(Self::DenoLint),
            2 => Some(Self::Eslint),
            3 => Some(Self::EslintBarrelFiles),
            4 => Some(Self::EslintGraphql),
            5 => Some(Self::EslintImport),
            6 => Some(Self::EslintImportAccess),
            7 => Some(Self::EslintJest),
            8 => Some(Self::EslintJsDoc),
            9 => Some(Self::EslintJsxA11y),
            10 => Some(Self::EslintMysticatea),
            11 => Some(Self::EslintN),
            12 => Some(Self::EslintNext),
            13 => Some(Self::EslintNoSecrets),
            14 => Some(Self::EslintPackageJson),
            15 => Some(Self::EslintPackageJsonDependencies),
            16 => Some(Self::EslintPerfectionist),
            17 => Some(Self::EslintQwik),
            18 => Some(Self::EslintReact),
            19 => Some(Self::EslintReactHooks),
            20 => Some(Self::EslintReactPreferFunctionComponent),
            21 => Some(Self::EslintReactRefresh),
            22 => Some(Self::EslintReactX),
            23 => Some(Self::EslintReactXyz),
            24 => Some(Self::EslintRegexp),
            25 => Some(Self::EslintSolid),
            26 => Some(Self::EslintSonarJs),
            27 => Some(Self::EslintStylistic),
            28 => Some(Self::EslintTypeScript),
            29 => Some(Self::EslintUnicorn),
            30 => Some(Self::EslintUnusedImports),
            31 => Some(Self::EslintVitest),
            32 => Some(Self::EslintVueJs),
            33 => Some(Self::GraphqlSchemaLinter),
            34 => Some(Self::Stylelint),
            35 => Some(Self::EslintTurbo),
            _ => None,
        }
    }

    /// The namespace under which ESLint knows the family's plugin, if it has one.
    pub open spec fn namespace(self) -> Option<Seq<char>> {
        match self {
            Self::EslintBarrelFiles => Some("barrel-files"@),
            Self::EslintGraphql => Some("@graphql-eslint"@),
            Self::EslintImport => Some("import"@),
            Self::EslintImportAccess => Some("import-access"@),
            Self::EslintJest => Some("jest"@),
            Self::EslintJsDoc => Some("jsdoc"@),
            Self::EslintJsxA11y => Some("jsx-a11y"@),
            Self::EslintMysticatea => Some("@mysticatea"@),
            Self::EslintN => Some("n"@),
            Self::EslintNext => Some("@next/next"@),
            Self::EslintNoSecrets => Some("no-secrets"@),
            Self::EslintPackageJson => Some("package-json"@),
            Self::EslintPackageJsonDependencies => Some("package-json-dependencies"@),
            Self::EslintPerfectionist => Some("perfectionist"@),
            Self::EslintQwik => Some("qwik"@),
            Self::EslintReact => Some("react"@),
            Self::EslintReactHooks => Some("react-hooks"@),
            Self::EslintReactPreferFunctionComponent => Some("react-prefer-function-component"@),
            Self::EslintReactRefresh => Some("react-refresh"@),
            Self::EslintReactX => Some("react-x"@),
            Self::EslintReactXyz => Some("@eslint-react"@),
            Self::EslintRegexp => Some("regexp"@),
            Self::EslintSolid => Some("solid"@),
            Self::EslintSonarJs => Some("sonarjs"@),
            Self::EslintStylistic => Some("@stylistic"@),
            Self::EslintTypeScript => Some("@typescript-eslint"@),
            Self::EslintUnicorn => Some("unicorn"@),
            Self::EslintUnusedImports => Some("unused-imports"@),
            Self::EslintVitest => Some("vitest"@),
            Self::EslintVueJs => Some("vue"@),
            Self::EslintTurbo => Some("turbo"@),
            _ => None,
        }
    }

    /// The name that the family's plugin is bound to when imported.
    pub open spec fn import_ident(self) -> Option<Seq<char>> {
        match self {
            Self::EslintTypeScript => Some("tseslint"@),
            _ => None,
        }
    }

    /// The module that the family's plugin is imported from.
    pub open spec fn import_module(self) -> Option<Seq<char>> {
        match self {
            Self::EslintTypeScript => Some("typescript-eslint"@),
            _ => None,
        }
    }

    /// Whether a configuration imports and registers a plugin for the family:
    /// it is not ESLint itself, and its namespace, binding and module are known.
    pub open spec fn is_wired(self) -> bool {
        &&& self != Self::Eslint
        &&& self.namespace() is Some
        &&& self.import_ident() is Some
        &&& self.import_module() is Some
    }

    /// The place of this family in the declared order, counted from zero.
    #[verifier::when_used_as_spec(spec_ordinal)]
    pub fn ordinal(self) -> (place: u8)
        ensures
            place == self.spec_ordinal(),
            place < KIND_COUNT,
    {
        match self {
            Self::Clippy => 0,
            Self::DenoLint => 1,
            Self::Eslint => 2,
            Self::EslintBarrelFiles => 3,
            Self::EslintGraphql => 4,
            Self::EslintImport => 5,
            Self::EslintImportAccess => 6,
            Self::EslintJest => 7,
            Self::EslintJsDoc => 8,
            Self::EslintJsxA11y => 9,
            Self::EslintMysticatea => 10,
            Self::EslintN => 11,
            Self::EslintNext => 12,
            Self::EslintNoSecrets => 13,
            Self::EslintPackageJson => 14,
            Self::EslintPackageJsonDependencies => 15,
            Self::EslintPerfectionist => 16,
            Self::EslintQwik => 17,
            Self::EslintReact => 18,
            Self::EslintReactHooks => 19,
            Self::EslintReactPreferFunctionComponent => 20,
            Self::EslintReactRefresh => 21,
            Self::EslintReactX => 22,
            Self::EslintReactXyz => 23,
            Self::EslintRegexp => 24,
            Self::EslintSolid => 25,
            Self::EslintSonarJs => 26,
            Self::EslintStylistic => 27,
            Self::EslintTypeScript => 28,
            Self::EslintUnicorn => 29,
            Self::EslintUnusedImports => 30,
            Self::EslintVitest => 31,
            Self::EslintVueJs => 32,
            Self::GraphqlSchemaLinter => 33,
            Self::Stylelint => 34,
            Self::EslintTurbo => 35,
        }
    }

    /// The family at a place of the declared order, if the order is that long.
    pub fn from_ordinal(place: u8) -> (kind: Option<RuleSourceKind>)
        ensures
            kind == Self::spec_from_ordinal(place),
            kind is Some <==> place < KIND_COUNT,
            kind matches Some(k) ==> k.spec_ordinal() == place,
    {
        match place {
            0 => Some(Self::Clippy),
            1 => Some(Self::DenoLint),
            2 => Some(Self::Eslint),
            3 => Some(Self::EslintBarrelFiles),
            4 => Some(Self::EslintGraphql),
            5 => Some(Self::EslintImport),
            6 => Some(Self::EslintImportAccess),
            7 => Some(Self::EslintJest),
            8 => Some(Self::EslintJsDoc),
            9 => Some(Self::EslintJsxA11y),
            10 => Some(Self::EslintMysticatea),
            11 => Some(Self::EslintN),
            12 => Some(Self::EslintNext),
            13 => Some(Self::EslintNoSecrets),
            14 => Some(Self::EslintPackageJson),
            15 => Some(Self::EslintPackageJsonDependencies),
            16 => Some(Self::EslintPerfectionist),
            17 => Some(Self::EslintQwik),
            18 => Some(Self::EslintReact),
            19 => Some(Self::EslintReactHooks),
            20 => Some(Self::EslintReactPreferFunctionComponent),
            21 => Some(Self::EslintReactRefresh),
            22 => Some(Self::EslintReactX),
            23 => Some(Self::EslintReactXyz),
            24 => Some(Self::EslintRegexp),
            25 => Some(Self::EslintSolid),
            26 => Some(Self::EslintSonarJs),
            27 => Some(Self::EslintStylistic),
            28 => Some(Self::EslintTypeScript),
            29 => Some(Self::EslintUnicorn),
            30 => Some(Self::EslintUnusedImports),
            31 => Some(Self::EslintVitest),
            32 => Some(Self::EslintVueJs),
            33 => Some(Self::GraphqlSchemaLinter),
            34 => Some(Self::Stylelint),
            35 => Some(Self::EslintTurbo),
            _ => None,
        }
    }

    /// The namespace under which ESLint knows the family's plugin: the key
    /// that registers the plugin, and what stands before the slash in the
    /// names of its rules. ESLint's own rules have none, nor have the rules of
    /// tools that are no ESLint plugins.
    pub fn as_namespace(&self) -> (namespace: Option<&'static str>)
        ensures
            text_of(namespace) == self.namespace(),
    {
        Some(
            match self {
                Self::EslintBarrelFiles => "barrel-files",
                Self::EslintGraphql => "@graphql-eslint",
                Self::EslintImport => "import",
                Self::EslintImportAccess => "import-access",
                Self::EslintJest => "jest",
                Self::EslintJsDoc => "jsdoc",
                Self::EslintJsxA11y => "jsx-a11y",
                Self::EslintMysticatea => "@mysticatea",
                Self::EslintN => "n",
                Self::EslintNext => "@next/next",
                Self::EslintNoSecrets => "no-secrets",
                Self::EslintPackageJson => "package-json",
                Self::EslintPackageJsonDependencies => "package-json-dependencies",
                Self::EslintPerfectionist => "perfectionist",
                Self::EslintQwik => "qwik",
                Self::EslintReact => "react",
                Self::EslintReactHooks => "react-hooks",
                Self::EslintReactPreferFunctionComponent => "react-prefer-function-component",
                Self::EslintReactRefresh => "react-refresh",
                Self::EslintReactX => "react-x",
                Self::EslintReactXyz => "@eslint-react",
                Self::EslintRegexp => "regexp",
                Self::EslintSolid => "solid",
                Self::EslintSonarJs => "sonarjs",
                Self::EslintStylistic => "@stylistic",
                Self::EslintTypeScript => "@typescript-eslint",
                Self::EslintUnicorn => "unicorn",
                Self::EslintUnusedImports => "unused-imports",
                Self::EslintVitest => "vitest",
                Self::EslintVueJs => "vue",
                Self::EslintTurbo => "turbo",
                _ => return None,
            },
        )
    }

    /// The name that the family's plugin is bound to when it is imported, for
    /// the families whose import is known.
    pub fn to_ident(&self) -> (ident: Option<&'static str>)
        ensures
            text_of(ident) == self.import_ident(),
    {
        Some(
            match self {
                Self::EslintTypeScript => "tseslint",
                _ => return None,
            },
        )
    }

    /// The import of the family's plugin under the name `ident`, for the
    /// families whose import is known.
    pub fn to_import(&self, ident: &str) -> (import: Option<DefaultImport>)
        ensures
            import is Some <==> self.import_module() is Some,
            import matches Some(i) ==> i.ident@ == ident@ && Some(i.module@)
                == self.import_module(),
    {
        Some(
            match self {
                Self::EslintTypeScript => DefaultImport {
                    ident: ident.to_owned(),
                    module: "typescript-eslint".to_owned(),
                },
                _ => return None,
            },
        )
    }
}

/// `import <ident> from "<module>"`: a module's default export under a local name.
#[derive(Clone, Debug, PartialEq, Eq)]
pub struct DefaultImport {
    pub ident: String,
    pub module: String,
}

/// The name that a rule source gives the rule within its family.
pub fn rule_name(source: &RuleSource) -> (name: &'static str)
    ensures
        name@ == rule_name_of(*source),
{
    match source {
        RuleSource::Clippy(name) => name,
        RuleSource::Eslint(name) => name,
        RuleSource::EslintImport(name) => name,
        RuleSource::EslintImportAccess(name) => name,
        RuleSource::EslintJest(name) => name,
        RuleSource::EslintJsxA11y(name) => name,
        RuleSource::EslintReact(name) => name,
        RuleSource::EslintReactHooks(name) => name,
        RuleSource::EslintSonarJs(name) => name,
        RuleSource::EslintStylistic(name) => name,
        RuleSource::EslintTypeScript(name) => name,
        RuleSource::EslintUnicorn(name) => name,
        RuleSource::EslintMysticatea(name) => name,
        RuleSource::EslintBarrelFiles(name) => name,
    }
}

/// The ESLint name of the rule that a source points to.
pub fn namespaced_rule_name(source: &RuleSource) -> (name: String)
    ensures
        name@ == external_name(*source),
{
    let rule = rule_name(source);
    match RuleSourceKind::from(source).as_namespace() {
        Some(namespace) => {
            proof {
                reveal_strlit("/");
            }
            let mut name = namespace.to_owned();
            name.append("/");
            name.append(rule);
            assert(name@ =~= namespace@ + seq!['/'] + rule@);
            name
        },
        None => rule.to_owned(),
    }
}

/// Every source has the family of its own variant and no other: two sources
/// have the same family exactly when they are of the same variant, whatever
/// rules they name.
pub proof fn law_one_family_per_source(source: RuleSource)
    ensures
        kind_of(source) == RuleSourceKind::Clippy <==> source is Clippy,
        kind_of(source) == RuleSourceKind::Eslint <==> source is Eslint,
        kind_of(source) == RuleSourceKind::EslintImport <==> source is EslintImport,
        kind_of(source) == RuleSourceKind::EslintImportAccess <==> source is EslintImportAccess,
        kind_of(source) == RuleSourceKind::EslintJest <==> source is EslintJest,
        kind_of(source) == RuleSourceKind::EslintJsxA11y <==> source is EslintJsxA11y,
        kind_of(source) == RuleSourceKind::EslintReact <==> source is EslintReact,
        kind_of(source) == RuleSourceKind::EslintReactHooks <==> source is EslintReactHooks,
        kind_of(source) == RuleSourceKind::EslintSonarJs <==> source is EslintSonarJs,
        kind_of(source) == RuleSourceKind::EslintStylistic <==> source is EslintStylistic,
        kind_of(source) == RuleSourceKind::EslintTypeScript <==> source is EslintTypeScript,
        kind_of(source) == RuleSourceKind::EslintUnicorn <==> source is EslintUnicorn,
        kind_of(source) == RuleSourceKind::EslintMysticatea <==> source is EslintMysticatea,
        kind_of(source) == RuleSourceKind::EslintBarrelFiles <==> source is EslintBarrelFiles,
{
}

/// Every family has a place of its own, and is the family at that place.
pub proof fn lemma_ordinal_unique(a: RuleSourceKind, b: RuleSourceKind)
    ensures
        a.spec_ordinal() < KIND_COUNT,
        RuleSourceKind::spec_from_ordinal(a.spec_ordinal()) == Some(a),
        a.spec_ordinal() == b.spec_ordinal() ==> a == b,
{
}

} // verus!
