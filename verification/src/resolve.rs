//! The walk over the registry: which rules are enabled, what severity each
//! has, and which ESLint rule stands for it.
use crate::registry::{RuleRegistry, RuleView};
use crate::severity::{effective_severity, Rules};
use crate::source::{
    external_name, kind_of, lemma_ordinal_unique, namespaced_rule_name, RuleSourceKind, KIND_COUNT,
};
use crate::text::{
    lemma_lex_asymmetric, lemma_lex_irreflexive, lemma_lex_total, lemma_lex_transitive, lex_lt,
    rank, str_eq, Rank,
};
use biome_analyze::RuleFilter;
use biome_diagnostics::Severity;
use vstd::prelude::*;

verus! {

/// `biome_analyze::RuleFilter`, which selects a group or one rule of a group.
/// Verus reads its variants from the crate itself, so nothing is assumed of
/// it here.
#[verifier::external_type_specification]
pub struct ExRuleFilter<'a>(RuleFilter<'a>);

/// A rule by its group and its name.
pub type RuleKey = (Seq<char>, Seq<char>);

/// The rules that a configuration enables.
pub struct EnabledRules {
    rules: Vec<(String, String)>,
}

/// Whether a filter selects exactly that rule.
pub open spec fn selects(filter: RuleFilter<'_>, key: RuleKey) -> bool {
    match filter {
        RuleFilter::Rule(group, rule) => group@ == key.0 && rule@ == key.1,
        RuleFilter::Group(_) => false,
    }
}

/// The rules that a run of filters selects one by one: filters that select a
/// whole group select none.
pub open spec fn selected(filters: Seq<RuleFilter<'_>>) -> Set<RuleKey> {
    Set::new(
        |key: RuleKey| exists|i: int| 0 <= i < filters.len() && selects(#[trigger] filters[i], key),
    )
}

impl View for EnabledRules {
    type V = Set<RuleKey>;

    closed spec fn view(&self) -> Set<RuleKey> {
        Set::new(
            |key: RuleKey|
                exists|i: int|
                    0 <= i < self.rules@.len() && (#[trigger] self.rules@[i]).0@ == key.0
                        && self.rules@[i].1@ == key.1,
        )
    }
}

impl EnabledRules {
    /// No rule is enabled.
    pub fn new() -> (enabled: EnabledRules)
        ensures
            enabled@ == Set::<RuleKey>::empty(),
    {
        let enabled = EnabledRules { rules: Vec::new() };
        assert(enabled@ =~= Set::<RuleKey>::empty());
        enabled
    }

    /// Enables a rule.
    pub fn insert(&mut self, group: &str, rule: &str)
        ensures
            final(self)@ == old(self)@.insert((group@, rule@)),
    {
        let ghost before = self.rules@;
        self.rules.push((group.to_owned(), rule.to_owned()));
        proof {
            let after = self.rules@;
            assert(after[before.len() as int].0@ == group@);
            assert forall|key: RuleKey| #[trigger]
                final(self)@.contains(key) <==> old(self)@.insert((group@, rule@)).contains(
                    key,
                ) by {
                if old(self)@.contains(key) {
                    let i = choose|i: int|
                        0 <= i < before.len() && (#[trigger] before[i]).0@ == key.0 && before[i].1@
                            == key.1;
                    assert(after[i] == before[i]);
                }
                if final(self)@.contains(key) {
                    let i = choose|i: int|
                        0 <= i < after.len() && (#[trigger] after[i]).0@ == key.0 && after[i].1@
                            == key.1;
                    if i < before.len() {
                        assert(after[i] == before[i]);
                    }
                }
            }
            assert(final(self)@ =~= old(self)@.insert((group@, rule@)));
        }
    }

    /// Whether a rule is enabled.
    pub fn contains(&self, group: &str, rule: &str) -> (found: bool)
        ensures
            found == self@.contains((group@, rule@)),
    {
        let mut i: usize = 0;
        while i < self.rules.len()
            invariant
                i <= self.rules@.len(),
                forall|j: int|
                    0 <= j < i ==> !((#[trigger] self.rules@[j]).0@ == group@ && self.rules@[j].1@
                        == rule@),
            decreases self.rules@.len() - i,
        {
            if str_eq(self.rules[i].0.as_str(), group) && str_eq(self.rules[i].1.as_str(), rule) {
                return true;
            }
            i += 1;
        }
        false
    }

    /// The rules that filters select one by one. A filter that selects a
    /// whole group enables nothing by itself.
    pub fn from_filters(filters: &Vec<RuleFilter<'_>>) -> (enabled: EnabledRules)
        ensures
            enabled@ == selected(filters@),
    {
        let mut enabled = EnabledRules::new();
        let mut i: usize = 0;
        while i < filters.len()
            invariant
                i <= filters@.len(),
                enabled@ == selected(filters@.take(i as int)),
            decreases filters@.len() - i,
        {
            let ghost before = enabled@;
            match filters[i] {
                RuleFilter::Group(_) => {},
                RuleFilter::Rule(group, rule) => {
                    enabled.insert(group, rule);
                },
            }
            proof {
                let shorter = filters@.take(i as int);
                let longer = filters@.take(i + 1);
                assert forall|key: RuleKey| #[trigger]
                    enabled@.contains(key) <==> selected(longer).contains(key) by {
                    if selected(longer).contains(key) {
                        let j = choose|j: int|
                            0 <= j < longer.len() && selects(#[trigger] longer[j], key);
                        if j < i {
                            assert(shorter[j] == longer[j]);
                        }
                    }
                    if before.contains(key) {
                        let j = choose|j: int|
                            0 <= j < shorter.len() && selects(#[trigger] shorter[j], key);
                        assert(shorter[j] == longer[j]);
                    }
                    if enabled@.contains(key) && !before.contains(key) {
                        assert(longer[i as int] == filters@[i as int]);
                    }
                }
                assert(enabled@ =~= selected(longer));
            }
            i += 1;
        }
        assert(filters@.take(i as int) =~= filters@);
        enabled
    }
}

/// An ESLint rule with the severity found for it.
pub type Level = (Seq<char>, Severity);

/// Entries in strictly ascending order of their names: no name is there twice.
pub open spec fn names_ascend(entries: Seq<Level>) -> bool {
    forall|i: int, j: int|
        0 <= i < j < entries.len() ==> lex_lt(#[trigger] entries[i].0, #[trigger] entries[j].0)
}

/// Whether `entries` has an entry under `name`.
pub open spec fn has_name(entries: Seq<Level>, name: Seq<char>) -> bool {
    exists|i: int| 0 <= i < entries.len() && #[trigger] entries[i].0 == name
}

/// The entries as a map from name to severity.
pub open spec fn level_map(entries: Seq<Level>) -> Map<Seq<char>, Severity> {
    Map::new(
        |name: Seq<char>| has_name(entries, name),
        |name: Seq<char>|
            entries[choose|i: int| 0 <= i < entries.len() && #[trigger] entries[i].0 == name].1,
    )
}

/// In ascending entries every entry is what the map holds under its name.
pub proof fn lemma_level_map_at(entries: Seq<Level>, at: int)
    requires
        names_ascend(entries),
        0 <= at < entries.len(),
    ensures
        level_map(entries).dom().contains(entries[at].0),
        level_map(entries)[entries[at].0] == entries[at].1,
{
    let name = entries[at].0;
    let i = choose|i: int| 0 <= i < entries.len() && #[trigger] entries[i].0 == name;
    lemma_lex_irreflexive(name);
    if i < at {
        assert(lex_lt(entries[i].0, entries[at].0));
    } else if at < i {
        assert(lex_lt(entries[at].0, entries[i].0));
    }
}

/// Ascending entries are settled by the map they stand for.
pub proof fn lemma_ascending_entries_unique(a: Seq<Level>, b: Seq<Level>)
    requires
        names_ascend(a),
        names_ascend(b),
        level_map(a) == level_map(b),
    ensures
        a == b,
    decreases a.len(),
{
    if a.len() == 0 {
        if b.len() > 0 {
            assert(has_name(b, b[0].0));
            assert(level_map(b).dom().contains(b[0].0));
            assert(!has_name(a, b[0].0));
        }
        assert(a =~= b);
    } else {
        let last = a.last();
        lemma_level_map_at(a, a.len() - 1);
        assert(level_map(b).dom().contains(last.0));
        let k = choose|k: int| 0 <= k < b.len() && #[trigger] b[k].0 == last.0;
        lemma_level_map_at(b, k);
        if k < b.len() - 1 {
            // a later name of `b` would have to be in `a` behind its last name
            let later = b.last();
            assert(lex_lt(b[k].0, later.0));
            lemma_level_map_at(b, b.len() - 1);
            assert(level_map(a).dom().contains(later.0));
            let m = choose|m: int| 0 <= m < a.len() && #[trigger] a[m].0 == later.0;
            if m < a.len() - 1 {
                assert(lex_lt(a[m].0, last.0));
                lemma_lex_asymmetric(last.0, later.0);
            } else {
                lemma_lex_irreflexive(last.0);
            }
        }
        assert(b.last() == last);
        let a0 = a.drop_last();
        let b0 = b.drop_last();
        assert forall|name: Seq<char>| #[trigger]
            level_map(a0).dom().contains(name) <==> level_map(b0).dom().contains(name) by {
            lemma_lex_irreflexive(last.0);
            if has_name(a0, name) {
                let i = choose|i: int| 0 <= i < a0.len() && #[trigger] a0[i].0 == name;
                assert(a[i].0 == name);
                assert(lex_lt(a[i].0, last.0));
                assert(has_name(a, name));
                assert(level_map(b).dom().contains(name));
                let j = choose|j: int| 0 <= j < b.len() && #[trigger] b[j].0 == name;
                assert(b0[j].0 == name);
            }
            if has_name(b0, name) {
                let i = choose|i: int| 0 <= i < b0.len() && #[trigger] b0[i].0 == name;
                assert(b[i].0 == name);
                assert(lex_lt(b[i].0, last.0));
                assert(has_name(b, name));
                assert(level_map(a).dom().contains(name));
                let j = choose|j: int| 0 <= j < a.len() && #[trigger] a[j].0 == name;
                assert(a0[j].0 == name);
            }
        }
        assert forall|name: Seq<char>| level_map(a0).dom().contains(name) implies #[trigger]
            level_map(a0)[name] == level_map(b0)[name] by {
            let i = choose|i: int| 0 <= i < a0.len() && #[trigger] a0[i].0 == name;
            let j = choose|j: int| 0 <= j < b0.len() && #[trigger] b0[j].0 == name;
            lemma_level_map_at(a0, i);
            lemma_level_map_at(b0, j);
            lemma_level_map_at(a, i);
            lemma_level_map_at(b, j);
        }
        assert(level_map(a0) =~= level_map(b0));
        lemma_ascending_entries_unique(a0, b0);
        assert(a =~= a0.push(last));
        assert(b =~= b0.push(last));
    }
}

/// Giving the entry at `at` another severity changes the map under its name only.
proof fn lemma_update_level(entries: Seq<Level>, at: int, severity: Severity)
    requires
        names_ascend(entries),
        0 <= at < entries.len(),
    ensures
        names_ascend(entries.update(at, (entries[at].0, severity))),
        level_map(entries.update(at, (entries[at].0, severity))) == level_map(entries).insert(
            entries[at].0,
            severity,
        ),
{
    let name = entries[at].0;
    let after = entries.update(at, (name, severity));
    assert forall|i: int, j: int| 0 <= i < j < after.len() implies lex_lt(
        #[trigger] after[i].0,
        #[trigger] after[j].0,
    ) by {
        assert(lex_lt(entries[i].0, entries[j].0));
    }
    assert forall|other: Seq<char>| #[trigger]
        level_map(after).dom().contains(other) <==> level_map(entries).insert(
            name,
            severity,
        ).dom().contains(other) by {
        if has_name(after, other) {
            let i = choose|i: int| 0 <= i < after.len() && #[trigger] after[i].0 == other;
            assert(entries[i].0 == other);
        }
        if has_name(entries, other) {
            let i = choose|i: int| 0 <= i < entries.len() && #[trigger] entries[i].0 == other;
            assert(after[i].0 == other);
        }
        if other == name {
            assert(after[at].0 == other);
        }
    }
    assert forall|other: Seq<char>| level_map(after).dom().contains(other) implies #[trigger]
        level_map(after)[other] == level_map(entries).insert(name, severity)[other] by {
        let i = choose|i: int| 0 <= i < after.len() && #[trigger] after[i].0 == other;
        lemma_level_map_at(after, i);
        if i != at {
            assert(entries[i].0 == other);
            lemma_level_map_at(entries, i);
            lemma_lex_irreflexive(name);
            if i < at {
                assert(lex_lt(entries[i].0, entries[at].0));
            } else {
                assert(lex_lt(entries[at].0, entries[i].0));
            }
        }
    }
    assert(level_map(after) =~= level_map(entries).insert(name, severity));
}

/// An entry put between the names before it and the names after it adds its
/// name to the map and changes nothing else.
proof fn lemma_insert_level(entries: Seq<Level>, at: int, entry: Level)
    requires
        names_ascend(entries),
        0 <= at <= entries.len(),
        forall|j: int| 0 <= j < at ==> lex_lt(#[trigger] entries[j].0, entry.0),
        at < entries.len() ==> lex_lt(entry.0, entries[at].0),
    ensures
        names_ascend(entries.insert(at, entry)),
        level_map(entries.insert(at, entry)) == level_map(entries).insert(entry.0, entry.1),
{
    let after = entries.insert(at, entry);
    assert forall|j: int| at <= j < entries.len() implies lex_lt(
        entry.0,
        #[trigger] entries[j].0,
    ) by {
        if at < j {
            assert(lex_lt(entries[at].0, entries[j].0));
            lemma_lex_transitive(entry.0, entries[at].0, entries[j].0);
        }
    }
    assert forall|i: int, j: int| 0 <= i < j < after.len() implies lex_lt(
        #[trigger] after[i].0,
        #[trigger] after[j].0,
    ) by {
        if j < at {
            assert(lex_lt(entries[i].0, entries[j].0));
        } else if j == at {
            assert(lex_lt(entries[i].0, entry.0));
        } else if i < at {
            assert(lex_lt(entries[i].0, entries[j - 1].0));
        } else if i == at {
            assert(lex_lt(entry.0, entries[j - 1].0));
        } else {
            assert(lex_lt(entries[i - 1].0, entries[j - 1].0));
        }
    }
    assert forall|other: Seq<char>| #[trigger]
        level_map(after).dom().contains(other) <==> level_map(entries).insert(
            entry.0,
            entry.1,
        ).dom().contains(other) by {
        if has_name(after, other) {
            let i = choose|i: int| 0 <= i < after.len() && #[trigger] after[i].0 == other;
            if i < at {
                assert(entries[i].0 == other);
            } else if i > at {
                assert(entries[i - 1].0 == other);
            }
        }
        if has_name(entries, other) {
            let i = choose|i: int| 0 <= i < entries.len() && #[trigger] entries[i].0 == other;
            if i < at {
                assert(after[i].0 == other);
            } else {
                assert(after[i + 1].0 == other);
            }
        }
        if other == entry.0 {
            assert(after[at].0 == other);
        }
    }
    assert forall|other: Seq<char>| level_map(after).dom().contains(other) implies #[trigger]
        level_map(after)[other] == level_map(entries).insert(entry.0, entry.1)[other] by {
        let i = choose|i: int| 0 <= i < after.len() && #[trigger] after[i].0 == other;
        lemma_level_map_at(after, i);
        lemma_lex_irreflexive(entry.0);
        if i < at {
            assert(entries[i].0 == other);
            lemma_level_map_at(entries, i);
        } else if i > at {
            assert(entries[i - 1].0 == other);
            lemma_level_map_at(entries, i - 1);
        }
    }
    assert(level_map(after) =~= level_map(entries).insert(entry.0, entry.1));
}

/// The views of a run of entries.
pub open spec fn level_views(entries: Seq<(String, Severity)>) -> Seq<Level> {
    Seq::new(entries.len(), |i: int| (entries[i].0@, entries[i].1))
}

/// The families among a run of marks, one mark per family in declared order.
pub open spec fn marked(marks: Seq<bool>) -> Set<RuleSourceKind> {
    Set::new(|kind: RuleSourceKind| marks[kind.spec_ordinal() as int])
}

/// What a walk has found: the ESLint rules to configure, each with its
/// severity, in ascending order of their names, and the families they are from.
pub struct ResolvedRules {
    rules: Vec<(String, Severity)>,
    marks: Vec<bool>,
}

impl ResolvedRules {
    #[verifier::type_invariant]
    spec fn well_formed(self) -> bool {
        &&& names_ascend(level_views(self.rules@))
        &&& self.marks@.len() == KIND_COUNT
    }

    /// The rules found, in ascending order of their names.
    pub closed spec fn entries(self) -> Seq<Level> {
        level_views(self.rules@)
    }

    /// The severity found for each rule.
    pub open spec fn levels(self) -> Map<Seq<char>, Severity> {
        level_map(self.entries())
    }

    /// The families that the rules found are from.
    pub closed spec fn sources(self) -> Set<RuleSourceKind> {
        marked(self.marks@)
    }

    /// Nothing found.
    pub fn new() -> (resolved: ResolvedRules)
        ensures
            resolved.entries().len() == 0,
            resolved.levels() == Map::<Seq<char>, Severity>::empty(),
            resolved.sources() == Set::<RuleSourceKind>::empty(),
    {
        let mut marks: Vec<bool> = Vec::new();
        let mut i: u8 = 0;
        while i < KIND_COUNT
            invariant
                i <= KIND_COUNT,
                marks@.len() == i,
                forall|j: int| 0 <= j < i ==> !marks@[j],
            decreases KIND_COUNT - i,
        {
            marks.push(false);
            i += 1;
        }
        let resolved = ResolvedRules { rules: Vec::new(), marks };
        assert(resolved.levels() =~= Map::<Seq<char>, Severity>::empty());
        assert(resolved.sources() =~= Set::<RuleSourceKind>::empty());
        resolved
    }

    /// The number of rules found.
    pub fn len(&self) -> (n: usize)
        ensures
            n == self.entries().len(),
            names_ascend(self.entries()),
    {
        proof {
            use_type_invariant(self);
        }
        self.rules.len()
    }

    /// The name of the rule at a place of the order.
    pub fn name(&self, i: usize) -> (name: &str)
        requires
            i < self.entries().len(),
        ensures
            name@ == self.entries()[i as int].0,
    {
        self.rules[i].0.as_str()
    }

    /// The severity of the rule at a place of the order.
    pub fn severity(&self, i: usize) -> (severity: Severity)
        requires
            i < self.entries().len(),
        ensures
            severity == self.entries()[i as int].1,
    {
        self.rules[i].1
    }

    /// The severity found for a rule, if the rule was found.
    pub fn get(&self, name: &str) -> (severity: Option<Severity>)
        ensures
            severity is Some <==> self.levels().dom().contains(name@),
            severity matches Some(s) ==> self.levels()[name@] == s,
    {
        proof {
            use_type_invariant(self);
        }
        let mut i: usize = 0;
        while i < self.rules.len()
            invariant
                i <= self.rules@.len(),
                names_ascend(self.entries()),
                self.entries() == level_views(self.rules@),
                forall|j: int| 0 <= j < i ==> (#[trigger] self.entries()[j]).0 != name@,
            decreases self.rules@.len() - i,
        {
            if str_eq(self.rules[i].0.as_str(), name) {
                proof {
                    assert(self.entries()[i as int].0 == name@);
                    lemma_level_map_at(self.entries(), i as int);
                }
                return Some(self.rules[i].1);
            }
            i += 1;
        }
        None
    }

    /// Whether a rule of that family was found.
    pub fn has_source(&self, kind: RuleSourceKind) -> (found: bool)
        ensures
            found == self.sources().contains(kind),
    {
        proof {
            use_type_invariant(self);
        }
        self.marks[kind.ordinal() as usize]
    }

    /// Sets the severity of an ESLint rule of a family. Of two severities set
    /// for one rule the later stays.
    pub fn insert(&mut self, kind: RuleSourceKind, name: String, severity: Severity)
        ensures
            names_ascend(final(self).entries()),
            final(self).levels() == old(self).levels().insert(name@, severity),
            final(self).sources() == old(self).sources().insert(kind),
    {
        proof {
            use_type_invariant(&*self);
        }
        let ghost before = self.entries();
        let ghost marks_before = self.marks@;
        self.marks[kind.ordinal() as usize] = true;
        proof {
            assert forall|other: RuleSourceKind| #[trigger]
                marked(self.marks@).contains(other) <==> marked(marks_before).insert(
                    kind,
                ).contains(other) by {
                lemma_ordinal_unique(kind, other);
            }
            assert(marked(self.marks@) =~= marked(marks_before).insert(kind));
        }
        let mut rules: Vec<(String, Severity)> = Vec::new();
        core::mem::swap(&mut self.rules, &mut rules);
        let mut i: usize = 0;
        let mut found = false;
        while i < rules.len() && !found
            invariant
                level_views(rules@) == before,
                names_ascend(before),
                i <= before.len(),
                forall|j: int| 0 <= j < i ==> lex_lt(#[trigger] before[j].0, name@),
                found ==> i < before.len() && !lex_lt(before[i as int].0, name@),
            decreases before.len() - i, if found { 0int } else { 1int },
        {
            assert(before[i as int].0 == rules@[i as int].0@);
            if rank(rules[i].0.as_str(), name.as_str()) == Rank::Before {
                i += 1;
            } else {
                found = true;
            }
        }
        if found && str_eq(rules[i].0.as_str(), name.as_str()) {
            assert(before[i as int].0 == rules@[i as int].0@);
            rules[i] = (name, severity);
            proof {
                let replaced = (before[i as int].0, severity);
                assert(level_views(rules@) =~= before.update(i as int, replaced));
                lemma_update_level(before, i as int, severity);
            }
        } else {
            proof {
                if found {
                    assert(before[i as int].0 == rules@[i as int].0@);
                    lemma_lex_total(before[i as int].0, name@);
                }
                lemma_insert_level(before, i as int, (name@, severity));
            }
            rules.insert(i, (name, severity));
            proof {
                assert(level_views(rules@) =~= before.insert(i as int, (name@, severity)));
            }
        }
        core::mem::swap(&mut self.rules, &mut rules);
    }
}

/// Whether the walk takes an ESLint rule from `rule`: the rule is enabled and
/// names at least one external rule as its equivalent.
pub open spec fn contributes(rule: RuleView, enabled: Set<RuleKey>) -> bool {
    enabled.contains((rule.group, rule.name)) && rule.sources.len() > 0
}

/// The ESLint rule that stands for `rule`: the first of its equivalents.
pub open spec fn target_name(rule: RuleView) -> Seq<char> {
    external_name(rule.sources[0])
}

/// The severities that a walk over `rules` finds, rule after rule; a later
/// rule with the same ESLint name overrides an earlier one.
pub open spec fn walked_levels(
    rules: Seq<RuleView>,
    enabled: Set<RuleKey>,
    config: Rules,
) -> Map<Seq<char>, Severity>
    decreases rules.len(),
{
    if rules.len() == 0 {
        Map::empty()
    } else {
        let rest = walked_levels(rules.drop_last(), enabled, config);
        let rule = rules.last();
        if contributes(rule, enabled) {
            rest.insert(target_name(rule), config.effective(rule.group, rule.name, rule.severity))
        } else {
            rest
        }
    }
}

/// The families that a walk over `rules` takes ESLint rules from.
pub open spec fn walked_sources(rules: Seq<RuleView>, enabled: Set<RuleKey>) -> Set<RuleSourceKind>
    decreases rules.len(),
{
    if rules.len() == 0 {
        Set::empty()
    } else {
        let rest = walked_sources(rules.drop_last(), enabled);
        let rule = rules.last();
        if contributes(rule, enabled) {
            rest.insert(kind_of(rule.sources[0]))
        } else {
            rest
        }
    }
}

/// What a walk found out about one enabled rule: its severity, and the ESLint
/// rule that stands for it, if one does.
#[derive(Debug)]
pub struct Resolution {
    pub group: String,
    pub rule: String,
    pub severity: Severity,
    pub external: Option<String>,
}

/// A resolution as plain values.
pub struct ResolutionView {
    pub group: Seq<char>,
    pub rule: Seq<char>,
    pub severity: Severity,
    pub external: Option<Seq<char>>,
}

impl View for Resolution {
    type V = ResolutionView;

    open spec fn view(&self) -> ResolutionView {
        ResolutionView {
            group: self.group@,
            rule: self.rule@,
            severity: self.severity,
            external: match self.external {
                Some(name) => Some(name@),
                None => None,
            },
        }
    }
}

/// What a walk finds out about an enabled rule.
pub open spec fn resolution_of(rule: RuleView, config: Rules) -> ResolutionView {
    ResolutionView {
        group: rule.group,
        rule: rule.name,
        severity: config.effective(rule.group, rule.name, rule.severity),
        external: if rule.sources.len() > 0 {
            Some(target_name(rule))
        } else {
            None
        },
    }
}

/// The resolutions of the enabled rules among `rules`, in their order.
pub open spec fn walked_trace(
    rules: Seq<RuleView>,
    enabled: Set<RuleKey>,
    config: Rules,
) -> Seq<ResolutionView>
    decreases rules.len(),
{
    if rules.len() == 0 {
        Seq::empty()
    } else {
        let rest = walked_trace(rules.drop_last(), enabled, config);
        let rule = rules.last();
        if enabled.contains((rule.group, rule.name)) {
            rest.push(resolution_of(rule, config))
        } else {
            rest
        }
    }
}

/// The views of a run of resolutions.
pub open spec fn trace_views(trace: Seq<Resolution>) -> Seq<ResolutionView> {
    Seq::new(trace.len(), |i: int| trace[i]@)
}

/// What a walk gives: the rules found, and the resolution of every enabled
/// rule in the order in which the walk met them.
pub struct Walk {
    pub resolved: ResolvedRules,
    pub trace: Vec<Resolution>,
}

/// Walks the registry in its order. Every enabled rule is resolved: it gets
/// the severity that the configuration asks for, else its own; where it names
/// external equivalents, the first of them gives the ESLint rule to configure
/// and the family to take it from.
pub fn resolve_rules(
    registry: &RuleRegistry,
    enabled: &EnabledRules,
    config: &Rules,
) -> (walk: Walk)
    ensures
        names_ascend(walk.resolved.entries()),
        walk.resolved.levels() == walked_levels(registry@, enabled@, *config),
        walk.resolved.sources() == walked_sources(registry@, enabled@),
        trace_views(walk.trace@) == walked_trace(registry@, enabled@, *config),
{
    let mut resolved = ResolvedRules::new();
    let mut trace: Vec<Resolution> = Vec::new();
    let count = registry.len();
    let mut i: usize = 0;
    assert(trace_views(trace@) =~= Seq::<ResolutionView>::empty());
    while i < count
        invariant
            count == registry@.len(),
            i <= count,
            names_ascend(resolved.entries()),
            resolved.levels() == walked_levels(registry@.take(i as int), enabled@, *config),
            resolved.sources() == walked_sources(registry@.take(i as int), enabled@),
            trace_views(trace@) == walked_trace(registry@.take(i as int), enabled@, *config),
        decreases count - i,
    {
        let rule = registry.rule(i);
        let ghost seen = registry@.take(i + 1);
        assert(seen.drop_last() =~= registry@.take(i as int));
        assert(seen.last() == rule@);
        let ghost trace_before = trace_views(trace@);
        if enabled.contains(rule.group.as_str(), rule.name.as_str()) {
            let severity = effective_severity(
                config,
                rule.group.as_str(),
                rule.name.as_str(),
                rule.severity,
            );
            if rule.sources.len() > 0 {
                let source = &rule.sources[0];
                let kind = RuleSourceKind::from(source);
                let name = namespaced_rule_name(source);
                trace.push(
                    Resolution {
                        group: rule.group.clone(),
                        rule: rule.name.clone(),
                        severity,
                        external: Some(name.clone()),
                    },
                );
                resolved.insert(kind, name, severity);
            } else {
                trace.push(
                    Resolution {
                        group: rule.group.clone(),
                        rule: rule.name.clone(),
                        severity,
                        external: None,
                    },
                );
            }
            assert(trace_views(trace@) =~= trace_before.push(resolution_of(rule@, *config)));
        }
        i += 1;
    }
    assert(registry@.take(i as int) =~= registry@);
    Walk { resolved, trace }
}

/// Every enabled rule that names an external equivalent has an entry under
/// the ESLint name of the first equivalent it names, however many it names.
pub proof fn law_first_reference_is_mapped(
    rules: Seq<RuleView>,
    enabled: Set<RuleKey>,
    config: Rules,
    at: int,
)
    requires
        0 <= at < rules.len(),
        contributes(rules[at], enabled),
    ensures
        walked_levels(rules, enabled, config).dom().contains(external_name(rules[at].sources[0])),
        walked_sources(rules, enabled).contains(kind_of(rules[at].sources[0])),
    decreases rules.len(),
{
    if at < rules.len() - 1 {
        assert(rules.drop_last()[at] == rules[at]);
        law_first_reference_is_mapped(rules.drop_last(), enabled, config, at);
    }
}

/// An entry holds the severity of the last rule of the walk that stands for
/// its ESLint rule.
pub proof fn law_last_writer_wins(
    rules: Seq<RuleView>,
    enabled: Set<RuleKey>,
    config: Rules,
    at: int,
)
    requires
        0 <= at < rules.len(),
        contributes(rules[at], enabled),
        forall|later: int|
            at < later < rules.len() && contributes(#[trigger] rules[later], enabled)
                ==> target_name(rules[later]) != target_name(rules[at]),
    ensures
        walked_levels(rules, enabled, config)[target_name(rules[at])] == config.effective(
            rules[at].group,
            rules[at].name,
            rules[at].severity,
        ),
    decreases rules.len(),
{
    if at < rules.len() - 1 {
        let shorter = rules.drop_last();
        assert(shorter[at] == rules[at]);
        assert forall|later: int|
            at < later < shorter.len() && contributes(
                #[trigger] shorter[later],
                enabled,
            ) implies target_name(shorter[later]) != target_name(shorter[at]) by {
            assert(shorter[later] == rules[later]);
        }
        law_last_writer_wins(shorter, enabled, config, at);
        assert(rules.last() == rules[rules.len() - 1]);
    }
}

/// Every entry stands for the first equivalent of some enabled rule: a rule
/// that names no equivalent, or is not enabled, leaves no entry.
pub proof fn law_entries_come_from_references(
    rules: Seq<RuleView>,
    enabled: Set<RuleKey>,
    config: Rules,
    name: Seq<char>,
)
    requires
        walked_levels(rules, enabled, config).dom().contains(name),
    ensures
        exists|at: int|
            0 <= at < rules.len() && contributes(#[trigger] rules[at], enabled) && target_name(
                rules[at],
            ) == name,
    decreases rules.len(),
{
    if rules.len() > 0 {
        let shorter = rules.drop_last();
        let last = rules.len() - 1;
        if contributes(rules[last], enabled) && target_name(rules[last]) == name {
        } else {
            law_entries_come_from_references(shorter, enabled, config, name);
            let at = choose|at: int|
                0 <= at < shorter.len() && contributes(#[trigger] shorter[at], enabled)
                    && target_name(shorter[at]) == name;
            assert(rules[at] == shorter[at]);
        }
    }
}

/// A rule that names no external equivalent changes nothing in what the walk
/// finds: with it or without it the rules and families found are the same.
pub proof fn law_unmapped_rule_leaves_no_entry(
    rules: Seq<RuleView>,
    enabled: Set<RuleKey>,
    config: Rules,
    at: int,
)
    requires
        0 <= at < rules.len(),
        rules[at].sources.len() == 0,
    ensures
        walked_levels(rules.remove(at), enabled, config) == walked_levels(rules, enabled, config),
        walked_sources(rules.remove(at), enabled) == walked_sources(rules, enabled),
    decreases rules.len(),
{
    if at == rules.len() - 1 {
        assert(rules.remove(at) =~= rules.drop_last());
    } else {
        assert(rules.remove(at).drop_last() =~= rules.drop_last().remove(at));
        assert(rules.remove(at).last() == rules.last());
        assert(rules.drop_last()[at] == rules[at]);
        law_unmapped_rule_leaves_no_entry(rules.drop_last(), enabled, config, at);
    }
}

} // verus!
