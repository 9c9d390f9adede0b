//! The rules that the analyzer knows: each with its group, its name, the
//! severity it was built with and the external rules it is equivalent to.
//! The registry keeps them ordered by group and then by name.
use crate::text::{
    lemma_lex_irreflexive, lemma_lex_total, lemma_lex_transitive, lex_lt, rank, str_eq, Rank,
};
use biome_analyze::RuleSource;
use biome_diagnostics::Severity;
use vstd::prelude::*;

verus! {

/// One rule of the registry.
#[derive(Debug)]
pub struct RegisteredRule {
    pub group: String,
    pub name: String,
    pub severity: Severity,
    pub sources: Vec<RuleSource>,
}

/// What a registered rule holds, as plain values.
pub struct RuleView {
    pub group: Seq<char>,
    pub name: Seq<char>,
    pub severity: Severity,
    pub sources: Seq<RuleSource>,
}

impl View for RegisteredRule {
    type V = RuleView;

    open spec fn view(&self) -> RuleView {
        RuleView {
            group: self.group@,
            name: self.name@,
            severity: self.severity,
            sources: self.sources@,
        }
    }
}

/// The rule of group `g1` named `n1` stands before the rule of group `g2` named `n2`.
pub open spec fn key_lt(g1: Seq<char>, n1: Seq<char>, g2: Seq<char>, n2: Seq<char>) -> bool {
    lex_lt(g1, g2) || (g1 == g2 && lex_lt(n1, n2))
}

/// Rules in strictly ascending order of group and name: none is there twice.
pub open spec fn ordered(rules: Seq<RuleView>) -> bool {
    forall|i: int, j: int|
        0 <= i < j < rules.len() ==> key_lt(
            #[trigger] rules[i].group,
            rules[i].name,
            #[trigger] rules[j].group,
            rules[j].name,
        )
}

/// Whether `rules` holds a rule of that group and name.
pub open spec fn has_rule(rules: Seq<RuleView>, group: Seq<char>, name: Seq<char>) -> bool {
    exists|i: int|
        0 <= i < rules.len() && #[trigger] rules[i].group == group && rules[i].name == name
}

/// The views of a run of rules.
pub open spec fn views(rules: Seq<RegisteredRule>) -> Seq<RuleView> {
    Seq::new(rules.len(), |i: int| rules[i]@)
}

/// The order of rules is transitive.
pub proof fn lemma_key_lt_transitive(
    g1: Seq<char>,
    n1: Seq<char>,
    g2: Seq<char>,
    n2: Seq<char>,
    g3: Seq<char>,
    n3: Seq<char>,
)
    requires
        key_lt(g1, n1, g2, n2),
        key_lt(g2, n2, g3, n3),
    ensures
        key_lt(g1, n1, g3, n3),
{
    if lex_lt(g1, g2) && lex_lt(g2, g3) {
        lemma_lex_transitive(g1, g2, g3);
    }
    if g1 == g2 && g2 == g3 {
        lemma_lex_transitive(n1, n2, n3);
    }
}

/// The rules of the analyzer, in ascending order of group and name.
pub struct RuleRegistry {
    rules: Vec<RegisteredRule>,
}

impl View for RuleRegistry {
    type V = Seq<RuleView>;

    closed spec fn view(&self) -> Seq<RuleView> {
        views(self.rules@)
    }
}

impl Default for RuleRegistry {
    fn default() -> (registry: RuleRegistry)
        ensures
            registry@.len() == 0,
    {
        RuleRegistry::new()
    }
}

impl RuleRegistry {
    #[verifier::type_invariant]
    spec fn in_order(self) -> bool {
        ordered(views(self.rules@))
    }

    /// A registry without rules.
    pub fn new() -> (registry: RuleRegistry)
        ensures
            registry@.len() == 0,
    {
        RuleRegistry { rules: Vec::new() }
    }

    /// The number of rules.
    pub fn len(&self) -> (n: usize)
        ensures
            n == self@.len(),
            ordered(self@),
    {
        proof {
            use_type_invariant(self);
        }
        self.rules.len()
    }

    /// The rule at a place of the order.
    pub fn rule(&self, i: usize) -> (rule: &RegisteredRule)
        requires
            i < self@.len(),
        ensures
            rule@ == self@[i as int],
    {
        &self.rules[i]
    }

    /// Records a rule at its place. A rule of the same group and name that is
    /// already there is replaced.
    pub fn record_rule(
        &mut self,
        group: &str,
        name: &str,
        severity: Severity,
        sources: Vec<RuleSource>,
    )
        ensures
            ordered(final(self)@),
            recorded(
                old(self)@,
                final(self)@,
                RuleView { group: group@, name: name@, severity, sources: sources@ },
            ),
    {
        proof {
            use_type_invariant(&*self);
        }
        let entry = RegisteredRule {
            group: group.to_owned(),
            name: name.to_owned(),
            severity,
            sources,
        };
        let ghost before = self@;
        let ghost added = entry@;
        let mut rules: Vec<RegisteredRule> = Vec::new();
        core::mem::swap(&mut self.rules, &mut rules);
        let mut i: usize = 0;
        let mut found = false;
        while i < rules.len() && !found
            invariant
                views(rules@) == before,
                ordered(before),
                i <= before.len(),
                forall|j: int|
                    0 <= j < i ==> key_lt(
                        #[trigger] before[j].group,
                        before[j].name,
                        group@,
                        name@,
                    ),
                found ==> i < before.len() && !key_lt(
                    before[i as int].group,
                    before[i as int].name,
                    group@,
                    name@,
                ),
            decreases before.len() - i, if found { 0int } else { 1int },
        {
            let by_group = rank(rules[i].group.as_str(), group);
            let by_name = rank(rules[i].name.as_str(), name);
            assert(before[i as int] == rules@[i as int]@);
            if by_group == Rank::Before || (by_group == Rank::Same && by_name == Rank::Before) {
                i += 1;
            } else {
                found = true;
            }
        }
        if found && str_eq(rules[i].group.as_str(), group) && str_eq(rules[i].name.as_str(), name) {
            assert(before[i as int] == rules@[i as int]@);
            rules[i] = entry;
            proof {
                assert(views(rules@) =~= before.update(i as int, added));
                assert(has_rule(before, group@, name@));
                lemma_replace_ordered(before, i as int, added);
            }
        } else {
            proof {
                if found {
                    assert(before[i as int] == rules@[i as int]@);
                    lemma_lex_total(before[i as int].group, group@);
                    lemma_lex_total(before[i as int].name, name@);
                }
                lemma_insert_ordered(before, i as int, added);
            }
            rules.insert(i, entry);
            proof {
                assert(views(rules@) =~= before.insert(i as int, added));
            }
        }
        let ghost after = views(rules@);
        core::mem::swap(&mut self.rules, &mut rules);
        proof {
            assert(self@ == after);
            assert(added == (RuleView { group: group@, name: name@, severity, sources: sources@ }));
            if has_rule(before, group@, name@) {
                assert(after == before.update(i as int, added));
            } else {
                assert(after == before.insert(i as int, added));
            }
        }
    }
}

/// `after` is `before` with `rule` recorded: in the place of the rule of the
/// same group and name, or where there is none, put in as a further rule.
pub open spec fn recorded(before: Seq<RuleView>, after: Seq<RuleView>, rule: RuleView) -> bool {
    exists|at: int|
        0 <= at <= before.len() && if has_rule(before, rule.group, rule.name) {
            &&& at < before.len()
            &&& before[at].group == rule.group
            &&& before[at].name == rule.name
            &&& after == #[trigger] before.update(at, rule)
        } else {
            after == #[trigger] before.insert(at, rule)
        }
}

/// A rule put in the place of one of the same group and name leaves the order intact.
proof fn lemma_replace_ordered(rules: Seq<RuleView>, at: int, rule: RuleView)
    requires
        ordered(rules),
        0 <= at < rules.len(),
        rules[at].group == rule.group,
        rules[at].name == rule.name,
    ensures
        ordered(rules.update(at, rule)),
{
    let after = rules.update(at, rule);
    assert forall|i: int, j: int| 0 <= i < j < after.len() implies key_lt(
        #[trigger] after[i].group,
        after[i].name,
        #[trigger] after[j].group,
        after[j].name,
    ) by {
        assert(key_lt(rules[i].group, rules[i].name, rules[j].group, rules[j].name));
    }
}

/// A rule put between the rules before it and the rules after it leaves the order intact.
proof fn lemma_insert_ordered(rules: Seq<RuleView>, at: int, rule: RuleView)
    requires
        ordered(rules),
        0 <= at <= rules.len(),
        forall|j: int|
            0 <= j < at ==> key_lt(#[trigger] rules[j].group, rules[j].name, rule.group, rule.name),
        at < rules.len() ==> key_lt(rule.group, rule.name, rules[at].group, rules[at].name),
    ensures
        ordered(rules.insert(at, rule)),
        !has_rule(rules, rule.group, rule.name),
{
    let after = rules.insert(at, rule);
    assert forall|j: int| at <= j < rules.len() implies key_lt(
        rule.group,
        rule.name,
        #[trigger] rules[j].group,
        rules[j].name,
    ) by {
        if at < j {
            assert(key_lt(rules[at].group, rules[at].name, rules[j].group, rules[j].name));
            lemma_key_lt_transitive(
                rule.group,
                rule.name,
                rules[at].group,
                rules[at].name,
                rules[j].group,
                rules[j].name,
            );
        }
    }
    assert forall|i: int, j: int| 0 <= i < j < after.len() implies key_lt(
        #[trigger] after[i].group,
        after[i].name,
        #[trigger] after[j].group,
        after[j].name,
    ) by {
        if j < at {
            assert(key_lt(rules[i].group, rules[i].name, rules[j].group, rules[j].name));
        } else if j == at {
            assert(key_lt(rules[i].group, rules[i].name, rule.group, rule.name));
        } else if i < at {
            assert(key_lt(rules[i].group, rules[i].name, rules[j - 1].group, rules[j - 1].name));
        } else if i == at {
            assert(key_lt(rule.group, rule.name, rules[j - 1].group, rules[j - 1].name));
        } else {
            assert(key_lt(
                rules[i - 1].group,
                rules[i - 1].name,
                rules[j - 1].group,
                rules[j - 1].name,
            ));
        }
    }
    if has_rule(rules, rule.group, rule.name) {
        let k = choose|k: int|
            0 <= k < rules.len() && #[trigger] rules[k].group == rule.group && rules[k].name
                == rule.name;
        if k < at {
            assert(key_lt(rules[k].group, rules[k].name, rule.group, rule.name));
        } else {
            assert(key_lt(rule.group, rule.name, rules[k].group, rules[k].name));
        }
        lemma_key_lt_irreflexive(rule.group, rule.name);
    }
}

/// No rule stands before itself.
pub proof fn lemma_key_lt_irreflexive(group: Seq<char>, name: Seq<char>)
    ensures
        !key_lt(group, name, group, name),
{
    lemma_lex_irreflexive(group);
    lemma_lex_irreflexive(name);
}

} // verus!
