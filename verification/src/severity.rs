//! Severities: what a configuration says of a group or of a rule, which
//! severity a rule ends up with, and the level ESLint is given for it.
use crate::text::str_eq;
use biome_diagnostics::Severity;
use vstd::prelude::*;

verus! {

/// `biome_diagnostics::Severity`, an enum without fields. Verus reads its
/// variants from the crate itself, so nothing is assumed of it here.
#[verifier::external_type_specification]
pub struct ExSeverity(Severity);

/// What a configuration says of a whole group in one word.
#[derive(Clone, Copy, Debug, PartialEq, Eq, Structural)]
pub enum GroupPlainConfiguration {
    Off,
    On,
    Info,
    Warn,
    Error,
}

/// What a configuration says of one rule in one word.
#[derive(Clone, Copy, Debug, PartialEq, Eq, Structural)]
pub enum RulePlainConfiguration {
    Off,
    On,
    Info,
    Warn,
    Error,
}

/// The rules that a configuration names within one group, each with its word.
/// Where a rule is named twice, the first entry counts.
#[derive(Clone, Debug)]
pub struct GroupRules {
    pub rules: Vec<(String, RulePlainConfiguration)>,
}

/// A group's configuration: one word for all its rules, or rule by rule.
#[derive(Clone, Debug)]
pub enum SeverityOrGroup {
    Plain(GroupPlainConfiguration),
    Group(GroupRules),
}

/// The linter's rule configuration, group by group.
#[derive(Clone, Debug)]
pub struct Rules {
    pub a11y: Option<SeverityOrGroup>,
    pub complexity: Option<SeverityOrGroup>,
    pub correctness: Option<SeverityOrGroup>,
    pub nursery: Option<SeverityOrGroup>,
    pub performance: Option<SeverityOrGroup>,
    pub security: Option<SeverityOrGroup>,
    pub style: Option<SeverityOrGroup>,
    pub suspicious: Option<SeverityOrGroup>,
}

/// The severity that a group's word asks for; `Off` and `On` ask for none.
pub open spec fn group_severity(plain: GroupPlainConfiguration) -> Option<Severity> {
    match plain {
        GroupPlainConfiguration::Error => Some(Severity::Error),
        GroupPlainConfiguration::Warn => Some(Severity::Warning),
        GroupPlainConfiguration::Info => Some(Severity::Information),
        _ => None,
    }
}

/// The severity that a rule's word asks for; `Off` and `On` ask for none.
pub open spec fn rule_severity(plain: RulePlainConfiguration) -> Option<Severity> {
    match plain {
        RulePlainConfiguration::Error => Some(Severity::Error),
        RulePlainConfiguration::Warn => Some(Severity::Warning),
        RulePlainConfiguration::Info => Some(Severity::Information),
        _ => None,
    }
}

/// The word of the first of `entries`, from `from` on, that names `rule`.
pub open spec fn first_named(
    entries: Seq<(String, RulePlainConfiguration)>,
    rule: Seq<char>,
    from: int,
) -> Option<RulePlainConfiguration>
    decreases entries.len() - from,
{
    if from < 0 || from >= entries.len() {
        None
    } else if entries[from].0@ == rule {
        Some(entries[from].1)
    } else {
        first_named(entries, rule, from + 1)
    }
}

/// ESLint's level for a severity: `error` for errors and crashes, `warn` for the rest.
pub open spec fn eslint_level(severity: Severity) -> Seq<char> {
    match severity {
        Severity::Error | Severity::Fatal => "error"@,
        _ => "warn"@,
    }
}

impl GroupRules {
    /// What the group's configuration says of `rule`.
    pub open spec fn level(self, rule: Seq<char>) -> Option<RulePlainConfiguration> {
        first_named(self.rules@, rule, 0)
    }

    /// A group in which no rule is configured.
    pub fn new() -> (group: GroupRules)
        ensures
            group.rules@.len() == 0,
    {
        GroupRules { rules: Vec::new() }
    }

    /// Looks up what the configuration says of `rule`.
    pub fn get_rule_configuration(&self, rule: &str) -> (plain: Option<RulePlainConfiguration>)
        ensures
            plain == self.level(rule@),
    {
        let mut i: usize = 0;
        while i < self.rules.len()
            invariant
                i <= self.rules@.len(),
                self.level(rule@) == first_named(self.rules@, rule@, i as int),
            decreases self.rules@.len() - i,
        {
            if str_eq(self.rules[i].0.as_str(), rule) {
                return Some(self.rules[i].1);
            }
            i += 1;
        }
        None
    }
}

impl SeverityOrGroup {
    /// The severity that this configuration of a group asks for `rule`.
    pub open spec fn severity_of(self, rule: Seq<char>) -> Option<Severity> {
        match self {
            SeverityOrGroup::Plain(plain) => group_severity(plain),
            SeverityOrGroup::Group(group) => match group.level(rule) {
                Some(plain) => rule_severity(plain),
                None => None,
            },
        }
    }
}

impl Rules {
    /// The configuration of the group called `group`, if it is one of the
    /// linter's groups and the configuration mentions it.
    pub open spec fn group(self, group: Seq<char>) -> Option<SeverityOrGroup> {
        if group == "a11y"@ {
            self.a11y
        } else if group == "complexity"@ {
            self.complexity
        } else if group == "correctness"@ {
            self.correctness
        } else if group == "nursery"@ {
            self.nursery
        } else if group == "performance"@ {
            self.performance
        } else if group == "security"@ {
            self.security
        } else if group == "style"@ {
            self.style
        } else if group == "suspicious"@ {
            self.suspicious
        } else {
            None
        }
    }

    /// The severity that the configuration asks for a rule, if it asks for one.
    pub open spec fn configured(self, group: Seq<char>, rule: Seq<char>) -> Option<Severity> {
        match self.group(group) {
            Some(setting) => setting.severity_of(rule),
            None => None,
        }
    }

    /// The severity a rule has: the configured one, else the rule's own.
    pub open spec fn effective(
        self,
        group: Seq<char>,
        rule: Seq<char>,
        default_severity: Severity,
    ) -> Severity {
        match self.configured(group, rule) {
            Some(severity) => severity,
            None => default_severity,
        }
    }

    /// A configuration that mentions no group.
    pub fn new() -> (rules: Rules)
        ensures
            forall|group: Seq<char>| rules.group(group) is None,
    {
        Rules {
            a11y: None,
            complexity: None,
            correctness: None,
            nursery: None,
            performance: None,
            security: None,
            style: None,
            suspicious: None,
        }
    }
}

/// The severity that a group's word asks for, if it asks for one.
pub fn group_config_to_severity(plain: &GroupPlainConfiguration) -> (severity: Option<Severity>)
    ensures
        severity == group_severity(*plain),
{
    match plain {
        GroupPlainConfiguration::Error => Some(Severity::Error),
        GroupPlainConfiguration::Warn => Some(Severity::Warning),
        GroupPlainConfiguration::Info => Some(Severity::Information),
        _ => None,
    }
}

/// The severity that a rule's word asks for, if it asks for one.
pub fn rule_config_to_severity(plain: RulePlainConfiguration) -> (severity: Option<Severity>)
    ensures
        severity == rule_severity(plain),
{
    match plain {
        RulePlainConfiguration::Error => Some(Severity::Error),
        RulePlainConfiguration::Warn => Some(Severity::Warning),
        RulePlainConfiguration::Info => Some(Severity::Information),
        _ => None,
    }
}

/// The severity that the configuration of a group asks for one of its rules:
/// the group's one word, or what the group says of that rule.
pub fn severity_or_group_to_severity(
    severity_or_group: &SeverityOrGroup,
    rule: &str,
) -> (severity: Option<Severity>)
    ensures
        severity == severity_or_group.severity_of(rule@),
{
    match severity_or_group {
        SeverityOrGroup::Plain(plain) => group_config_to_severity(plain),
        SeverityOrGroup::Group(group) => match group.get_rule_configuration(rule) {
            Some(plain) => rule_config_to_severity(plain),
            None => None,
        },
    }
}

/// The severity that the configuration asks for a rule. A group that is not
/// one of the linter's, or that the configuration does not mention, asks for
/// none.
pub fn get_configured_severity(
    config: &Rules,
    group: &str,
    rule: &str,
) -> (severity: Option<Severity>)
    ensures
        severity == config.configured(group@, rule@),
{
    let setting = if str_eq(group, "a11y") {
        &config.a11y
    } else if str_eq(group, "complexity") {
        &config.complexity
    } else if str_eq(group, "correctness") {
        &config.correctness
    } else if str_eq(group, "nursery") {
        &config.nursery
    } else if str_eq(group, "performance") {
        &config.performance
    } else if str_eq(group, "security") {
        &config.security
    } else if str_eq(group, "style") {
        &config.style
    } else if str_eq(group, "suspicious") {
        &config.suspicious
    } else {
        return None;
    };
    match setting {
        Some(severity_or_group) => severity_or_group_to_severity(severity_or_group, rule),
        None => None,
    }
}

/// The severity a rule has under a configuration: what the configuration asks
/// for it, else the severity the rule was built with.
pub fn effective_severity(
    config: &Rules,
    group: &str,
    rule: &str,
    default_severity: Severity,
) -> (severity: Severity)
    ensures
        severity == config.effective(group@, rule@, default_severity),
{
    match get_configured_severity(config, group, rule) {
        Some(severity) => severity,
        None => default_severity,
    }
}

/// ESLint's level for a severity. ESLint has two: every severity below an
/// error is a warning to it.
pub fn severity_to_eslint_level(severity: &Severity) -> (level: &'static str)
    ensures
        level@ == eslint_level(*severity),
{
    match severity {
        Severity::Error | Severity::Fatal => "error",
        Severity::Warning | Severity::Information | Severity::Hint => "warn",
    }
}

/// What a configuration says of a rule outranks what it says of the rule's
/// group, and that outranks the severity the rule was built with: a rule
/// named in its group's configuration with a severity has that severity; a
/// rule whose group is given one severity for all has that one; any other
/// rule keeps its own.
pub proof fn law_severity_precedence(
    config: Rules,
    group: Seq<char>,
    rule: Seq<char>,
    default_severity: Severity,
)
    ensures
        config.group(group) matches Some(SeverityOrGroup::Group(rules)) ==> (rules.level(rule)
            matches Some(plain) ==> (rule_severity(plain) matches Some(severity)
            ==> config.effective(group, rule, default_severity) == severity)),
        config.group(group) matches Some(SeverityOrGroup::Plain(plain)) ==> (group_severity(plain)
            matches Some(severity) ==> config.effective(group, rule, default_severity)
            == severity),
        config.configured(group, rule) is None ==> config.effective(group, rule, default_severity)
            == default_severity,
{
}

/// ESLint is told `error` exactly for errors and crashes, and `warn` otherwise.
pub proof fn law_two_levels(severity: Severity)
    ensures
        eslint_level(severity) == "error"@ || eslint_level(severity) == "warn"@,
        eslint_level(severity) == "error"@ <==> (severity is Error || severity is Fatal),
{
    reveal_strlit("error");
    reveal_strlit("warn");
    if eslint_level(severity) == "warn"@ {
        assert("warn"@.len() == 4);
        assert("error"@.len() == 5);
    }
}

} // verus!
