//! The ordered rule list of a profile: the mappings that the user declared,
//! followed by the built-in rules that keep repository files out of the home
//! directory.

use vstd::prelude::*;
use crate::error::{Error, ErrorKind};
use crate::text::texts_of;
use crate::mapping::{
    action_of, regex_accepts, regex_is_match, skip_rule, Action, MapAction, Mapping, Platforms,
    Rule, OS,
};

verus! {

/// The pattern of `rule` finds a match in `path`.
pub open spec fn rule_matches(rule: Rule, path: Seq<char>) -> bool {
    regex_is_match(rule.pattern, path)
}

/// Some rule of `rules` matches `path`.
pub open spec fn any_matches(rules: Seq<Rule>, path: Seq<char>) -> bool {
    exists|i: int| 0 <= i < rules.len() && rule_matches(#[trigger] rules[i], path)
}

/// The outcome for `path`: what the first rule that matches it asks for, and
/// `Unmapped` when no rule matches.
pub open spec fn resolve(rules: Seq<Rule>, path: Seq<char>, os: OS, home: Seq<char>) -> Action
    decreases rules.len(),
{
    if rules.len() == 0 {
        Action::Unmapped
    } else if rule_matches(rules[0], path) {
        action_of(rules[0], os, home)
    } else {
        resolve(rules.skip(1), path, os, home)
    }
}

/// The patterns of the built-in rules.
pub open spec fn default_patterns() -> Seq<Seq<char>> {
    seq![
        "^README.[a-z]+$"@,
        "^LICENSE$"@,
        "^\\.gitignore$"@,
        "^\\.git$"@,
        "^\\.dfm\\.yml"@,
    ]
}

/// One skip rule for each of `patterns`.
pub open spec fn skip_rules(patterns: Seq<Seq<char>>) -> Seq<Rule> {
    Seq::new(patterns.len(), |i: int| skip_rule(patterns[i]))
}

/// The built-in rules: they skip the readme, the licence and the files of
/// git and of this tool.
pub open spec fn default_rules() -> Seq<Rule> {
    skip_rules(default_patterns())
}

/// The pattern at `i` is the first of `patterns` that is no regular
/// expression.
pub open spec fn rejected_at(patterns: Seq<Seq<char>>, i: int) -> bool {
    &&& 0 <= i < patterns.len()
    &&& !regex_accepts(patterns[i])
    &&& forall|j: int| 0 <= j < i ==> regex_accepts(#[trigger] patterns[j])
}

/// Every one of `patterns` is a regular expression.
pub open spec fn all_accepted(patterns: Seq<Seq<char>>) -> bool {
    forall|i: int| 0 <= i < patterns.len() ==> regex_accepts(#[trigger] patterns[i])
}

/// What the mappings of `mappings` say, in order.
pub open spec fn rules_of(mappings: Seq<Mapping>) -> Seq<Rule> {
    Seq::new(mappings.len(), |i: int| mappings[i]@)
}

/// The rule engine of one profile.
#[derive(Debug)]
pub struct Mapper {
    mappings: Vec<Mapping>,
    current_os: OS,
    home: String,
}

/// Rules before the first match play no part in the outcome.
proof fn lemma_resolve_skip(rules: Seq<Rule>, path: Seq<char>, os: OS, home: Seq<char>, n: int)
    requires
        0 <= n <= rules.len(),
        forall|j: int| 0 <= j < n ==> !rule_matches(#[trigger] rules[j], path),
    ensures
        resolve(rules, path, os, home) == resolve(rules.skip(n), path, os, home),
    decreases n,
{
    if n == 0 {
        assert(rules.skip(0) =~= rules);
    } else {
        assert(!rule_matches(rules[0], path));
        let rest = rules.skip(1);
        assert forall|j: int| 0 <= j < n - 1 implies !rule_matches(#[trigger] rest[j], path) by {
            assert(rest[j] == rules[j + 1]);
        }
        lemma_resolve_skip(rest, path, os, home, n - 1);
        assert(rest.skip(n - 1) =~= rules.skip(n));
    }
}

/// Builds one skip mapping for each pattern, or reports the first pattern
/// that is no regular expression.
pub fn skip_mappings(patterns: &Vec<&str>) -> (r: Result<Vec<Mapping>, Error>)
    ensures
        match r {
            Ok(mappings) => all_accepted(texts_of(patterns@)) && rules_of(mappings@) == skip_rules(
                texts_of(patterns@),
            ),
            Err(e) => exists|i: int|
                #![auto]
                rejected_at(texts_of(patterns@), i) && e.is(
                    ErrorKind::RegexCompile,
                    Seq::empty(),
                    texts_of(patterns@)[i],
                ),
        },
{
    let mut out: Vec<Mapping> = Vec::new();
    let mut i: usize = 0;
    while i < patterns.len()
        invariant
            i <= patterns.len(),
            out@.len() == i,
            forall|j: int| 0 <= j < i ==> regex_accepts(#[trigger] texts_of(patterns@)[j]),
            forall|j: int| 0 <= j < i ==> (#[trigger] out@[j])@ == skip_rule(texts_of(patterns@)[j]),
        decreases patterns.len() - i,
    {
        assert(texts_of(patterns@)[i as int] == patterns@[i as int]@);
        match Mapping::skip(patterns[i]) {
            Ok(mapping) => {
                out.push(mapping);
            },
            Err(e) => {
                assert(rejected_at(texts_of(patterns@), i as int));
                return Err(e);
            },
        }
        i = i + 1;
    }
    assert(rules_of(out@) =~= skip_rules(texts_of(patterns@)));
    Ok(out)
}

impl Mapper {
    /// The rules in the order in which they are tried.
    pub closed spec fn rules(&self) -> Seq<Rule> {
        rules_of(self.mappings@)
    }

    /// The system that the rules are evaluated on.
    pub closed spec fn current_os(&self) -> OS {
        self.current_os
    }

    /// The directory that `~` stands for.
    pub closed spec fn home(&self) -> Seq<char> {
        self.home@
    }

    /// The directory that `~` stands for.
    pub fn home_dir(&self) -> (r: &str)
        ensures
            r@ == self.home(),
    {
        self.home.as_str()
    }

    /// The system that the rules are evaluated on.
    pub fn os(&self) -> (r: OS)
        ensures
            r == self.current_os(),
    {
        self.current_os
    }

    /// The built-in rules. They fail to build only if one of the built-in
    /// patterns is no regular expression.
    pub fn defaults() -> (r: Result<Vec<Mapping>, Error>)
        ensures
            match r {
                Ok(mappings) => all_accepted(default_patterns()) && rules_of(mappings@)
                    == default_rules(),
                Err(e) => exists|i: int|
                    #![auto]
                    rejected_at(default_patterns(), i) && e.is(
                        ErrorKind::RegexCompile,
                        Seq::empty(),
                        default_patterns()[i],
                    ),
            },
    {
        let patterns: Vec<&str> = vec![
            "^README.[a-z]+$",
            "^LICENSE$",
            "^\\.gitignore$",
            "^\\.git$",
            "^\\.dfm\\.yml",
        ];
        assert(texts_of(patterns@) =~= default_patterns());
        skip_mappings(&patterns)
    }

    /// The rule list made of `user` followed by `defaults`.
    pub fn with_rules(user: Vec<Mapping>, defaults: Vec<Mapping>, current_os: OS, home: &str) -> (r:
        Mapper)
        ensures
            r.rules() == rules_of(user@) + rules_of(defaults@),
            r.current_os() == current_os,
            r.home() == home@,
    {
        let ghost declared = user@;
        let ghost built_in = defaults@;
        let mut mappings = user;
        let mut rest = defaults;
        mappings.append(&mut rest);
        let mapper = Mapper { mappings, current_os, home: home.to_owned() };
        assert(mapper.rules() =~= rules_of(declared) + rules_of(built_in));
        mapper
    }

    /// The rule list of a profile: the mappings it declares, in their order,
    /// and after them the built-in rules.
    pub fn from(mappings: Option<Vec<Mapping>>, current_os: OS, home: &str) -> (r: Result<
        Mapper,
        Error,
    >)
        ensures
            match r {
                Ok(mapper) => {
                    &&& all_accepted(default_patterns())
                    &&& mapper.rules() == declared_rules(mappings) + default_rules()
                    &&& mapper.current_os() == current_os
                    &&& mapper.home() == home@
                },
                Err(e) => exists|i: int|
                    #![auto]
                    rejected_at(default_patterns(), i) && e.is(
                        ErrorKind::RegexCompile,
                        Seq::empty(),
                        default_patterns()[i],
                    ),
            },
    {
        let configured = match mappings {
            Some(declared) => declared,
            None => Vec::new(),
        };
        match Mapper::defaults() {
            Ok(defaults) => {
                assert(rules_of(Seq::<Mapping>::empty()) =~= Seq::<Rule>::empty());
                Ok(Mapper::with_rules(configured, defaults, current_os, home))
            },
            Err(e) => Err(e),
        }
    }

    /// The outcome of the rules for `relative_path`.
    pub fn get_mapped_action(&self, relative_path: &str) -> (r: MapAction)
        ensures
            r@ == resolve(self.rules(), relative_path@, self.current_os(), self.home()),
    {
        let mut i: usize = 0;
        while i < self.mappings.len()
            invariant
                i <= self.mappings.len(),
                forall|j: int|
                    0 <= j < i ==> !rule_matches(#[trigger] self.rules()[j], relative_path@),
            decreases self.mappings.len() - i,
        {
            let mapping = &self.mappings[i];
            assert(self.rules()[i as int] == mapping@);
            if mapping.does_match(relative_path) {
                proof {
                    lemma_resolve_skip(
                        self.rules(),
                        relative_path@,
                        self.current_os,
                        self.home@,
                        i as int,
                    );
                    assert(self.rules().skip(i as int)[0] == self.rules()[i as int]);
                }
                return MapAction::from(mapping, self.current_os, self.home.as_str());
            }
            i = i + 1;
        }
        proof {
            lemma_resolve_skip(
                self.rules(),
                relative_path@,
                self.current_os,
                self.home@,
                self.rules().len() as int,
            );
        }
        MapAction::Unmapped
    }
}

/// What a profile's declared mappings say; a profile that declares none has
/// no rules of its own.
pub open spec fn declared_rules(mappings: Option<Vec<Mapping>>) -> Seq<Rule> {
    match mappings {
        Some(declared) => rules_of(declared@),
        None => Seq::empty(),
    }
}

/// Of the rules that match a path, the first in the list decides the outcome.
pub proof fn law_first_match_governs(
    rules: Seq<Rule>,
    path: Seq<char>,
    os: OS,
    home: Seq<char>,
    first: int,
)
    requires
        0 <= first < rules.len(),
        rule_matches(rules[first], path),
        forall|j: int| 0 <= j < first ==> !rule_matches(#[trigger] rules[j], path),
    ensures
        resolve(rules, path, os, home) == action_of(rules[first], os, home),
{
    lemma_resolve_skip(rules, path, os, home, first);
    assert(rules.skip(first)[0] == rules[first]);
}

/// A path that no rule matches is linked in the default way.
pub proof fn law_unmatched_is_unmapped(rules: Seq<Rule>, path: Seq<char>, os: OS, home: Seq<char>)
    requires
        !any_matches(rules, path),
    ensures
        resolve(rules, path, os, home) == Action::Unmapped,
{
    lemma_resolve_skip(rules, path, os, home, rules.len() as int);
}

/// In a list made of two parts, the second part is consulted only for paths
/// that no rule of the first part matches.
pub proof fn law_earlier_rules_come_first(
    earlier: Seq<Rule>,
    later: Seq<Rule>,
    path: Seq<char>,
    os: OS,
    home: Seq<char>,
)
    ensures
        resolve(earlier + later, path, os, home) == if any_matches(earlier, path) {
            resolve(earlier, path, os, home)
        } else {
            resolve(later, path, os, home)
        },
    decreases earlier.len(),
{
    let all = earlier + later;
    if earlier.len() == 0 {
        assert(all =~= later);
    } else {
        assert(all[0] == earlier[0]);
        assert(all.skip(1) =~= earlier.skip(1) + later);
        if rule_matches(earlier[0], path) {
        } else {
            law_earlier_rules_come_first(earlier.skip(1), later, path, os, home);
            if any_matches(earlier, path) {
                let i = choose|i: int| 0 <= i < earlier.len() && rule_matches(#[trigger] earlier[i], path);
                assert(earlier.skip(1)[i - 1] == earlier[i]);
            }
            if any_matches(earlier.skip(1), path) {
                let i = choose|i: int|
                    0 <= i < earlier.skip(1).len() && rule_matches(
                        #[trigger] earlier.skip(1)[i],
                        path,
                    );
                assert(earlier[i + 1] == earlier.skip(1)[i]);
            }
        }
    }
}

/// A declared mapping that matches a path takes precedence over every
/// built-in rule, wherever in the declared list it stands.
pub proof fn law_declared_rules_precede_defaults(
    declared: Seq<Rule>,
    path: Seq<char>,
    os: OS,
    home: Seq<char>,
)
    requires
        any_matches(declared, path),
    ensures
        resolve(declared + default_rules(), path, os, home) == resolve(declared, path, os, home),
{
    law_earlier_rules_come_first(declared, default_rules(), path, os, home);
}

/// A rule that only names systems skips the paths it matches on every other
/// system, while a rule that also sets a destination changes nothing there.
pub proof fn law_system_restriction_is_asymmetric(
    pattern: Seq<char>,
    systems: Set<OS>,
    dest: Seq<char>,
    os: OS,
    home: Seq<char>,
)
    requires
        !systems.contains(os),
    ensures
        action_of(
            Rule { platforms: Platforms::Only(systems), ..crate::mapping::plain_rule(pattern) },
            os,
            home,
        ) == Action::Skip,
        action_of(
            Rule {
                platforms: Platforms::Only(systems),
                dest: Some(dest),
                ..crate::mapping::plain_rule(pattern)
            },
            os,
            home,
        ) == Action::Unmapped,
{
}

} // verus!
