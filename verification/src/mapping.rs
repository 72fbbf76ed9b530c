//! The rule engine: an ordered list of mappings decides, for a path relative
//! to a profile's root, whether and where it is linked.

use vstd::prelude::*;
use crate::error::{Error, ErrorKind};
use crate::link::Info;
use crate::paths::{expand_path, join_spec, tilde_spec};
use crate::text::str_eq;

verus! {

/// Whether `regex::Regex::new` accepts `pattern`.
pub uninterp spec fn regex_accepts(pattern: Seq<char>) -> bool;

/// Whether the expression that `regex::Regex::new` builds from `pattern`
/// finds a match anywhere in `haystack` (`regex::Regex::is_match`).
pub uninterp spec fn regex_is_match(pattern: Seq<char>, haystack: Seq<char>) -> bool;

/// Calls `regex::Regex::new` and says whether it returned an expression. The
/// crate compiles with fixed default options, so the answer depends on the
/// pattern alone.
#[verifier::external_body]
fn pattern_compiles(pattern: &str) -> (ok: bool)
    ensures
        ok == regex_accepts(pattern@),
{
    regex::Regex::new(pattern).is_ok()
}

/// Compiles `pattern` with `regex::Regex::new` and calls
/// `regex::Regex::is_match` on `haystack`. Only patterns that compile are
/// admitted; for those the search neither fails nor panics, and its answer
/// depends on the pattern and the haystack alone.
#[verifier::external_body]
fn pattern_is_match(pattern: &str, haystack: &str) -> (found: bool)
    requires
        regex_accepts(pattern@),
    ensures
        found == regex_is_match(pattern@, haystack@),
{
    regex::Regex::new(pattern).expect("pattern was checked when the mapping was built").is_match(
        haystack,
    )
}

/// An operating system that a mapping can be restricted to.
#[derive(Clone, Copy, Debug, PartialEq, Eq, Structural)]
pub enum OS {
    Linux,
    Darwin,
    Windows,
}

/// The system named by `name`, if it names one.
pub open spec fn os_of_name(name: Seq<char>) -> Option<OS> {
    if name == "Linux"@ {
        Some(OS::Linux)
    } else if name == "Darwin"@ {
        Some(OS::Darwin)
    } else if name == "Windows"@ {
        Some(OS::Windows)
    } else {
        None
    }
}

impl OS {
    /// The name of this system as configurations write it.
    pub open spec fn name_spec(self) -> Seq<char> {
        match self {
            OS::Linux => "Linux"@,
            OS::Darwin => "Darwin"@,
            OS::Windows => "Windows"@,
        }
    }

    /// The name of this system as configurations write it.
    pub fn to_string(&self) -> (s: String)
        ensures
            s@ == self.name_spec(),
    {
        match self {
            OS::Linux => "Linux".to_owned(),
            OS::Darwin => "Darwin".to_owned(),
            OS::Windows => "Windows".to_owned(),
        }
    }

    /// Reads a system's name.
    pub fn parse(name: &str) -> (r: Option<OS>)
        ensures
            r == os_of_name(name@),
    {
        if str_eq(name, "Linux") {
            Some(OS::Linux)
        } else if str_eq(name, "Darwin") {
            Some(OS::Darwin)
        } else if str_eq(name, "Windows") {
            Some(OS::Windows)
        } else {
            None
        }
    }
}

/// The systems a mapping applies to, as a set.
pub enum Platforms {
    /// No restriction.
    Every,
    /// Only the systems in the set.
    Only(Set<OS>),
}

impl Platforms {
    /// The mapping applies on `os`.
    pub open spec fn includes(self, os: OS) -> bool {
        match self {
            Platforms::Every => true,
            Platforms::Only(systems) => systems.contains(os),
        }
    }

    /// The mapping names the systems it applies to.
    pub open spec fn is_specific(self) -> bool {
        self is Only
    }
}

/// The systems a mapping is restricted to: none, one, or a list.
#[derive(Clone, Debug, PartialEq, Eq)]
pub enum TargetOS {
    Single(OS),
    List(Vec<OS>),
    All,
}

impl View for TargetOS {
    type V = Platforms;

    open spec fn view(&self) -> Platforms {
        match self {
            TargetOS::All => Platforms::Every,
            TargetOS::Single(os) => Platforms::Only(set![*os]),
            TargetOS::List(systems) => Platforms::Only(systems@.to_set()),
        }
    }
}

fn list_contains(targets: &Vec<OS>, current: OS) -> (r: bool)
    ensures
        r == targets@.to_set().contains(current),
{
    let mut i: usize = 0;
    while i < targets.len()
        invariant
            i <= targets.len(),
            forall|j: int| 0 <= j < i ==> targets@[j] != current,
        decreases targets.len() - i,
    {
        if targets[i] == current {
            assert(targets@[i as int] == current);
            return true;
        }
        i = i + 1;
    }
    false
}

impl TargetOS {
    /// Whether a mapping with this restriction applies on `current`.
    pub fn is_this_os(&self, current: OS) -> (r: bool)
        ensures
            r == self@.includes(current),
    {
        match self {
            TargetOS::All => true,
            TargetOS::Single(desired) => *desired == current,
            TargetOS::List(targets) => list_contains(targets, current),
        }
    }

    /// Whether this restriction names systems and `current` is one of them.
    pub fn is_specifically_this_os(&self, current: OS) -> (r: bool)
        ensures
            r == (self@.is_specific() && self@.includes(current)),
    {
        match self {
            TargetOS::All => false,
            _ => self.is_this_os(current),
        }
    }

    fn copy(&self) -> (r: TargetOS)
        ensures
            r@ == self@,
    {
        match self {
            TargetOS::All => TargetOS::All,
            TargetOS::Single(os) => TargetOS::Single(*os),
            TargetOS::List(systems) => {
                let mut out: Vec<OS> = Vec::new();
                let mut i: usize = 0;
                while i < systems.len()
                    invariant
                        i <= systems.len(),
                        out@ == systems@.take(i as int),
                    decreases systems.len() - i,
                {
                    out.push(systems[i]);
                    assert(systems@.take(i + 1) =~= systems@.take(i as int).push(systems@[i as int]));
                    i = i + 1;
                }
                assert(systems@.take(systems.len() as int) =~= systems@);
                TargetOS::List(out)
            },
        }
    }
}

/// What a mapping says, as plain values.
#[verifier::ext_equal]
pub struct Rule {
    pub pattern: Seq<char>,
    pub skip: Option<bool>,
    pub dest: Option<Seq<char>>,
    pub target_dir: Option<Seq<char>>,
    pub link_as_dir: Option<bool>,
    pub platforms: Platforms,
}

/// The outcome of the rules for one path, as plain values.
pub enum Action {
    NewDest(Seq<char>),
    NewTargetDir(Seq<char>),
    LinkAsDir,
    Skip,
    Unmapped,
}

/// The outcome of the rules for one path.
#[derive(Clone, Debug, PartialEq, Eq)]
pub enum MapAction {
    /// Link at this path, whatever the relative path is.
    NewDest(String),
    /// Link under this directory instead of the home directory.
    NewTargetDir(String),
    /// Link the directory as one unit.
    LinkAsDir,
    /// Do not link.
    Skip,
    /// No rule changes anything: link under the home directory.
    Unmapped,
}

impl View for MapAction {
    type V = Action;

    open spec fn view(&self) -> Action {
        match self {
            MapAction::NewDest(dest) => Action::NewDest(dest@),
            MapAction::NewTargetDir(dir) => Action::NewTargetDir(dir@),
            MapAction::LinkAsDir => Action::LinkAsDir,
            MapAction::Skip => Action::Skip,
            MapAction::Unmapped => Action::Unmapped,
        }
    }
}

/// A mapping as a configuration writes it, before its pattern is checked.
#[derive(Clone, Debug)]
pub struct MappingConfig {
    pub match_str: String,
    pub skip: Option<bool>,
    pub dest: Option<String>,
    pub target_dir: Option<String>,
    pub link_as_dir: Option<bool>,
    pub target_os: Option<Vec<String>>,
}

/// The view of an optional string.
pub open spec fn text_of(value: Option<String>) -> Option<Seq<char>> {
    match value {
        Some(text) => Some(text@),
        None => None,
    }
}

/// The systems that `names` name; a name of no system adds none.
pub open spec fn named_systems(names: Seq<String>) -> Set<OS> {
    Set::new(|os: OS| exists|i: int| 0 <= i < names.len() && os_of_name(#[trigger] names[i]@) == Some(os))
}

impl MappingConfig {
    /// What this configuration says.
    pub open spec fn rule(&self) -> Rule {
        Rule {
            pattern: self.match_str@,
            skip: self.skip,
            dest: text_of(self.dest),
            target_dir: text_of(self.target_dir),
            link_as_dir: self.link_as_dir,
            platforms: match self.target_os {
                Some(names) => Platforms::Only(named_systems(names@)),
                None => Platforms::Every,
            },
        }
    }
}

/// The rule that only has a pattern.
pub open spec fn plain_rule(pattern: Seq<char>) -> Rule {
    Rule {
        pattern,
        skip: None,
        dest: None,
        target_dir: None,
        link_as_dir: None,
        platforms: Platforms::Every,
    }
}

/// The rule that skips what `pattern` matches, on every system.
pub open spec fn skip_rule(pattern: Seq<char>) -> Rule {
    Rule { skip: Some(true), ..plain_rule(pattern) }
}

/// One rule: a pattern over relative paths and what to do with a match.
#[derive(Debug)]
pub struct Mapping {
    term: String,
    link_as_dir: Option<bool>,
    skip: Option<bool>,
    target_os: TargetOS,
    dest: Option<String>,
    target_dir: Option<String>,
}

impl View for Mapping {
    type V = Rule;

    closed spec fn view(&self) -> Rule {
        Rule {
            pattern: self.term@,
            skip: self.skip,
            dest: text_of(self.dest),
            target_dir: text_of(self.target_dir),
            link_as_dir: self.link_as_dir,
            platforms: self.target_os@,
        }
    }
}

fn copy_text(value: &Option<String>) -> (r: Option<String>)
    ensures
        text_of(r) == text_of(*value),
{
    match value {
        Some(text) => Some(text.clone()),
        None => None,
    }
}

fn systems_named(names: &Vec<String>) -> (r: Vec<OS>)
    ensures
        r@.to_set() == named_systems(names@),
{
    let mut out: Vec<OS> = Vec::new();
    let mut i: usize = 0;
    while i < names.len()
        invariant
            i <= names.len(),
            forall|os: OS|
                out@.contains(os) <==> exists|k: int|
                    0 <= k < i && os_of_name(#[trigger] names@[k]@) == Some(os),
        decreases names.len() - i,
    {
        let ghost before = out@;
        match OS::parse(names[i].as_str()) {
            Some(os) => {
                out.push(os);
                assert forall|o: OS|
                    out@.contains(o) <==> exists|k: int|
                        0 <= k < i + 1 && os_of_name(#[trigger] names@[k]@) == Some(o) by {
                    if out@.contains(o) {
                        let j = choose|j: int| 0 <= j < out@.len() && out@[j] == o;
                        if j < before.len() {
                            assert(before[j] == o);
                            assert(before.contains(o));
                        } else {
                            assert(os_of_name(names@[i as int]@) == Some(o));
                        }
                    }
                    if exists|k: int| 0 <= k < i + 1 && os_of_name(#[trigger] names@[k]@) == Some(o) {
                        let k = choose|k: int|
                            0 <= k < i + 1 && os_of_name(#[trigger] names@[k]@) == Some(o);
                        if k < i {
                            assert(before.contains(o));
                            let j = choose|j: int| 0 <= j < before.len() && before[j] == o;
                            assert(out@[j] == o);
                        } else {
                            assert(out@[before.len() as int] == o);
                        }
                    }
                }
            },
            None => {
                assert forall|o: OS|
                    out@.contains(o) <==> exists|k: int|
                        0 <= k < i + 1 && os_of_name(#[trigger] names@[k]@) == Some(o) by {
                    if exists|k: int| 0 <= k < i + 1 && os_of_name(#[trigger] names@[k]@) == Some(o) {
                        let k = choose|k: int|
                            0 <= k < i + 1 && os_of_name(#[trigger] names@[k]@) == Some(o);
                        assert(k < i);
                    }
                }
            },
        }
        i = i + 1;
    }
    assert(out@.to_set() =~= named_systems(names@));
    out
}

impl Mapping {
    #[verifier::type_invariant]
    spec fn pattern_is_accepted(self) -> bool {
        regex_accepts(self.term@)
    }

    /// A mapping that only has a pattern. Fails when `term` is not a regular
    /// expression.
    pub fn new(term: &str) -> (r: Result<Mapping, Error>)
        ensures
            match r {
                Ok(mapping) => regex_accepts(term@) && mapping@ == plain_rule(term@),
                Err(e) => !regex_accepts(term@) && e.is(
                    ErrorKind::RegexCompile,
                    Seq::empty(),
                    term@,
                ),
            },
    {
        if pattern_compiles(term) {
            Ok(
                Mapping {
                    term: term.to_owned(),
                    link_as_dir: None,
                    skip: None,
                    target_os: TargetOS::All,
                    dest: None,
                    target_dir: None,
                },
            )
        } else {
            Err(Error::new(ErrorKind::RegexCompile, term))
        }
    }

    /// A mapping that skips what `term` matches.
    pub fn skip(term: &str) -> (r: Result<Mapping, Error>)
        ensures
            match r {
                Ok(mapping) => regex_accepts(term@) && mapping@ == skip_rule(term@),
                Err(e) => !regex_accepts(term@) && e.is(
                    ErrorKind::RegexCompile,
                    Seq::empty(),
                    term@,
                ),
            },
    {
        match Mapping::new(term) {
            Ok(mapping) => Ok(mapping.with_skip(Some(true))),
            Err(e) => Err(e),
        }
    }

    /// Checks the pattern of `config` and keeps everything else as written.
    pub fn from_config(config: &MappingConfig) -> (r: Result<Mapping, Error>)
        ensures
            match r {
                Ok(mapping) => regex_accepts(config.match_str@) && mapping@ == config.rule(),
                Err(e) => !regex_accepts(config.match_str@) && e.is(
                    ErrorKind::RegexCompile,
                    Seq::empty(),
                    config.match_str@,
                ),
            },
    {
        if !pattern_compiles(config.match_str.as_str()) {
            return Err(Error::new(ErrorKind::RegexCompile, config.match_str.as_str()));
        }
        let target_os = match &config.target_os {
            Some(names) => TargetOS::List(systems_named(names)),
            None => TargetOS::All,
        };
        let mapping = Mapping {
            term: config.match_str.clone(),
            link_as_dir: config.link_as_dir,
            skip: config.skip,
            target_os,
            dest: copy_text(&config.dest),
            target_dir: copy_text(&config.target_dir),
        };
        assert(mapping@ =~= config.rule());
        Ok(mapping)
    }

    /// The same mapping with its skip flag set to `flag`.
    pub fn with_skip(self, flag: Option<bool>) -> (r: Mapping)
        ensures
            r@ == (Rule { skip: flag, ..self@ }),
    {
        proof {
            use_type_invariant(&self);
        }
        let mut mapping = self;
        mapping.skip = flag;
        mapping
    }

    /// The same mapping with its link-as-directory flag set to `flag`.
    pub fn link_as_dir(self, flag: Option<bool>) -> (r: Mapping)
        ensures
            r@ == (Rule { link_as_dir: flag, ..self@ }),
    {
        proof {
            use_type_invariant(&self);
        }
        let mut mapping = self;
        mapping.link_as_dir = flag;
        mapping
    }

    /// The same mapping with `new_dest` as the place to link at.
    pub fn dest(self, new_dest: String) -> (r: Mapping)
        ensures
            r@ == (Rule { dest: Some(new_dest@), ..self@ }),
    {
        proof {
            use_type_invariant(&self);
        }
        let mut mapping = self;
        mapping.dest = Some(new_dest);
        mapping
    }

    /// The same mapping with `dir` as the directory to link under.
    pub fn target_dir(self, dir: String) -> (r: Mapping)
        ensures
            r@ == (Rule { target_dir: Some(dir@), ..self@ }),
    {
        proof {
            use_type_invariant(&self);
        }
        let mut mapping = self;
        mapping.target_dir = Some(dir);
        mapping
    }

    /// The same mapping restricted to `new_target`.
    pub fn target_os(self, new_target: TargetOS) -> (r: Mapping)
        ensures
            r@ == (Rule { platforms: new_target@, ..self@ }),
    {
        proof {
            use_type_invariant(&self);
        }
        let mut mapping = self;
        mapping.target_os = new_target;
        mapping
    }

    /// The pattern, which is a regular expression.
    pub fn term(&self) -> (r: &str)
        ensures
            r@ == self@.pattern,
            regex_accepts(r@),
    {
        proof {
            use_type_invariant(self);
        }
        self.term.as_str()
    }

    /// Whether the pattern finds a match in `path`. The system plays no part
    /// in this test.
    pub fn does_match(&self, path: &str) -> (r: bool)
        ensures
            r == regex_is_match(self@.pattern, path@),
    {
        proof {
            use_type_invariant(self);
        }
        pattern_is_match(self.term.as_str(), path)
    }

    /// Whether the pattern finds a match in `path`.
    pub fn matches(&self, path: &str) -> (r: bool)
        ensures
            r == regex_is_match(self@.pattern, path@),
    {
        self.does_match(path)
    }

}

/// Where a link whose source has relative path `relative` points from once
/// `action` is applied to it, given where it pointed from before; `None`
/// when the action drops the link.
pub open spec fn changed_dst(action: Action, relative: Seq<char>, dst: Seq<char>) -> Option<
    Seq<char>,
> {
    match action {
        Action::Skip => None,
        Action::NewDest(dest) => Some(dest),
        Action::NewTargetDir(dir) => Some(join_spec(dir, relative)),
        Action::LinkAsDir => Some(dst),
        Action::Unmapped => Some(dst),
    }
}

impl Mapping {
    /// Applies this mapping to a link whose source it matched: the link is
    /// dropped where the mapping skips, moved where it sets a destination or
    /// a target directory, and kept as it is otherwise. The changed link is
    /// left in `info` and handed back.
    pub fn change(&self, info: &mut Info, current: OS, home: &str) -> (r: Option<Info>)
        requires
            old(info).inside_profile(),
        ensures
            final(info).src == old(info).src,
            final(info).profile_dir == old(info).profile_dir,
            final(info).overwrite == old(info).overwrite,
            match changed_dst(
                action_of(self@, current, home@),
                old(info).relative(),
                old(info).dst@,
            ) {
                Some(dst) => final(info).dst@ == dst && r == Some(*final(info)),
                None => *final(info) == *old(info) && r is None,
            },
    {
        match MapAction::from(self, current, home) {
            MapAction::Skip => {
                return None;
            },
            MapAction::NewDest(dest) => {
                info.dst = dest;
            },
            MapAction::NewTargetDir(dir) => {
                info.retarget(dir.as_str());
            },
            _ => {},
        }
        Some(info.clone())
    }
}

impl Clone for Mapping {
    fn clone(&self) -> (r: Mapping)
        ensures
            r@ == self@,
    {
        proof {
            use_type_invariant(self);
        }
        let mapping = Mapping {
            term: self.term.clone(),
            link_as_dir: self.link_as_dir,
            skip: self.skip,
            target_os: self.target_os.copy(),
            dest: copy_text(&self.dest),
            target_dir: copy_text(&self.target_dir),
        };
        assert(mapping@ =~= self@);
        mapping
    }
}

/// What a matched rule asks for on system `os`, with `home` for `~`. The
/// fields are tried in a fixed order and the first that is set decides: a
/// rule that is set to skip, to a destination, to a target directory or to
/// link as a directory does so where it applies on `os` and changes nothing
/// where it does not; a rule with none of these that names systems skips on
/// every other system.
pub open spec fn action_of(rule: Rule, os: OS, home: Seq<char>) -> Action {
    if rule.skip == Some(true) {
        where_applicable(rule, os, Action::Skip)
    } else if rule.dest is Some {
        where_applicable(rule, os, Action::NewDest(tilde_spec(rule.dest->0, home)))
    } else if rule.target_dir is Some {
        where_applicable(rule, os, Action::NewTargetDir(tilde_spec(rule.target_dir->0, home)))
    } else if rule.link_as_dir == Some(true) {
        where_applicable(rule, os, Action::LinkAsDir)
    } else if rule.platforms.is_specific() && !rule.platforms.includes(os) {
        Action::Skip
    } else {
        Action::Unmapped
    }
}

/// The action where the rule applies on `os`, and no change where it does
/// not.
pub open spec fn where_applicable(rule: Rule, os: OS, action: Action) -> Action {
    if rule.platforms.includes(os) {
        action
    } else {
        Action::Unmapped
    }
}

fn check_if_skip_action(mapping: &Mapping, current: OS) -> (r: Option<MapAction>)
    ensures
        match r {
            Some(action) => mapping@.skip == Some(true) && action@ == where_applicable(
                mapping@,
                current,
                Action::Skip,
            ),
            None => mapping@.skip != Some(true),
        },
{
    match mapping.skip {
        Some(true) => {
            if mapping.target_os.is_this_os(current) {
                Some(MapAction::Skip)
            } else {
                Some(MapAction::Unmapped)
            }
        },
        _ => None,
    }
}

fn check_if_dest_action(mapping: &Mapping, current: OS, home: &str) -> (r: Option<MapAction>)
    ensures
        match r {
            Some(action) => mapping@.dest is Some && action@ == where_applicable(
                mapping@,
                current,
                Action::NewDest(tilde_spec(mapping@.dest->0, home@)),
            ),
            None => mapping@.dest is None,
        },
{
    match &mapping.dest {
        Some(dest) => {
            if mapping.target_os.is_this_os(current) {
                Some(MapAction::NewDest(expand_path(dest.as_str(), home)))
            } else {
                Some(MapAction::Unmapped)
            }
        },
        None => None,
    }
}

fn check_if_target_dir_action(mapping: &Mapping, current: OS, home: &str) -> (r: Option<MapAction>)
    ensures
        match r {
            Some(action) => mapping@.target_dir is Some && action@ == where_applicable(
                mapping@,
                current,
                Action::NewTargetDir(tilde_spec(mapping@.target_dir->0, home@)),
            ),
            None => mapping@.target_dir is None,
        },
{
    match &mapping.target_dir {
        Some(target_dir) => {
            if mapping.target_os.is_this_os(current) {
                Some(MapAction::NewTargetDir(expand_path(target_dir.as_str(), home)))
            } else {
                Some(MapAction::Unmapped)
            }
        },
        None => None,
    }
}

fn check_if_link_as_dir_action(mapping: &Mapping, current: OS) -> (r: Option<MapAction>)
    ensures
        match r {
            Some(action) => mapping@.link_as_dir == Some(true) && action@ == where_applicable(
                mapping@,
                current,
                Action::LinkAsDir,
            ),
            None => mapping@.link_as_dir != Some(true),
        },
{
    match mapping.link_as_dir {
        Some(true) => {
            if mapping.target_os.is_this_os(current) {
                Some(MapAction::LinkAsDir)
            } else {
                Some(MapAction::Unmapped)
            }
        },
        _ => None,
    }
}

fn check_if_link_on_target_os_action(mapping: &Mapping, current: OS) -> (r: Option<MapAction>)
    ensures
        match r {
            Some(action) => mapping@.platforms.is_specific() && !mapping@.platforms.includes(
                current,
            ) && action@ == Action::Skip,
            None => !mapping@.platforms.is_specific() || mapping@.platforms.includes(current),
        },
{
    if mapping.target_os.is_specifically_this_os(current) {
        return None;
    }
    match mapping.target_os {
        TargetOS::All => None,
        _ => Some(MapAction::Skip),
    }
}

impl MapAction {
    /// What `mapping` asks for once it has matched, on system `current`
    /// and with `home` for `~`.
    pub fn from(mapping: &Mapping, current: OS, home: &str) -> (r: MapAction)
        ensures
            r@ == action_of(mapping@, current, home@),
    {
        if let Some(action) = check_if_skip_action(mapping, current) {
            return action;
        }
        if let Some(action) = check_if_dest_action(mapping, current, home) {
            return action;
        }
        if let Some(action) = check_if_target_dir_action(mapping, current, home) {
            return action;
        }
        if let Some(action) = check_if_link_as_dir_action(mapping, current) {
            return action;
        }
        // Must come last
        if let Some(action) = check_if_link_on_target_os_action(mapping, current) {
            return action;
        }
        MapAction::Unmapped
    }

    /// The text shown for this action.
    pub open spec fn describe_spec(&self) -> Seq<char> {
        match self {
            MapAction::NewDest(value) => "MapAction::NewDest("@ + value@ + ")"@,
            MapAction::NewTargetDir(value) => "MapAction::NewTargetDir("@ + value@ + ")"@,
            MapAction::LinkAsDir => "MapAction::LinkAsDir"@,
            MapAction::Skip => "MapAction::Skip"@,
            MapAction::Unmapped => "MapAction::None"@,
        }
    }

    /// The text shown for this action.
    pub fn to_string(&self) -> (s: String)
        ensures
            s@ == self.describe_spec(),
    {
        match self {
            MapAction::NewDest(value) => {
                let mut out = "MapAction::NewDest(".to_owned();
                out.append(value.as_str());
                out.append(")");
                out
            },
            MapAction::NewTargetDir(value) => {
                let mut out = "MapAction::NewTargetDir(".to_owned();
                out.append(value.as_str());
                out.append(")");
                out
            },
            MapAction::LinkAsDir => "MapAction::LinkAsDir".to_owned(),
            MapAction::Skip => "MapAction::Skip".to_owned(),
            MapAction::Unmapped => "MapAction::None".to_owned(),
        }
    }
}

} // verus!
