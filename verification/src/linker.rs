//! The link pass over a profile's directory tree: for every entry that the
//! walk meets, whether the entry is linked, where, and whether the walk goes
//! on below it.

use vstd::prelude::*;
use crate::mapper::{resolve, Mapper};
use crate::mapping::{Action, MapAction, Rule, OS};
use crate::paths::{file_name, file_name_spec, join, join_spec};
use crate::text::{char_len, head, str_eq};

verus! {

/// The files of git and of this tool, which are never linked.
pub open spec fn is_system_name(name: Seq<char>) -> bool {
    name == ".dfm.yml"@ || name == ".git"@
}

/// What the rules are evaluated with.
pub struct Context {
    pub rules: Seq<Rule>,
    pub os: OS,
    pub home: Seq<char>,
}

/// What happens at one entry of the walk, as plain values.
pub enum Decision {
    /// A system file or directory: not linked, and nothing below it is visited.
    Ignore,
    /// A directory that is not linked itself: the walk goes on below it.
    Descend,
    /// A file that a rule skips.
    Skip,
    /// The entry is linked at `target`; with `prune`, nothing below it is
    /// visited.
    Link { target: Seq<char>, prune: bool },
}

/// What happens at one entry of the walk.
#[derive(Clone, Debug, PartialEq, Eq)]
pub enum Visit {
    /// A system file or directory: not linked, and nothing below it is visited.
    Ignore,
    /// A directory that is not linked itself: the walk goes on below it.
    Descend,
    /// A file that a rule skips.
    Skip,
    /// The entry is linked at `target`; with `prune`, nothing below it is
    /// visited.
    Link { target: String, prune: bool },
}

impl View for Visit {
    type V = Decision;

    open spec fn view(&self) -> Decision {
        match self {
            Visit::Ignore => Decision::Ignore,
            Visit::Descend => Decision::Descend,
            Visit::Skip => Decision::Skip,
            Visit::Link { target, prune } => Decision::Link { target: target@, prune: *prune },
        }
    }
}

/// Where an entry with relative path `path` is linked under `action`, if it
/// is linked: below the home directory by default and for a directory linked
/// as a unit, at the new destination whatever the path is, or below the new
/// target directory.
pub open spec fn target_of(action: Action, path: Seq<char>, home: Seq<char>) -> Option<Seq<char>> {
    match action {
        Action::Skip => None,
        Action::Unmapped => Some(join_spec(home, path)),
        Action::LinkAsDir => Some(join_spec(home, path)),
        Action::NewDest(dest) => Some(dest),
        Action::NewTargetDir(dir) => Some(join_spec(dir, path)),
    }
}

/// The decision for the entry at relative path `path`. System files are
/// ignored before any rule is consulted. A directory is linked only when its
/// rule says to link it as a unit, and then nothing below it is visited;
/// under any other outcome, a skip included, the walk goes on below it. A
/// file is linked unless its rule skips it.
pub open spec fn decide(ctx: Context, path: Seq<char>, is_dir: bool) -> Decision {
    if is_system_name(file_name_spec(path)) {
        Decision::Ignore
    } else {
        let action = resolve(ctx.rules, path, ctx.os, ctx.home);
        if is_dir && action != Action::LinkAsDir {
            Decision::Descend
        } else {
            match target_of(action, path, ctx.home) {
                Some(target) => Decision::Link { target, prune: is_dir },
                None => Decision::Skip,
            }
        }
    }
}

/// The directory `path.take(k)` is an ancestor of the entry at `path`.
pub open spec fn ancestor_at(path: Seq<char>, k: int) -> bool {
    0 < k < path.len() && path[k] == '/'
}

/// Nothing below the directory at `dir` is visited.
pub open spec fn prunes(ctx: Context, dir: Seq<char>) -> bool {
    match decide(ctx, dir, true) {
        Decision::Ignore => true,
        Decision::Link { target, prune } => prune,
        _ => false,
    }
}

/// The walk reaches the entry at `path`: none of its ancestors is pruned.
pub open spec fn reached(ctx: Context, path: Seq<char>) -> bool {
    forall|k: int| ancestor_at(path, k) ==> !prunes(ctx, #[trigger] path.take(k))
}

/// An entry of a profile's tree: its path relative to the profile's root.
#[derive(Clone, Debug, PartialEq, Eq)]
pub struct Entry {
    pub path: String,
    pub is_dir: bool,
}

/// A link to make: `target` is to point at `source`.
#[derive(Clone, Debug, PartialEq, Eq)]
pub struct Link {
    pub source: String,
    pub target: String,
}

/// A link to make, as plain values.
pub struct LinkView {
    pub source: Seq<char>,
    pub target: Seq<char>,
}

impl View for Link {
    type V = LinkView;

    open spec fn view(&self) -> LinkView {
        LinkView { source: self.source@, target: self.target@ }
    }
}

/// The link made for the entry at `path`, if one is made: the entry has to
/// be reached and its decision has to be a link.
pub open spec fn planned(ctx: Context, root: Seq<char>, path: Seq<char>, is_dir: bool) -> Option<
    LinkView,
> {
    if reached(ctx, path) {
        match decide(ctx, path, is_dir) {
            Decision::Link { target, prune } => Some(
                LinkView { source: join_spec(root, path), target },
            ),
            _ => None,
        }
    } else {
        None
    }
}

/// The links made for a listing of entries, in the order of the listing.
pub open spec fn plan_spec(ctx: Context, root: Seq<char>, entries: Seq<Entry>) -> Seq<LinkView>
    decreases entries.len(),
{
    if entries.len() == 0 {
        Seq::empty()
    } else {
        let before = plan_spec(ctx, root, entries.drop_last());
        match planned(ctx, root, entries.last().path@, entries.last().is_dir) {
            Some(link) => before.push(link),
            None => before,
        }
    }
}

/// The views of `links`, in order.
pub open spec fn links_of(links: Seq<Link>) -> Seq<LinkView> {
    Seq::new(links.len(), |i: int| links[i]@)
}

/// Whether `entry` is a candidate for linking: the files of git and of this
/// tool are not.
pub fn is_dotfile(filename: &str) -> (r: bool)
    ensures
        r == !is_system_name(filename@),
{
    let is_sys_file = str_eq(filename, ".dfm.yml") || str_eq(filename, ".git");
    !is_sys_file
}

/// The link pass of one profile rooted at `root`.
pub struct Linker<'a> {
    pub mapper: &'a Mapper,
    pub root: &'a str,
}

impl<'a> Linker<'a> {
    /// What the rules are evaluated with.
    pub open spec fn context(&self) -> Context {
        Context {
            rules: self.mapper.rules(),
            os: self.mapper.current_os(),
            home: self.mapper.home(),
        }
    }

    /// The decision for the entry at `relative_path`, as the walk meets it.
    pub fn visit(&self, relative_path: &str, is_dir: bool) -> (r: Visit)
        ensures
            r@ == decide(self.context(), relative_path@, is_dir),
    {
        let name = file_name(relative_path);
        if !is_dotfile(name.as_str()) {
            return Visit::Ignore;
        }
        let home = self.mapper.home_dir();
        let action = self.mapper.get_mapped_action(relative_path);
        match action {
            MapAction::LinkAsDir => Visit::Link { target: join(home, relative_path), prune: is_dir },
            MapAction::Skip => {
                if is_dir {
                    Visit::Descend
                } else {
                    Visit::Skip
                }
            },
            MapAction::NewDest(dest) => {
                if is_dir {
                    Visit::Descend
                } else {
                    Visit::Link { target: dest, prune: false }
                }
            },
            MapAction::Unmapped => {
                if is_dir {
                    Visit::Descend
                } else {
                    Visit::Link { target: join(home, relative_path), prune: false }
                }
            },
            MapAction::NewTargetDir(target_dir) => {
                if is_dir {
                    Visit::Descend
                } else {
                    Visit::Link { target: join(target_dir.as_str(), relative_path), prune: false }
                }
            },
        }
    }

    /// Whether the walk reaches the entry at `relative_path`.
    pub fn reaches(&self, relative_path: &str) -> (r: bool)
        ensures
            r == reached(self.context(), relative_path@),
    {
        let n: usize = char_len(relative_path);
        let mut k: usize = 1;
        while k < n
            invariant
                1 <= k,
                n == relative_path@.len(),
                forall|j: int|
                    ancestor_at(relative_path@, j) && j < k ==> !prunes(
                        self.context(),
                        #[trigger] relative_path@.take(j),
                    ),
            decreases n - k,
        {
            if relative_path.get_char(k) == '/' {
                let dir = head(relative_path, k);
                let pruned = match self.visit(dir.as_str(), true) {
                    Visit::Ignore => true,
                    Visit::Link { target, prune } => prune,
                    _ => false,
                };
                if pruned {
                    assert(ancestor_at(relative_path@, k as int));
                    return false;
                }
            }
            k = k + 1;
        }
        true
    }

    /// The links to make for a listing of the profile's tree, in the order of
    /// the listing. Entries below a pruned directory make none, whether or
    /// not the listing holds them.
    pub fn plan(&self, entries: &Vec<Entry>) -> (links: Vec<Link>)
        ensures
            links_of(links@) == plan_spec(self.context(), self.root@, entries@),
    {
        let mut links: Vec<Link> = Vec::new();
        let mut i: usize = 0;
        while i < entries.len()
            invariant
                i <= entries.len(),
                links_of(links@) == plan_spec(self.context(), self.root@, entries@.take(i as int)),
            decreases entries.len() - i,
        {
            let entry = &entries[i];
            let ghost before = links@;
            proof {
                assert(entries@.take(i + 1).drop_last() =~= entries@.take(i as int));
                assert(entries@.take(i + 1).last() == entries@[i as int]);
            }
            if self.reaches(entry.path.as_str()) {
                match self.visit(entry.path.as_str(), entry.is_dir) {
                    Visit::Link { target, prune } => {
                        links.push(Link { source: join(self.root, entry.path.as_str()), target });
                        assert(links_of(links@) =~= links_of(before).push(links@.last()@));
                    },
                    _ => {},
                }
            }
            i = i + 1;
        }
        assert(entries@.take(entries.len() as int) =~= entries@);
        links
    }
}

/// A file that no rule matches is linked at exactly the home directory
/// joined with its path, wherever the walk reaches it: that is, unless it is
/// a system file or lies below a directory that is pruned, which are never
/// linked.
pub proof fn law_unmatched_links_under_home(ctx: Context, root: Seq<char>, path: Seq<char>)
    requires
        !crate::mapper::any_matches(ctx.rules, path),
    ensures
        target_of(resolve(ctx.rules, path, ctx.os, ctx.home), path, ctx.home) == Some(
            join_spec(ctx.home, path),
        ),
        !is_system_name(file_name_spec(path)) ==> decide(ctx, path, false) == (Decision::Link {
            target: join_spec(ctx.home, path),
            prune: false,
        }),
        !is_system_name(file_name_spec(path)) && reached(ctx, path) ==> planned(
            ctx,
            root,
            path,
            false,
        ) == Some(LinkView { source: join_spec(root, path), target: join_spec(ctx.home, path) }),
        is_system_name(file_name_spec(path)) || !reached(ctx, path) ==> planned(
            ctx,
            root,
            path,
            false,
        ) is None,
{
    crate::mapper::law_unmatched_is_unmapped(ctx.rules, path, ctx.os, ctx.home);
}

/// A directory that a rule skips is not linked, but the walk goes on below
/// it: the skip alone keeps no entry below it from being reached, and each
/// of them gets the decision of its own rule.
pub proof fn law_skip_does_not_prune(ctx: Context, dir: Seq<char>)
    requires
        !is_system_name(file_name_spec(dir)),
        resolve(ctx.rules, dir, ctx.os, ctx.home) == Action::Skip,
    ensures
        decide(ctx, dir, true) == Decision::Descend,
        !prunes(ctx, dir),
{
}

/// An entry all of whose ancestors are skipped or left to the default is
/// reached, and is planned according to its own decision.
pub proof fn law_children_of_skipped_are_evaluated(
    ctx: Context,
    root: Seq<char>,
    path: Seq<char>,
    is_dir: bool,
)
    requires
        forall|k: int|
            ancestor_at(path, k) ==> !is_system_name(file_name_spec(#[trigger] path.take(k))) && (
            resolve(ctx.rules, path.take(k), ctx.os, ctx.home) == Action::Skip || resolve(
                ctx.rules,
                path.take(k),
                ctx.os,
                ctx.home,
            ) == Action::Unmapped),
    ensures
        reached(ctx, path),
        planned(ctx, root, path, is_dir) == match decide(ctx, path, is_dir) {
            Decision::Link { target, prune } => Some(
                LinkView { source: join_spec(root, path), target },
            ),
            _ => None,
        },
{
}

/// A directory that is linked as a unit gets one link, below the home
/// directory, and no entry below it gets any.
pub proof fn law_link_as_dir_prunes(
    ctx: Context,
    root: Seq<char>,
    dir: Seq<char>,
    below: Seq<char>,
    is_dir: bool,
    k: int,
)
    requires
        !is_system_name(file_name_spec(dir)),
        resolve(ctx.rules, dir, ctx.os, ctx.home) == Action::LinkAsDir,
        ancestor_at(below, k),
        below.take(k) == dir,
    ensures
        decide(ctx, dir, true) == (Decision::Link { target: join_spec(ctx.home, dir), prune: true }),
        !reached(ctx, below),
        planned(ctx, root, below, is_dir) is None,
{
}

/// Every link of a plan comes from an entry of the listing that is reached
/// and whose decision is a link.
pub proof fn law_plan_holds_only_planned(ctx: Context, root: Seq<char>, entries: Seq<Entry>, i: int)
    requires
        0 <= i < plan_spec(ctx, root, entries).len(),
    ensures
        exists|j: int|
            0 <= j < entries.len() && planned(
                ctx,
                root,
                (#[trigger] entries[j]).path@,
                entries[j].is_dir,
            ) == Some(plan_spec(ctx, root, entries)[i]),
    decreases entries.len(),
{
    if entries.len() > 0 {
        let before = plan_spec(ctx, root, entries.drop_last());
        let last = entries.last();
        if i < before.len() {
            law_plan_holds_only_planned(ctx, root, entries.drop_last(), i);
            let j = choose|j: int|
                0 <= j < entries.drop_last().len() && planned(
                    ctx,
                    root,
                    (#[trigger] entries.drop_last()[j]).path@,
                    entries.drop_last()[j].is_dir,
                ) == Some(before[i]);
            assert(entries[j] == entries.drop_last()[j]);
        } else {
            assert(planned(ctx, root, entries[entries.len() - 1].path@, entries[entries.len() - 1].is_dir)
                == Some(plan_spec(ctx, root, entries)[i]));
        }
    }
}

} // verus!
