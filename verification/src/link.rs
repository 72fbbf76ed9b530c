//! One link from a place under the target directory to a file of a profile,
//! and what to do with whatever already occupies that place.

use vstd::prelude::*;
use crate::error::{Error, ErrorKind};
use crate::paths::{join, join_spec, parent, parent_spec, relative_to, relative_to_spec};
use crate::text::{char_len, joined};

verus! {

/// What was found at the place where a link is to be made.
#[derive(Clone, Copy, Debug, PartialEq, Eq, Structural)]
pub enum TargetState {
    /// Nothing is there.
    Missing,
    /// A symlink is there.
    Symlink,
    /// A file that is no symlink is there.
    File,
    /// A directory that is no symlink is there.
    Directory,
    /// Permission to look was denied.
    Denied,
}

/// What to do at the place where a link is to be made.
#[derive(Clone, Copy, Debug, PartialEq, Eq, Structural)]
pub enum LinkStep {
    /// Make the link; missing parent directories are made first.
    Create,
    /// Remove what is there, then make the link.
    Replace,
    /// Remove the directory that is there with all it holds, then make the link.
    ReplaceTree,
    /// Leave what is there, report it and go on with the next entry.
    Conflict,
}

/// The conflict policy: a symlink is always replaced; a file or directory is
/// replaced only when overwriting is allowed and is a conflict otherwise; a
/// place that may not be examined has no step.
pub open spec fn link_step(state: TargetState, overwrite: bool) -> Option<LinkStep> {
    match state {
        TargetState::Missing => Some(LinkStep::Create),
        TargetState::Symlink => Some(LinkStep::Replace),
        TargetState::File => Some(
            if overwrite {
                LinkStep::Replace
            } else {
                LinkStep::Conflict
            },
        ),
        TargetState::Directory => Some(
            if overwrite {
                LinkStep::ReplaceTree
            } else {
                LinkStep::Conflict
            },
        ),
        TargetState::Denied => None,
    }
}

/// What is at the place once `step` has been carried out.
pub open spec fn state_after(state: TargetState, step: LinkStep) -> TargetState {
    match step {
        LinkStep::Conflict => state,
        _ => TargetState::Symlink,
    }
}

/// One change to the file system.
#[derive(Clone, Debug, PartialEq, Eq)]
pub enum FsOp {
    /// Remove the file or symlink at this path.
    RemoveFile(String),
    /// Remove the directory at this path with all it holds.
    RemoveTree(String),
    /// Make the directory at this path, and those above it, where missing.
    MakeDirs(String),
    /// Make a symlink at `target` that points at `source`.
    Symlink { source: String, target: String },
}

/// One change to the file system, as plain values.
pub enum Change {
    RemoveFile(Seq<char>),
    RemoveTree(Seq<char>),
    MakeDirs(Seq<char>),
    Symlink { source: Seq<char>, target: Seq<char> },
}

impl View for FsOp {
    type V = Change;

    open spec fn view(&self) -> Change {
        match self {
            FsOp::RemoveFile(path) => Change::RemoveFile(path@),
            FsOp::RemoveTree(path) => Change::RemoveTree(path@),
            FsOp::MakeDirs(path) => Change::MakeDirs(path@),
            FsOp::Symlink { source, target } => Change::Symlink {
                source: source@,
                target: target@,
            },
        }
    }
}

/// The views of `ops`, in order.
pub open spec fn changes_of(ops: Seq<FsOp>) -> Seq<Change> {
    Seq::new(ops.len(), |i: int| ops[i]@)
}

/// The directories to make before a link is made at `dst`: the one that
/// holds `dst`, where `dst` names one.
pub open spec fn parents_of(dst: Seq<char>) -> Seq<Change> {
    match parent_spec(dst) {
        Some(dir) => if dir.len() > 0 {
            seq![Change::MakeDirs(dir)]
        } else {
            Seq::empty()
        },
        None => Seq::empty(),
    }
}

/// What is removed at `dst` before the link is made.
pub open spec fn removal_of(step: LinkStep, dst: Seq<char>) -> Seq<Change> {
    match step {
        LinkStep::Replace => seq![Change::RemoveFile(dst)],
        LinkStep::ReplaceTree => seq![Change::RemoveTree(dst)],
        _ => Seq::empty(),
    }
}

/// The changes that carry out `step` for the link from `dst` to `src`, in
/// order: none for a conflict; otherwise what is in the way is removed, the
/// directories above `dst` are made, and the symlink is made at `dst`,
/// pointing at `src`.
pub open spec fn link_changes(step: LinkStep, src: Seq<char>, dst: Seq<char>) -> Seq<Change> {
    if step == LinkStep::Conflict {
        Seq::empty()
    } else {
        removal_of(step, dst) + parents_of(dst) + seq![Change::Symlink { source: src, target: dst }]
    }
}

impl LinkStep {
    /// What is at the place once this step has been carried out there.
    pub fn leaves(&self, found: TargetState) -> (r: TargetState)
        ensures
            r == state_after(found, *self),
    {
        match self {
            LinkStep::Conflict => found,
            _ => TargetState::Symlink,
        }
    }
}

/// A link to make: `dst` is to point at `src`, a file below `profile_dir`.
#[derive(Debug, PartialEq, Eq)]
pub struct Info {
    pub src: String,
    pub dst: String,
    pub overwrite: bool,
    pub profile_dir: String,
}

impl Info {
    /// The source lies at or below the profile directory.
    pub open spec fn inside_profile(&self) -> bool {
        relative_to_spec(self.src@, self.profile_dir@) is Some
    }

    /// The path of the source relative to the profile directory.
    pub open spec fn relative(&self) -> Seq<char> {
        relative_to_spec(self.src@, self.profile_dir@)->0
    }

    /// The link for `src` with its path below `profile_dir` kept below
    /// `target_dir`. It does not overwrite.
    pub fn new(src: &str, profile_dir: &str, target_dir: &str) -> (info: Info)
        requires
            relative_to_spec(src@, profile_dir@) is Some,
        ensures
            info.src@ == src@,
            info.profile_dir@ == profile_dir@,
            info.overwrite == false,
            info.dst@ == join_spec(target_dir@, relative_to_spec(src@, profile_dir@)->0),
    {
        let mut info = Info {
            src: src.to_owned(),
            profile_dir: profile_dir.to_owned(),
            // replaced by retarget below
            dst: src.to_owned(),
            overwrite: false,
        };
        info.retarget(target_dir);
        info
    }

    /// Moves the destination below `target_dir`, keeping the path relative to
    /// the profile directory.
    pub fn retarget(&mut self, target_dir: &str)
        requires
            old(self).inside_profile(),
        ensures
            final(self).dst@ == join_spec(target_dir@, old(self).relative()),
            final(self).src == old(self).src,
            final(self).profile_dir == old(self).profile_dir,
            final(self).overwrite == old(self).overwrite,
    {
        match relative_to(self.src.as_str(), self.profile_dir.as_str()) {
            Some(filename) => {
                self.dst = join(target_dir, filename.as_str());
            },
            None => {},
        }
    }

    /// What is said of a destination that is in the way.
    pub open spec fn conflict_message(&self) -> Seq<char> {
        self.dst@ + ": file exists and is not a symlink, cowardly refusing to remove."@
    }

    /// The report of a conflict at the destination. It stops nothing: the
    /// link is left out and the pass goes on.
    pub fn conflict(&self) -> (e: Error)
        ensures
            e.is(ErrorKind::FilesystemConflict, self.profile_dir@, self.conflict_message()),
    {
        let message = joined(
            self.dst.as_str(),
            ": file exists and is not a symlink, cowardly refusing to remove.",
        );
        Error::new(ErrorKind::FilesystemConflict, message.as_str()).at(self.profile_dir.as_str())
    }

    /// The changes to the file system that carry out `step` for this link.
    pub fn operations(&self, step: LinkStep) -> (ops: Vec<FsOp>)
        ensures
            changes_of(ops@) == link_changes(step, self.src@, self.dst@),
    {
        let mut ops: Vec<FsOp> = Vec::new();
        match step {
            LinkStep::Conflict => {
                assert(changes_of(ops@) =~= link_changes(step, self.src@, self.dst@));
                return ops;
            },
            LinkStep::Replace => {
                ops.push(FsOp::RemoveFile(self.dst.clone()));
            },
            LinkStep::ReplaceTree => {
                ops.push(FsOp::RemoveTree(self.dst.clone()));
            },
            LinkStep::Create => {},
        }
        assert(changes_of(ops@) =~= removal_of(step, self.dst@));
        match parent(self.dst.as_str()) {
            Some(dir) => {
                if char_len(dir.as_str()) > 0 {
                    ops.push(FsOp::MakeDirs(dir));
                }
            },
            None => {},
        }
        assert(changes_of(ops@) =~= removal_of(step, self.dst@) + parents_of(self.dst@));
        ops.push(FsOp::Symlink { source: self.src.clone(), target: self.dst.clone() });
        assert(changes_of(ops@) =~= link_changes(step, self.src@, self.dst@));
        ops
    }

    /// What to do at the destination, given what was found there. Only a
    /// place that may not be examined is an error.
    pub fn link(&self, found: TargetState) -> (r: Result<LinkStep, Error>)
        ensures
            match r {
                Ok(step) => link_step(found, self.overwrite) == Some(step),
                Err(e) => found == TargetState::Denied && e.is(
                    ErrorKind::PermissionDenied,
                    self.profile_dir@,
                    self.dst@,
                ),
            },
    {
        match remove_if_able(found, self.overwrite) {
            Some(step) => Ok(step),
            None => Err(
                Error::new(ErrorKind::PermissionDenied, self.dst.as_str()).at(
                    self.profile_dir.as_str(),
                ),
            ),
        }
    }
}

impl Clone for Info {
    fn clone(&self) -> (r: Info)
        ensures
            r == *self,
    {
        Info {
            src: self.src.clone(),
            dst: self.dst.clone(),
            overwrite: self.overwrite,
            profile_dir: self.profile_dir.clone(),
        }
    }
}

/// The conflict policy for one destination.
pub fn remove_if_able(found: TargetState, force_remove: bool) -> (r: Option<LinkStep>)
    ensures
        r == link_step(found, force_remove),
{
    match found {
        TargetState::Missing => Some(LinkStep::Create),
        TargetState::Symlink => Some(LinkStep::Replace),
        TargetState::File => {
            if force_remove {
                Some(LinkStep::Replace)
            } else {
                Some(LinkStep::Conflict)
            }
        },
        TargetState::Directory => {
            if force_remove {
                Some(LinkStep::ReplaceTree)
            } else {
                Some(LinkStep::Conflict)
            }
        },
        TargetState::Denied => None,
    }
}

/// What is found at `target` among `places`; a place that is not recorded
/// holds nothing.
pub open spec fn found_in(places: Map<Seq<char>, TargetState>, target: Seq<char>) -> TargetState {
    if places.contains_key(target) {
        places[target]
    } else {
        TargetState::Missing
    }
}

/// What the places hold once a link was made at each of `targets`, in
/// order, each according to the conflict policy; `None` when one of the
/// places could not be examined, which ends the pass with an error.
pub open spec fn link_all(
    places: Map<Seq<char>, TargetState>,
    targets: Seq<Seq<char>>,
    overwrite: bool,
) -> Option<Map<Seq<char>, TargetState>>
    decreases targets.len(),
{
    if targets.len() == 0 {
        Some(places)
    } else {
        match link_all(places, targets.drop_last(), overwrite) {
            Some(before) => {
                let found = found_in(before, targets.last());
                match link_step(found, overwrite) {
                    Some(step) => Some(before.insert(targets.last(), state_after(found, step))),
                    None => None,
                }
            },
            None => None,
        }
    }
}

/// No place of `places` is closed to examination.
pub open spec fn all_readable(places: Map<Seq<char>, TargetState>) -> bool {
    forall|target: Seq<char>| found_in(places, target) != TargetState::Denied
}

proof fn lemma_first_pass(places: Map<Seq<char>, TargetState>, targets: Seq<Seq<char>>)
    requires
        link_all(places, targets, true) is Some,
    ensures
        forall|i: int|
            0 <= i < targets.len() ==> found_in(
                link_all(places, targets, true)->0,
                #[trigger] targets[i],
            ) == TargetState::Symlink,
    decreases targets.len(),
{
    if targets.len() > 0 {
        lemma_first_pass(places, targets.drop_last());
        let before = link_all(places, targets.drop_last(), true)->0;
        let after = link_all(places, targets, true)->0;
        assert forall|i: int| 0 <= i < targets.len() implies found_in(after, #[trigger] targets[i])
            == TargetState::Symlink by {
            if i < targets.len() - 1 {
                assert(targets.drop_last()[i] == targets[i]);
            }
        }
    }
}

proof fn lemma_second_pass(places: Map<Seq<char>, TargetState>, targets: Seq<Seq<char>>)
    requires
        forall|i: int|
            0 <= i < targets.len() ==> found_in(places, #[trigger] targets[i])
                == TargetState::Symlink,
    ensures
        link_all(places, targets, true) == Some(places),
    decreases targets.len(),
{
    if targets.len() > 0 {
        assert forall|i: int| 0 <= i < targets.len() - 1 implies found_in(
            places,
            #[trigger] targets.drop_last()[i],
        ) == TargetState::Symlink by {
            assert(targets.drop_last()[i] == targets[i]);
        }
        lemma_second_pass(places, targets.drop_last());
        assert(found_in(places, targets[targets.len() - 1]) == TargetState::Symlink);
        assert(places.insert(targets.last(), TargetState::Symlink) =~= places);
    }
}

/// Linking with overwriting allowed is idempotent. A pass that ended without
/// an error has left a symlink at every target, whatever was there; a second
/// pass over the same targets ends without an error too and leaves every
/// place as the first pass left it.
pub proof fn law_relink_is_stable(places: Map<Seq<char>, TargetState>, targets: Seq<Seq<char>>)
    requires
        link_all(places, targets, true) is Some,
    ensures
        forall|i: int|
            0 <= i < targets.len() ==> found_in(
                link_all(places, targets, true)->0,
                #[trigger] targets[i],
            ) == TargetState::Symlink,
        link_all(link_all(places, targets, true)->0, targets, true) == link_all(
            places,
            targets,
            true,
        ),
{
    lemma_first_pass(places, targets);
    lemma_second_pass(link_all(places, targets, true)->0, targets);
}

/// Where every place can be examined, a pass with overwriting allowed ends
/// without an error, and every place can still be examined after it.
pub proof fn law_readable_places_link(
    places: Map<Seq<char>, TargetState>,
    targets: Seq<Seq<char>>,
)
    requires
        all_readable(places),
    ensures
        link_all(places, targets, true) is Some,
        all_readable(link_all(places, targets, true)->0),
    decreases targets.len(),
{
    if targets.len() > 0 {
        law_readable_places_link(places, targets.drop_last());
        let before = link_all(places, targets.drop_last(), true)->0;
        assert(found_in(before, targets.last()) != TargetState::Denied);
        let after = link_all(places, targets, true)->0;
        assert forall|target: Seq<char>| found_in(after, target) != TargetState::Denied by {
            assert(found_in(before, target) != TargetState::Denied);
        }
    }
}

/// With overwriting allowed no place that can be examined is a conflict,
/// and a place that holds a symlink is replaced by a symlink.
pub proof fn law_overwrite_never_conflicts(found: TargetState)
    requires
        found != TargetState::Denied,
    ensures
        link_step(found, true) is Some,
        link_step(found, true) != Some(LinkStep::Conflict),
        state_after(found, link_step(found, true)->0) == TargetState::Symlink,
{
}

/// A file that is in the way is left alone unless overwriting is allowed,
/// and a symlink is replaced either way.
pub proof fn law_conflicts_need_overwrite(found: TargetState, overwrite: bool)
    ensures
        link_step(found, overwrite) == Some(LinkStep::Conflict) <==> !overwrite && (found
            == TargetState::File || found == TargetState::Directory),
        link_step(TargetState::Symlink, overwrite) == Some(LinkStep::Replace),
{
}

} // verus!
