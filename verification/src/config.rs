//! The configuration of a profile as its author wrote it, and what it says
//! about where the profile and its modules live.

use vstd::prelude::*;
use crate::error::{Error, ErrorKind};
use crate::hooks::{Hook, Hooks};
use crate::mapping::Mapping;
use crate::paths::{expand_path, join, join_spec, last_part, last_segment, tilde_spec};
use crate::text::{char_len, remove_all, without};

verus! {

/// When a module is linked, relative to the files of the profile that holds
/// it.
#[derive(Debug, Clone, Copy, PartialEq, Eq, Structural)]
pub enum LinkMode {
    /// Before them.
    Pre,
    /// After them.
    Post,
    /// Not at all.
    Never,
}

/// The configuration of a profile or of a module.
#[derive(Debug)]
pub struct ProfileConfig {
    /// The git URL that the profile is cloned from.
    pub repo: String,
    /// Where the profile lives; empty where that is left to be derived.
    pub location: String,
    pub hooks: Hooks,
    /// A directory below the location that holds the files to link.
    pub root_dir: Option<String>,
    /// Extra arguments for `git clone`.
    pub clone_flags: Vec<String>,
    pub prompt_for_commit_message: bool,
    pub pull_only: bool,
    pub link: LinkMode,
    pub modules: Vec<ProfileConfig>,
    pub mappings: Option<Vec<Mapping>>,
}

/// The configuration as the file `.dfm.yml` holds it.
pub type DFMConfig = ProfileConfig;

/// The directory name that a module cloned from `repo` gets: what follows
/// the last `/` of the URL, without `.git`.
pub open spec fn module_name(repo: Seq<char>) -> Seq<char> {
    without(last_segment(repo), ".git"@)
}

/// Where a module lives: where its configuration says, with `~` for the home
/// directory, and below the modules directory under the name of its
/// repository where the configuration says nothing.
pub open spec fn module_location(
    location: Seq<char>,
    repo: Seq<char>,
    modules_dir: Seq<char>,
    home: Seq<char>,
) -> Seq<char> {
    if location.len() == 0 {
        join_spec(modules_dir, module_name(repo))
    } else {
        tilde_spec(location, home)
    }
}

/// The directory that holds a profile's files: its location with `~` for the
/// home directory, and the root directory below it where one is set.
pub open spec fn location_spec(location: Seq<char>, root_dir: Option<Seq<char>>, home: Seq<char>)
    -> Seq<char> {
    match root_dir {
        Some(root) => join_spec(tilde_spec(location, home), root),
        None => tilde_spec(location, home),
    }
}

/// What is said of a module that names neither a place nor a repository.
pub open spec fn missing_repository() -> Seq<char> {
    "A module must define a repository!"@
}

impl ProfileConfig {
    /// The configuration has nothing set: no repository, no location, no
    /// hooks, no modules, no mappings, and it links after its parent.
    pub open spec fn is_default(&self) -> bool {
        &&& self.repo@.len() == 0
        &&& self.location@.len() == 0
        &&& self.hooks@ == Map::<Seq<char>, Seq<Hook>>::empty()
        &&& self.root_dir is None
        &&& self.clone_flags@.len() == 0
        &&& !self.prompt_for_commit_message
        &&& !self.pull_only
        &&& self.link == LinkMode::Post
        &&& self.modules@.len() == 0
        &&& self.mappings is None
    }

    /// The root directory, as plain text.
    pub open spec fn root_dir_spec(&self) -> Option<Seq<char>> {
        match self.root_dir {
            Some(root) => Some(root@),
            None => None,
        }
    }

    /// The directory that holds the profile's files.
    pub fn get_location(&self, home: &str) -> (r: String)
        ensures
            r@ == location_spec(self.location@, self.root_dir_spec(), home@),
    {
        let location = expand_path(self.location.as_str(), home);
        match &self.root_dir {
            Some(new_root) => join(location.as_str(), new_root.as_str()),
            None => location,
        }
    }

    /// Settles where this module lives. Fails for a module that names
    /// neither a place nor a repository.
    pub fn expand_module(&mut self, modules_dir: &str, home: &str) -> (r: Result<(), Error>)
        ensures
            final(self).repo == old(self).repo,
            final(self).hooks == old(self).hooks,
            final(self).root_dir == old(self).root_dir,
            final(self).clone_flags == old(self).clone_flags,
            final(self).prompt_for_commit_message == old(self).prompt_for_commit_message,
            final(self).pull_only == old(self).pull_only,
            final(self).link == old(self).link,
            final(self).modules == old(self).modules,
            final(self).mappings == old(self).mappings,
            match r {
                Ok(()) => {
                    &&& old(self).location@.len() > 0 || old(self).repo@.len() > 0
                    &&& final(self).location@ == module_location(
                        old(self).location@,
                        old(self).repo@,
                        modules_dir@,
                        home@,
                    )
                },
                Err(e) => {
                    &&& old(self).location@.len() == 0 && old(self).repo@.len() == 0
                    &&& final(self).location == old(self).location
                    &&& e.is(ErrorKind::Config, Seq::empty(), missing_repository())
                },
            },
    {
        if char_len(self.location.as_str()) == 0 {
            if char_len(self.repo.as_str()) == 0 {
                return Err(Error::new(ErrorKind::Config, "A module must define a repository!"));
            }
            let last = last_part(self.repo.as_str());
            let name = remove_all(last.as_str(), ".git");
            self.location = join(modules_dir, name.as_str());
        } else {
            self.location = expand_path(self.location.as_str(), home);
        }
        Ok(())
    }
}

impl Default for ProfileConfig {
    fn default() -> (config: ProfileConfig)
        ensures
            config.is_default(),
    {
        ProfileConfig {
            prompt_for_commit_message: false,
            pull_only: false,
            link: LinkMode::Post,
            repo: String::new(),
            location: String::new(),
            root_dir: None,
            hooks: Hooks::new(),
            modules: Vec::new(),
            mappings: None,
            clone_flags: Vec::new(),
        }
    }
}

} // verus!
