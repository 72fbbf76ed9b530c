//! Where the tool keeps its own files, below a configuration directory.

use vstd::prelude::*;
use crate::error::{Error, ErrorKind};
use crate::paths::{join, join_spec, last_part, last_segment, relative_to, relative_to_spec};
use crate::text::char_len;

verus! {

/// The user's configuration directory: the one that is set, and `.config`
/// below the home directory where none is.
pub open spec fn xdg_dir_spec(xdg_config_home: Option<Seq<char>>, home: Seq<char>) -> Seq<char> {
    match xdg_config_home {
        Some(path) => path,
        None => join_spec(home, ".config"@),
    }
}

/// The configuration directory to use: the one the caller names, else the
/// one set for this tool, else the user's configuration directory.
pub open spec fn cfg_dir_spec(
    cfd: Option<Seq<char>>,
    dfm_config_dir: Option<Seq<char>>,
    xdg_config_home: Option<Seq<char>>,
    home: Seq<char>,
) -> Seq<char> {
    match cfd {
        Some(dir) => dir,
        None => match dfm_config_dir {
            Some(path) => path,
            None => xdg_dir_spec(xdg_config_home, home),
        },
    }
}

/// The tool's directory below the configuration directory `cfd`.
pub open spec fn dfm_dir_spec(cfd: Seq<char>) -> Seq<char> {
    join_spec(cfd, "dfm"@)
}

/// The directory that holds the profiles.
pub open spec fn profile_storage_dir_spec(cfd: Seq<char>) -> Seq<char> {
    join_spec(dfm_dir_spec(cfd), "profiles"@)
}

/// What is said when no profile is named and none is current.
pub open spec fn no_profile_message() -> Seq<char> {
    "No current profile and no profile provided."@
}

/// The characters of an optional piece of text.
pub open spec fn opt_text(text: Option<&str>) -> Option<Seq<char>> {
    match text {
        Some(t) => Some(t@),
        None => None,
    }
}

/// The user's configuration directory.
pub fn xdg_dir(xdg_config_home: Option<&str>, home: &str) -> (r: String)
    ensures
        r@ == xdg_dir_spec(opt_text(xdg_config_home), home@),
{
    match xdg_config_home {
        Some(path) => path.to_owned(),
        None => join(home, ".config"),
    }
}

/// The configuration directory to use.
pub fn cfg_dir(
    cfd: Option<&str>,
    dfm_config_dir: Option<&str>,
    xdg_config_home: Option<&str>,
    home: &str,
) -> (r: String)
    ensures
        r@ == cfg_dir_spec(
            opt_text(cfd),
            opt_text(dfm_config_dir),
            opt_text(xdg_config_home),
            home@,
        ),
{
    match cfd {
        Some(dir) => dir.to_owned(),
        None => match dfm_config_dir {
            Some(path) => path.to_owned(),
            None => xdg_dir(xdg_config_home, home),
        },
    }
}

/// The tool's directory below the configuration directory `cfd`.
pub fn dfm_dir(cfd: &str) -> (r: String)
    ensures
        r@ == dfm_dir_spec(cfd@),
{
    join(cfd, "dfm")
}

/// The file that records the current profile.
pub fn state_file_p(cfd: &str) -> (r: String)
    ensures
        r@ == join_spec(dfm_dir_spec(cfd@), "state.yml"@),
{
    let p = dfm_dir(cfd);
    join(p.as_str(), "state.yml")
}

/// The directory that holds the profiles.
pub fn profile_storage_dir(cfd: &str) -> (r: String)
    ensures
        r@ == profile_storage_dir_spec(cfd@),
{
    let p = dfm_dir(cfd);
    join(p.as_str(), "profiles")
}

/// The directory of the profile called `name`.
pub fn profile_dir(name: &str, cfd: &str) -> (r: String)
    ensures
        r@ == join_spec(profile_storage_dir_spec(cfd@), name@),
{
    let storage = profile_storage_dir(cfd);
    join(storage.as_str(), name)
}

/// The directory to load the profile called `name` from. Fails when the
/// name is empty: no profile is current and none was named.
pub fn load_profile(name: &str, cfd: &str) -> (r: Result<String, Error>)
    ensures
        match r {
            Ok(dir) => name@.len() > 0 && dir@ == join_spec(profile_storage_dir_spec(cfd@), name@),
            Err(e) => name@.len() == 0 && e.is(
                ErrorKind::Config,
                Seq::empty(),
                no_profile_message(),
            ),
        },
{
    if char_len(name) == 0 {
        return Err(Error::new(ErrorKind::Config, "No current profile and no profile provided."));
    }
    Ok(profile_dir(name, cfd))
}

/// The name of a profile cloned from `url`: the name that was asked for,
/// and what follows the last `/` of the URL where none was.
pub open spec fn clone_name_spec(url: Seq<char>, name: Seq<char>) -> Seq<char> {
    if name.len() > 0 {
        name
    } else {
        last_segment(url)
    }
}

/// The name of a profile cloned from `url`.
pub fn clone_name(url: &str, name: &str) -> (r: String)
    ensures
        r@ == clone_name_spec(url@, name@),
{
    if char_len(name) > 0 {
        name.to_owned()
    } else {
        last_part(url)
    }
}

/// Where a file of the home directory goes when a profile adopts it: to the
/// same path below the profile's root. A file outside the home directory
/// goes nowhere.
pub open spec fn adopted_path_spec(file: Seq<char>, home: Seq<char>, root: Seq<char>) -> Option<
    Seq<char>,
> {
    match relative_to_spec(file, home) {
        Some(relative) => Some(join_spec(root, relative)),
        None => None,
    }
}

/// Where a file of the home directory goes when a profile adopts it.
pub fn adopted_path(file: &str, home: &str, profile_root: &str) -> (r: Option<String>)
    ensures
        match r {
            Some(path) => adopted_path_spec(file@, home@, profile_root@) == Some(path@),
            None => adopted_path_spec(file@, home@, profile_root@) is None,
        },
{
    match relative_to(file, home) {
        Some(relative) => Some(join(profile_root, relative.as_str())),
        None => None,
    }
}

/// A symlink is dead and ours to remove: it points into the directory that
/// holds the profiles, at something that is not there.
pub open spec fn dead_link_spec(target: Seq<char>, profiles_dir: Seq<char>, present: bool) -> bool {
    relative_to_spec(target, profiles_dir) is Some && !present
}

/// Whether a symlink that points at `target` is dead and ours to remove;
/// `present` says whether there is anything at `target`.
pub fn is_dead_link(target: &str, profiles_dir: &str, present: bool) -> (r: bool)
    ensures
        r == dead_link_spec(target@, profiles_dir@, present),
{
    match relative_to(target, profiles_dir) {
        Some(_) => !present,
        None => false,
    }
}

} // verus!
