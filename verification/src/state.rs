//! What the tool remembers between runs: the name of the current profile,
//! and where that record and the profiles are kept below the home directory.

use vstd::prelude::*;
use crate::paths::{join, join_spec};

verus! {

/// The record of the current profile; an empty name stands for none.
#[derive(Debug, Clone, PartialEq, Eq)]
pub struct State {
    pub current_profile: String,
}

impl Default for State {
    fn default() -> (state: State)
        ensures
            state.current_profile@.len() == 0,
    {
        State { current_profile: String::new() }
    }
}

/// The tool's directory below the home directory.
pub open spec fn dfm_dir_spec(home: Seq<char>) -> Seq<char> {
    join_spec(join_spec(home, ".config"@), "dfm"@)
}

/// The tool's directory below the home directory.
pub fn dfm_dir(home: &str) -> (r: String)
    ensures
        r@ == dfm_dir_spec(home@),
{
    let path = join(home, ".config");
    join(path.as_str(), "dfm")
}

/// The file that holds the record.
pub fn state_file(home: &str) -> (r: String)
    ensures
        r@ == join_spec(dfm_dir_spec(home@), "state.json"@),
{
    let state_fp = dfm_dir(home);
    join(state_fp.as_str(), "state.json")
}

/// The directory that holds the profiles.
pub fn profiles_dir(home: &str) -> (r: String)
    ensures
        r@ == join_spec(dfm_dir_spec(home@), "profiles"@),
{
    let path = dfm_dir(home);
    join(path.as_str(), "profiles")
}

/// The directory that holds the modules that name no place of their own.
pub fn modules_dir(home: &str) -> (r: String)
    ensures
        r@ == join_spec(dfm_dir_spec(home@), "modules"@),
{
    let path = dfm_dir(home);
    join(path.as_str(), "modules")
}

/// The record to work with: the one that was found, and the record of no
/// profile where there is none yet.
pub fn load_or_default(found: Option<State>) -> (state: State)
    ensures
        match found {
            Some(record) => state == record,
            None => state.current_profile@.len() == 0,
        },
{
    match found {
        Some(record) => record,
        None => State::default(),
    }
}

} // verus!
