//! Download-count tracking for hosted mods: aggregation of fetched metrics,
//! reconciliation of the published JSON document, sealing of repository
//! secrets and rendering of status badges.

pub mod text;
pub mod json_data;
pub mod encoding;
pub mod badge_options;
pub mod error;
pub mod cli;
pub mod nexus;
pub mod git;
pub mod secrets;
pub mod badges;
pub mod commands;
pub mod paths;

use vstd::prelude::*;
use crate::error::Error;
use crate::cli::Mod;
use crate::json_data::Input;
use crate::text::same_text;

verus! {

/// The credentials and target repository of a run, resolved once at startup.
#[derive(Debug)]
pub struct StartupVars {
    pub nexus_key: String,
    pub git_token: String,
    pub gist_id: String,
    pub owner: String,
    pub repo: String,
}

/// Remedy when the mod platform's key is not set.
pub const MISSING_NEXUS_KEY: &'static str = "Nexus api key missing. Use command 'set' to store private key";

/// Remedy when the git platform's token is not set.
pub const MISSING_GIT_TOKEN: &'static str = "Git fine-grained token missing, Use command 'set' to store private token";

/// Remedy when no remote document was created yet.
pub const GIST_NOT_SETUP: &'static str = "Use command 'init' to initialize a new remote gist";

/// Remedy when neither the owner nor the name of the automation's repository is set.
pub const REPO_NOT_SETUP: &'static str = "No repository set as target location of 'automation.yml' workflow.\n\
    To setup automation workflow use commands:\n\
    - 'nexus_badges.exe set-arg --owner <GITHUB_NAME> --repo <REPOSITORY_NAME>'\n\
    - 'nexus_badges.exe init-actions'";

/// Remedy when the automation's repository name is not set.
pub const MISSING_REPO: &'static str = "Use command 'set --repo' to input your forked 'nexus_badges'";

/// Remedy when the automation's repository owner is not set.
pub const MISSING_OWNER: &'static str = "Use command 'set --owner' to input your GitHub username";

/// The platform key is required; `Ok(true)` when the git token is missing
/// too, in which case the counts can only be kept locally.
pub fn verify_nexus(vars: &StartupVars) -> (r: Result<bool, Error>)
    ensures
        vars.nexus_key@.len() == 0 ==> (r matches Err(Error::Missing(m)) && m@ == MISSING_NEXUS_KEY@),
        vars.nexus_key@.len() != 0 ==> r == Ok::<bool, Error>(vars.git_token@.len() == 0),
{
    if vars.nexus_key.as_str().is_empty() {
        return Err(Error::Missing(MISSING_NEXUS_KEY));
    }
    Ok(vars.git_token.as_str().is_empty())
}

/// A git token is required.
pub fn verify_git(vars: &StartupVars) -> (r: Result<(), Error>)
    ensures
        vars.git_token@.len() == 0 ==> (r matches Err(Error::Missing(m)) && m@ == MISSING_GIT_TOKEN@),
        vars.git_token@.len() != 0 ==> r is Ok,
{
    if vars.git_token.as_str().is_empty() {
        return Err(Error::Missing(MISSING_GIT_TOKEN));
    }
    Ok(())
}

/// A remote document must have been created; gives its endpoint.
pub fn verify_gist(vars: &StartupVars) -> (r: Result<String, Error>)
    ensures
        vars.gist_id@.len() == 0 ==> (r matches Err(Error::NotSetup(m)) && m@ == GIST_NOT_SETUP@),
        vars.gist_id@.len() != 0 ==> (r matches Ok(e) && e@ == "https://api.github.com/gists/"@
            + vars.gist_id@),
{
    if vars.gist_id.as_str().is_empty() {
        return Err(Error::NotSetup(GIST_NOT_SETUP));
    }
    Ok(crate::git::gist_id_endpoint(vars))
}

/// The automation's repository must be named by its owner and name.
pub fn verify_repo_from(owner: &str, repo: &str) -> (r: Result<(), Error>)
    ensures
        (repo@.len() == 0 && owner@.len() == 0) ==> (r matches Err(Error::NotSetup(m)) && m@
            == REPO_NOT_SETUP@),
        (repo@.len() == 0 && owner@.len() != 0) ==> (r matches Err(Error::Missing(m)) && m@
            == MISSING_REPO@),
        (repo@.len() != 0 && owner@.len() == 0) ==> (r matches Err(Error::Missing(m)) && m@
            == MISSING_OWNER@),
        (repo@.len() != 0 && owner@.len() != 0) ==> r is Ok,
{
    if repo.is_empty() && owner.is_empty() {
        return Err(Error::NotSetup(REPO_NOT_SETUP));
    }
    if repo.is_empty() {
        return Err(Error::Missing(MISSING_REPO));
    }
    if owner.is_empty() {
        return Err(Error::Missing(MISSING_OWNER));
    }
    Ok(())
}

pub fn verify_repo(vars: &StartupVars) -> (r: Result<(), Error>)
    ensures
        (vars.repo@.len() == 0 && vars.owner@.len() == 0) ==> (r matches Err(Error::NotSetup(m))
            && m@ == REPO_NOT_SETUP@),
        (vars.repo@.len() == 0 && vars.owner@.len() != 0) ==> (r matches Err(Error::Missing(m))
            && m@ == MISSING_REPO@),
        (vars.repo@.len() != 0 && vars.owner@.len() == 0) ==> (r matches Err(Error::Missing(m))
            && m@ == MISSING_OWNER@),
        (vars.repo@.len() != 0 && vars.owner@.len() != 0) ==> r is Ok,
{
    verify_repo_from(vars.owner.as_str(), vars.repo.as_str())
}

fn take_string(s: &mut String) -> (r: String)
    ensures
        r@ == old(s)@,
        final(s)@.len() == 0,
{
    let mut out = String::new();
    std::mem::swap(&mut out, s);
    out
}

impl StartupVars {
    /// Moves the settings out of a credentials document, leaving them empty.
    pub fn from_input(value: &mut Input) -> (r: StartupVars)
        ensures
            r.nexus_key@ == old(value).nexus_key@,
            r.git_token@ == old(value).git_token@,
            r.gist_id@ == old(value).gist_id@,
            r.owner@ == old(value).owner@,
            r.repo@ == old(value).repo@,
            final(value).nexus_key@.len() == 0,
            final(value).git_token@.len() == 0,
            final(value).gist_id@.len() == 0,
            final(value).owner@.len() == 0,
            final(value).repo@.len() == 0,
            final(value).mods == old(value).mods,
    {
        StartupVars {
            nexus_key: take_string(&mut value.nexus_key),
            git_token: take_string(&mut value.git_token),
            gist_id: take_string(&mut value.gist_id),
            owner: take_string(&mut value.owner),
            repo: take_string(&mut value.repo),
        }
    }

    /// The settings of an unattended run that only calls the git platform:
    /// the token, and the repository given as `owner/name`, split at its
    /// first `/`.
    pub fn git_api_only(repo_full: &str, git_token: String) -> (r: StartupVars)
        requires
            exists|i: int| 0 <= i < repo_full@.len() && repo_full@[i] == '/',
        ensures
            r.git_token == git_token,
            r.nexus_key@.len() == 0,
            r.gist_id@.len() == 0,
            exists|i: int|
                0 <= i < repo_full@.len() && repo_full@[i] == '/' && (forall|j: int|
                    0 <= j < i ==> repo_full@[j] != '/') && r.owner@ == repo_full@.subrange(0, i)
                    && r.repo@ == repo_full@.subrange(i + 1, repo_full@.len() as int),
    {
        let n = repo_full.unicode_len();
        let mut i: usize = 0;
        while repo_full.get_char(i) != '/'
            invariant
                n == repo_full@.len(),
                i < n,
                forall|j: int| 0 <= j < i ==> repo_full@[j] != '/',
                exists|k: int| i <= k < n && repo_full@[k] == '/',
            decreases n - i,
        {
            i = i + 1;
        }
        StartupVars {
            nexus_key: String::new(),
            git_token,
            gist_id: String::new(),
            owner: String::from_str(repo_full.substring_char(0, i)),
            repo: String::from_str(repo_full.substring_char(i + 1, n)),
        }
    }
}

impl Input {
    /// A credentials document with the settings of a run and a registry.
    pub fn from(startup: &StartupVars, mods: Vec<Mod>) -> (r: Input)
        ensures
            r.git_token@ == startup.git_token@,
            r.nexus_key@ == startup.nexus_key@,
            r.gist_id@ == startup.gist_id@,
            r.owner@ == startup.owner@,
            r.repo@ == startup.repo@,
            r.mods == mods,
    {
        Input {
            git_token: startup.git_token.clone(),
            nexus_key: startup.nexus_key.clone(),
            gist_id: startup.gist_id.clone(),
            owner: startup.owner.clone(),
            repo: startup.repo.clone(),
            mods,
        }
    }
}

/// The announcement to show when the newest release is not `current`.
pub fn version_message(latest: &str, current: &str, message: String) -> (r: Option<String>)
    ensures
        latest@ != current@ ==> r == Some(message),
        latest@ == current@ ==> r is None,
{
    if !same_text(latest, current) {
        Some(message)
    } else {
        None
    }
}

/// Whether creating a remote document replaced a different one on record.
pub fn gist_replaced(previous_id: &str, new_id: &str) -> (r: bool)
    ensures
        r == (previous_id@.len() != 0 && previous_id@ != new_id@),
{
    !previous_id.is_empty() && !same_text(previous_id, new_id)
}

} // verus!
