//! The commands and arguments that drive a run.

use vstd::prelude::*;
use crate::badge_options::{BadgeFormat, BadgeStyle, Color, DownloadCount};

verus! {

/// A tracked mod: the game's domain on the platform and the mod's id there.
#[derive(Clone, Debug)]
pub struct Mod {
    pub domain: String,
    pub mod_id: usize,
}

impl Mod {
    pub open spec fn same(&self, o: &Mod) -> bool {
        self.domain@ == o.domain@ && self.mod_id == o.mod_id
    }
}

impl PartialEq for Mod {
    fn eq(&self, o: &Mod) -> (r: bool)
        ensures
            r == self.same(o),
    {
        self.mod_id == o.mod_id && self.domain == o.domain
    }
}

impl vstd::std_specs::cmp::PartialEqSpecImpl for Mod {
    open spec fn obeys_eq_spec() -> bool {
        true
    }

    open spec fn eq_spec(&self, o: &Mod) -> bool {
        self.same(o)
    }
}

impl Eq for Mod {

}

/// Which credentials a `set-arg` command changed.
#[derive(Clone, Copy, Debug, PartialEq, Eq, Structural)]
pub struct ModFlags {
    pub git_token: bool,
    pub nexus_key: bool,
    pub gist_id: bool,
}

impl Default for ModFlags {
    fn default() -> (r: ModFlags)
        ensures
            !r.git_token && !r.nexus_key && !r.gist_id,
    {
        ModFlags { git_token: false, nexus_key: false, gist_id: false }
    }
}

impl ModFlags {
    pub fn any(&self) -> (r: bool)
        ensures
            r == (self.git_token || self.nexus_key || self.gist_id),
    {
        self.git_token || self.nexus_key || self.gist_id
    }
}

/// New settings given on the command line; `None` leaves a setting as it is.
#[derive(Debug)]
pub struct SetArgs {
    pub git: Option<String>,
    pub nexus: Option<String>,
    pub gist: Option<String>,
    pub owner: Option<String>,
    pub repo: Option<String>,
    pub style: Option<BadgeStyle>,
    pub count: Option<DownloadCount>,
    pub label: Option<String>,
    pub label_color: Option<Color>,
    pub color: Option<Color>,
    pub format: Option<BadgeFormat>,
    pub modified: ModFlags,
}

/// The credentials of an earlier command line.
#[derive(Debug)]
pub struct SetKeyArgs {
    pub git: Option<String>,
    pub nexus: Option<String>,
}

/// Target state of the automation workflow.
#[derive(Clone, Copy, Debug, PartialEq, Eq, Structural)]
pub enum Workflow {
    Enable,
    Disable,
}

impl Workflow {
    pub open spec fn name_spec(self) -> Seq<char> {
        match self {
            Workflow::Enable => "enable"@,
            Workflow::Disable => "disable"@,
        }
    }

    pub fn name(&self) -> (r: &'static str)
        ensures
            r@ == self.name_spec(),
    {
        match self {
            Workflow::Enable => "enable",
            Workflow::Disable => "disable",
        }
    }
}

#[derive(Debug)]
pub enum Commands {
    Add(Mod),
    Remove(Mod),
    SetArg(SetArgs),
    Init,
    InitActions,
    Automation { state: Workflow },
    Version,
    UpdateCacheKey { old: Option<String>, new: String },
}

impl Commands {
    pub open spec fn name_spec(&self) -> Seq<char> {
        match self {
            Commands::Add(_) => "add"@,
            Commands::Remove(_) => "remove"@,
            Commands::SetArg(_) => "set-arg"@,
            Commands::Automation { .. } => "automation"@,
            Commands::Init => "init"@,
            Commands::InitActions => "init-actions"@,
            Commands::Version => "version"@,
            Commands::UpdateCacheKey { .. } => "repo-variable"@,
        }
    }

    /// The command's name as the user types it.
    pub fn name(&self) -> (r: &'static str)
        ensures
            r@ == self.name_spec(),
    {
        match self {
            Commands::Add(_) => "add",
            Commands::Remove(_) => "remove",
            Commands::SetArg(_) => "set-arg",
            Commands::Automation { .. } => "automation",
            Commands::Init => "init",
            Commands::InitActions => "init-actions",
            Commands::Version => "version",
            Commands::UpdateCacheKey { .. } => "repo-variable",
        }
    }
}

/// A parsed command line.
#[derive(Debug)]
pub struct Cli {
    pub command: Option<Commands>,
    pub remote: bool,
}

} // verus!
