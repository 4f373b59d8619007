//! The command line's values: one variant per verb, each with the options
//! it takes.
use vstd::prelude::*;

verus! {

/// The top-level command.
pub enum Cargo {
    Member(CargoMember),
}

/// The verbs.
pub enum CargoMember {
    /// Include a member in the workspace
    Include(CargoMemberInclude),
    /// Exclude a member from the workspace
    Exclude(CargoMemberExclude),
    /// Include a package excluding the others
    Focus(CargoMemberFocus),
    /// Create a new package
    New(CargoMemberNew),
    /// Copy a member in the workspace
    Cp(CargoMemberCp),
    /// Remove a member from the workspace
    Rm(CargoMemberRm),
    /// Move a member in the workspace
    Mv(CargoMemberMv),
}

/// Coloring.
#[derive(Clone, Copy, Debug, PartialEq, Eq, Structural)]
pub enum ColorChoice {
    Auto,
    Always,
    Never,
}

pub struct CargoMemberInclude {
    pub manifest_path: Option<String>,
    pub color: ColorChoice,
    pub offline: bool,
    pub force: bool,
    pub dry_run: bool,
    pub paths: Vec<String>,
}

pub struct CargoMemberExclude {
    pub package: Vec<String>,
    pub manifest_path: Option<String>,
    pub color: ColorChoice,
    pub offline: bool,
    pub dry_run: bool,
    pub paths: Vec<String>,
}

pub struct CargoMemberFocus {
    pub dry_run: bool,
    pub manifest_path: Option<String>,
    pub color: ColorChoice,
    pub offline: bool,
    pub path: String,
}

pub struct CargoMemberNew {
    pub manifest_path: Option<String>,
    pub registry: Option<String>,
    pub vcs: Option<String>,
    pub lib: bool,
    pub name: Option<String>,
    pub color: ColorChoice,
    pub offline: bool,
    pub dry_run: bool,
    pub path: String,
}

pub struct CargoMemberCp {
    pub manifest_path: Option<String>,
    pub color: ColorChoice,
    pub offline: bool,
    pub dry_run: bool,
    pub no_rename: bool,
    pub src: String,
    pub dst: String,
}

pub struct CargoMemberRm {
    pub package: Vec<String>,
    pub manifest_path: Option<String>,
    pub color: ColorChoice,
    pub offline: bool,
    pub force: bool,
    pub dry_run: bool,
    pub paths: Vec<String>,
}

pub struct CargoMemberMv {
    pub manifest_path: Option<String>,
    pub color: ColorChoice,
    pub offline: bool,
    pub dry_run: bool,
    pub no_rename: bool,
    pub src: String,
    pub dst: String,
}

impl CargoMember {
    /// The coloring asked for, whatever the verb.
    pub open spec fn color_spec(&self) -> ColorChoice {
        match self {
            CargoMember::Include(o) => o.color,
            CargoMember::Exclude(o) => o.color,
            CargoMember::Focus(o) => o.color,
            CargoMember::New(o) => o.color,
            CargoMember::Cp(o) => o.color,
            CargoMember::Rm(o) => o.color,
            CargoMember::Mv(o) => o.color,
        }
    }

    pub fn color(&self) -> (r: ColorChoice)
        ensures
            r == self.color_spec(),
    {
        match self {
            CargoMember::Include(o) => o.color,
            CargoMember::Exclude(o) => o.color,
            CargoMember::Focus(o) => o.color,
            CargoMember::New(o) => o.color,
            CargoMember::Cp(o) => o.color,
            CargoMember::Rm(o) => o.color,
            CargoMember::Mv(o) => o.color,
        }
    }
}

} // verus!
