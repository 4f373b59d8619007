//! Creating a package in a workspace: the new path joins the workspace and
//! the package manager is asked to lay the package out.
use crate::members::strings_view;
use crate::ops::Include;
use vstd::prelude::*;

verus! {

/// Creates a package at `path` and includes it in the workspace.
pub struct New {
    pub workspace_root: String,
    pub path: String,
    pub cargo_new_registry: Option<String>,
    pub cargo_new_vcs: Option<String>,
    pub cargo_new_lib: bool,
    pub cargo_new_name: Option<String>,
    pub offline: bool,
    pub dry_run: bool,
}

pub open spec fn option_arg(v: Option<String>, flag: Seq<char>) -> Seq<Seq<char>> {
    match v {
        Some(s) => seq![flag, s@],
        None => Seq::empty(),
    }
}

pub open spec fn flag_arg(on: bool, flag: Seq<char>) -> Seq<Seq<char>> {
    if on {
        seq![flag]
    } else {
        Seq::empty()
    }
}

fn push_option(args: &mut Vec<String>, v: &Option<String>, flag: &str)
    ensures
        strings_view(final(args)@) == strings_view(old(args)@) + option_arg(*v, flag@),
{
    let ghost before = args@;
    match v {
        Some(s) => {
            args.push(flag.to_owned());
            args.push(s.clone());
            assert(strings_view(args@) =~= strings_view(before) + option_arg(*v, flag@));
        },
        None => {
            assert(strings_view(args@) =~= strings_view(before) + option_arg(*v, flag@));
        },
    }
}

fn push_flag(args: &mut Vec<String>, on: bool, flag: &str)
    ensures
        strings_view(final(args)@) == strings_view(old(args)@) + flag_arg(on, flag@),
{
    let ghost before = args@;
    if on {
        args.push(flag.to_owned());
    }
    assert(strings_view(args@) =~= strings_view(before) + flag_arg(on, flag@));
}

impl New {
    pub fn new(workspace_root: String, path: String) -> (r: Self)
        ensures
            r.workspace_root == workspace_root && r.path == path,
            r.cargo_new_registry is None && r.cargo_new_vcs is None && r.cargo_new_name is None,
            !r.cargo_new_lib && !r.offline && !r.dry_run,
    {
        New {
            workspace_root,
            path,
            cargo_new_registry: None,
            cargo_new_vcs: None,
            cargo_new_lib: false,
            cargo_new_name: None,
            offline: false,
            dry_run: false,
        }
    }

    pub fn cargo_new_registry(self, cargo_new_registry: Option<String>) -> (r: Self)
        ensures
            r == (New { cargo_new_registry, ..self }),
    {
        New { cargo_new_registry, ..self }
    }

    pub fn cargo_new_vcs(self, cargo_new_vcs: Option<String>) -> (r: Self)
        ensures
            r == (New { cargo_new_vcs, ..self }),
    {
        New { cargo_new_vcs, ..self }
    }

    pub fn cargo_new_lib(self, cargo_new_lib: bool) -> (r: Self)
        ensures
            r == (New { cargo_new_lib, ..self }),
    {
        New { cargo_new_lib, ..self }
    }

    pub fn cargo_new_name(self, cargo_new_name: Option<String>) -> (r: Self)
        ensures
            r == (New { cargo_new_name, ..self }),
    {
        New { cargo_new_name, ..self }
    }

    pub fn offline(self, offline: bool) -> (r: Self)
        ensures
            r == (New { offline, ..self }),
    {
        New { offline, ..self }
    }

    pub fn dry_run(self, dry_run: bool) -> (r: Self)
        ensures
            r == (New { dry_run, ..self }),
    {
        New { dry_run, ..self }
    }

    /// The arguments of the package manager's `new` command for this package.
    pub open spec fn args_spec(self) -> Seq<Seq<char>> {
        seq!["new"@] + option_arg(self.cargo_new_registry, "--registry"@) + option_arg(
            self.cargo_new_vcs,
            "--vcs"@,
        ) + flag_arg(self.cargo_new_lib, "--lib"@) + option_arg(self.cargo_new_name, "--name"@)
            + flag_arg(self.offline, "--offline"@) + seq![self.path@]
    }

    pub fn cargo_new_args(&self) -> (r: Vec<String>)
        ensures
            strings_view(r@) == self.args_spec(),
    {
        let mut args: Vec<String> = Vec::new();
        args.push("new".to_owned());
        assert(strings_view(args@) =~= seq!["new"@]);
        push_option(&mut args, &self.cargo_new_registry, "--registry");
        push_option(&mut args, &self.cargo_new_vcs, "--vcs");
        push_flag(&mut args, self.cargo_new_lib, "--lib");
        push_option(&mut args, &self.cargo_new_name, "--name");
        push_flag(&mut args, self.offline, "--offline");
        let ghost before = args@;
        args.push(self.path.clone());
        assert(strings_view(args@) =~= strings_view(before) + seq![self.path@]);
        args
    }

    /// The inclusion of the new path, done before the package is laid out:
    /// forced, since no package is there yet.
    pub fn inclusion(&self) -> (r: Include)
        ensures
            r.workspace_root == self.workspace_root,
            strings_view(r.paths@) == seq![self.path@],
            r.force && r.dry_run == self.dry_run && r.offline == self.offline,
    {
        let r = Include {
            workspace_root: self.workspace_root.clone(),
            paths: vec![self.path.clone()],
            force: true,
            dry_run: self.dry_run,
            offline: self.offline,
        };
        assert(strings_view(r.paths@) =~= seq![self.path@]);
        r
    }
}

} // verus!
