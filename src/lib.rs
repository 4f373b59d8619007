//! Membership management for multi-package workspaces: a formatting-preserving
//! editor of the `members` / `exclude` lists of a workspace manifest, and the
//! decisions behind copying, moving and removing member packages.
mod copy;
mod laws;
mod manifest;
mod members;
mod new_package;
mod ops;
mod path;
mod pkgid;

pub mod cli;

pub use copy::{
    copy_plan, copy_target_of, enclosing_workspace, ensure_vacant, include_copy, CopyStep, Cp, Mv,
    WalkEntry,
};
pub use laws::{
    add_member_request, lemma_add_twice, lemma_dry_run_keeps_entries, lemma_modify_twice, lemma_dry_run_reports, lemma_no_op_keeps_text,
    lemma_remove_by_location,
};
pub use members::{apply_changes, Change, ListField, MemberError, Request};
pub use new_package::New;
pub use ops::{
    modify_members, needs_validation, other_dirs, parse_manifest, reject_root, Deactivate, Exclude, Focus, Include,
    Outcome, Rm,
};
pub use path::{
    absolute_from, ensure_absolute, file_name_of, join, relative_to_root, same_location_exec,
    same_text,
    segments_of, trim_leading_dots,
};
pub use pkgid::{
    member_dir, name_from_parts, package_name_from_id, pkgid_manifest, resolve_member,
    strip_error_prefixes, MemberInfo,
};
