//! Copying a package: where the copy goes, which files of the source tree
//! it takes, how its manifest changes, and whether it lands in a workspace.
use crate::manifest::{
    has_package_table, package_fields, package_is_table, remove_package_field, render, rendered,
    set_package_string, workspace_arrays,
};
use crate::members::{
    arrays_after, changes_view, has_lists, names_root, report_in, usable, MemberError,
};
use crate::ops::{modify_members, path_request, settles, Outcome, PathEdit, Rm};
use crate::path::{
    chars_eq_str, ensure_absolute, file_name, file_name_of, is_absolute, join, join_segments,
    join_segments_range, joined, lies_under, lies_under_exec, same_text, segments, segments_of,
    string_of,
};
use toml_edit::Document;
use vstd::prelude::*;

verus! {

/// The segments of `entry` below `src_root`.
pub open spec fn rest_after(src_root: Seq<char>, entry: Seq<char>) -> Seq<Seq<char>> {
    segments(entry).subrange(segments(src_root).len() as int, segments(entry).len() as int)
}

/// Where a file met while walking the package at `src_root` is copied to
/// under `dst_root`; `None` for a directory (created when a file needs it),
/// for the package manifest (written last) and for anything under `.git`.
pub open spec fn copy_target(
    src_root: Seq<char>,
    dst_root: Seq<char>,
    entry: Seq<char>,
    is_dir: bool,
) -> Option<Seq<char>> {
    if is_dir || !lies_under(src_root, entry) {
        None
    } else {
        let rest = rest_after(src_root, entry);
        if rest == seq!["Cargo.toml"@] || (rest.len() > 0 && rest[0] == ".git"@) {
            None
        } else {
            Some(joined(dst_root, join_segments(rest)))
        }
    }
}

/// Where the file at `entry` is copied to, if it is copied.
pub fn copy_target_of(src_root: &str, dst_root: &str, entry: &str, is_dir: bool) -> (r: Option<
    String,
>)
    ensures
        match r {
            Some(t) => copy_target(src_root@, dst_root@, entry@, is_dir) == Some(t@),
            None => copy_target(src_root@, dst_root@, entry@, is_dir) is None,
        },
{
    if is_dir || !lies_under_exec(src_root, entry) {
        return None;
    }
    let rs = segments_of(src_root);
    let es = segments_of(entry);
    let n = rs.len();
    let ghost rest = rest_after(src_root@, entry@);
    proof {
        assert(rest.len() == es@.len() - n);
        if rest.len() > 0 {
            assert(rest[0] == es@[n as int]@);
        }
    }
    if es.len() > n && es.len() - n == 1 && chars_eq_str(&es[n], "Cargo.toml") {
        assert(rest =~= seq!["Cargo.toml"@]);
        return None;
    }
    if es.len() > n && chars_eq_str(&es[n], ".git") {
        return None;
    }
    proof {
        if rest == seq!["Cargo.toml"@] {
            assert(rest[0] == "Cargo.toml"@);
        }
    }
    let tail = string_of(&join_segments_range(&es, n, es.len()));
    Some(join(dst_root, tail.as_str()))
}

/// One thing a copy does to the file system.
#[derive(Debug, PartialEq, Eq)]
pub enum CopyStep {
    /// Create the directory, with any parents it lacks.
    CreateDir(String),
    /// Copy the file at the first path to the second.
    CopyFile(String, String),
    /// Write the text to the file at the path.
    WriteFile(String, String),
}

pub enum CopyStepView {
    CreateDir(Seq<char>),
    CopyFile(Seq<char>, Seq<char>),
    WriteFile(Seq<char>, Seq<char>),
}

impl View for CopyStep {
    type V = CopyStepView;

    open spec fn view(&self) -> CopyStepView {
        match self {
            CopyStep::CreateDir(d) => CopyStepView::CreateDir(d@),
            CopyStep::CopyFile(a, b) => CopyStepView::CopyFile(a@, b@),
            CopyStep::WriteFile(p, t) => CopyStepView::WriteFile(p@, t@),
        }
    }
}

pub open spec fn steps_view(v: Seq<CopyStep>) -> Seq<CopyStepView> {
    v.map_values(|s: CopyStep| s@)
}

/// What a walk of the source tree met.
pub struct WalkEntry {
    pub path: String,
    pub is_dir: bool,
}

/// The directory that the copy of `entry` goes into.
pub open spec fn target_parent(src_root: Seq<char>, dst_root: Seq<char>, entry: Seq<char>) -> Seq<
    char,
> {
    let rest = rest_after(src_root, entry);
    if rest.len() > 1 {
        joined(dst_root, join_segments(rest.drop_last()))
    } else {
        dst_root
    }
}

/// The copies of the walked entries, in order, each preceded by the creation
/// of its directory the first time that directory is needed; with the
/// directories created so far.
pub open spec fn copy_files(src_root: Seq<char>, dst_root: Seq<char>, entries: Seq<WalkEntry>) -> (
    Seq<CopyStepView>,
    Seq<Seq<char>>,
)
    decreases entries.len(),
{
    if entries.len() == 0 {
        (Seq::empty(), Seq::empty())
    } else {
        let (steps, made) = copy_files(src_root, dst_root, entries.drop_last());
        let e = entries.last();
        match copy_target(src_root, dst_root, e.path@, e.is_dir) {
            None => (steps, made),
            Some(t) => {
                let d = target_parent(src_root, dst_root, e.path@);
                if made.contains(d) {
                    (steps.push(CopyStepView::CopyFile(e.path@, t)), made)
                } else {
                    (
                        steps.push(CopyStepView::CreateDir(d)).push(
                            CopyStepView::CopyFile(e.path@, t),
                        ),
                        made.push(d),
                    )
                }
            },
        }
    }
}

fn target_parent_of(src_root: &str, dst_root: &str, entry: &str) -> (r: String)
    requires
        lies_under(src_root@, entry@),
    ensures
        r@ == target_parent(src_root@, dst_root@, entry@),
{
    let rs = segments_of(src_root);
    let es = segments_of(entry);
    let n = rs.len();
    let len = es.len();
    let ghost rest = rest_after(src_root@, entry@);
    assert(rest.len() == len - n);
    if len - n > 1 {
        assert(crate::path::segs_view(es@).subrange(n as int, len - 1) =~= rest.drop_last());
        let inner = string_of(&join_segments_range(&es, n, len - 1));
        join(dst_root, inner.as_str())
    } else {
        dst_root.to_owned()
    }
}

fn holds_text(v: &Vec<String>, s: &String) -> (r: bool)
    ensures
        r == crate::members::strings_view(v@).contains(s@),
{
    let ghost sv = crate::members::strings_view(v@);
    let mut i: usize = 0;
    while i < v.len()
        invariant
            i <= v@.len(),
            sv == crate::members::strings_view(v@),
            sv.len() == v@.len(),
            forall|j: int| 0 <= j < i ==> sv[j] != s@,
        decreases v@.len() - i,
    {
        if same_text(v[i].as_str(), s.as_str()) {
            assert(sv[i as int] == s@);
            return true;
        }
        i += 1;
    }
    false
}

/// What copying the walked entries of the package at `src_root` to
/// `dst_root` does: the files in walk order (see `copy_target`), each
/// directory created when first needed, and the package manifest written
/// last, so that an interrupted copy never looks like a whole package.
pub fn copy_plan(src_root: &str, dst_root: &str, entries: &Vec<WalkEntry>, manifest: String) -> (r:
    Vec<CopyStep>)
    ensures
        steps_view(r@) == copy_files(src_root@, dst_root@, entries@).0.push(
            CopyStepView::WriteFile(joined(dst_root@, "Cargo.toml"@), manifest@),
        ),
{
    let mut steps: Vec<CopyStep> = Vec::new();
    let mut made: Vec<String> = Vec::new();
    let mut i: usize = 0;
    assert(entries@.subrange(0, 0) =~= Seq::<WalkEntry>::empty());
    assert(steps_view(steps@) =~= Seq::<CopyStepView>::empty());
    assert(crate::members::strings_view(made@) =~= Seq::<Seq<char>>::empty());
    while i < entries.len()
        invariant
            i <= entries@.len(),
            steps_view(steps@) == copy_files(
                src_root@,
                dst_root@,
                entries@.subrange(0, i as int),
            ).0,
            crate::members::strings_view(made@) == copy_files(
                src_root@,
                dst_root@,
                entries@.subrange(0, i as int),
            ).1,
        decreases entries@.len() - i,
    {
        let ghost sub = entries@.subrange(0, i + 1);
        assert(sub.drop_last() =~= entries@.subrange(0, i as int));
        assert(sub.last() == entries@[i as int]);
        let e = &entries[i];
        match copy_target_of(src_root, dst_root, e.path.as_str(), e.is_dir) {
            Some(t) => {
                let d = target_parent_of(src_root, dst_root, e.path.as_str());
                let ghost (s0, m0) = (steps@, made@);
                if !holds_text(&made, &d) {
                    steps.push(CopyStep::CreateDir(d.clone()));
                    made.push(d);
                    assert(crate::members::strings_view(made@) =~= crate::members::strings_view(
                        m0,
                    ).push(target_parent(src_root@, dst_root@, e.path@)));
                }
                steps.push(CopyStep::CopyFile(e.path.clone(), t));
                assert(steps_view(steps@) =~= copy_files(
                    src_root@,
                    dst_root@,
                    entries@.subrange(0, i + 1),
                ).0);
            },
            None => {},
        }
        i += 1;
    }
    assert(entries@.subrange(0, i as int) =~= entries@);
    let ghost before = steps@;
    let path = join(dst_root, "Cargo.toml");
    steps.push(CopyStep::WriteFile(path, manifest));
    assert(steps_view(steps@) =~= steps_view(before).push(
        CopyStepView::WriteFile(joined(dst_root@, "Cargo.toml"@), manifest@),
    ));
    steps
}

/// Copies a package directory to a destination.
pub struct Cp {
    pub src: String,
    pub dst: String,
    pub dry_run: bool,
    pub no_rename: bool,
}

/// The manifest of a copy: detached from any enclosing workspace, and named
/// after its directory unless renaming is off.
pub open spec fn copied_fields(
    fields: Map<Seq<char>, Option<Seq<char>>>,
    name: Option<Seq<char>>,
) -> Map<Seq<char>, Option<Seq<char>>> {
    match name {
        Some(n) => fields.remove("workspace"@).insert("name"@, Some(n)),
        None => fields.remove("workspace"@),
    }
}

impl Cp {
    pub fn new(src: String, dst: String) -> (r: Self)
        ensures
            r.src == src && r.dst == dst && !r.dry_run && !r.no_rename,
    {
        Cp { src, dst, dry_run: false, no_rename: false }
    }

    pub fn dry_run(self, dry_run: bool) -> (r: Self)
        ensures
            r.src == self.src && r.dst == self.dst,
            r.dry_run == dry_run && r.no_rename == self.no_rename,
    {
        Cp { dry_run, ..self }
    }

    pub fn no_rename(self, no_rename: bool) -> (r: Self)
        ensures
            r.src == self.src && r.dst == self.dst,
            r.dry_run == self.dry_run && r.no_rename == no_rename,
    {
        Cp { no_rename, ..self }
    }

    /// Where the copy goes: into an existing directory `dst`, under the
    /// source's own name; otherwise `dst` itself.
    pub fn destination(&self, dst_is_dir: bool) -> (r: Result<String, MemberError>)
        ensures
            !is_absolute(self.src@) ==> (r matches Err(MemberError::NotAbsolute(p))
                && p == self.src),
            is_absolute(self.src@) && !is_absolute(self.dst@) ==> (r matches Err(
                MemberError::NotAbsolute(p),
            ) && p == self.dst),
            is_absolute(self.src@) && is_absolute(self.dst@) ==> if dst_is_dir {
                match file_name(self.src@) {
                    Some(n) => r matches Ok(t) && t@ == joined(self.dst@, n),
                    None => r matches Err(MemberError::NoFileName(p)) && p == self.src,
                }
            } else {
                r matches Ok(t) && t == self.dst
            },
    {
        if ensure_absolute(self.src.as_str()).is_err() {
            return Err(MemberError::NotAbsolute(self.src.clone()));
        }
        if ensure_absolute(self.dst.as_str()).is_err() {
            return Err(MemberError::NotAbsolute(self.dst.clone()));
        }
        if !dst_is_dir {
            return Ok(self.dst.clone());
        }
        match file_name_of(self.src.as_str()) {
            Some(n) => Ok(join(self.dst.as_str(), n.as_str())),
            None => Err(MemberError::NoFileName(self.src.clone())),
        }
    }

    /// The text of the copy's manifest, from the source's parsed manifest
    /// and the copy's location `target`.
    pub fn copied_manifest(&self, manifest: Document, target: &str) -> (r: Result<
        String,
        MemberError,
    >)
        ensures
            r is Err <==> has_package_table(manifest) && !self.no_rename && file_name(
                target@,
            ) is None,
            r matches Ok(t) ==> exists|d1: Document|
                t@ == rendered(d1) && (has_package_table(manifest) ==> has_package_table(d1)
                    && package_fields(d1) == copied_fields(
                    package_fields(manifest),
                    if self.no_rename {
                        None
                    } else {
                        file_name(target@)
                    },
                )) && (!has_package_table(manifest) ==> d1 == manifest),
    {
        let mut d = manifest;
        if package_is_table(&d) {
            remove_package_field(&mut d, "workspace");
            if !self.no_rename {
                match file_name_of(target) {
                    Some(n) => set_package_string(&mut d, "name", n.as_str()),
                    None => {
                        return Err(MemberError::NoFileName(target.to_owned()));
                    },
                }
            }
        }
        let t = render(&d);
        assert(t@ == rendered(d));
        Ok(t)
    }
}

/// Fails when the destination exists already.
pub fn ensure_vacant(target: String, exists: bool) -> (r: Result<String, MemberError>)
    ensures
        exists ==> (r matches Err(MemberError::DestinationExists(p)) && p == target),
        !exists ==> r == Ok::<String, MemberError>(target),
{
    if exists {
        Err(MemberError::DestinationExists(target))
    } else {
        Ok(target)
    }
}

/// The workspace a copy lands in: given the ancestors of the copy (itself
/// left out) that hold a manifest, the one among them when there is exactly
/// one, and none when there are none or several.
pub fn enclosing_workspace(manifest_ancestors: &Vec<String>) -> (r: Option<String>)
    ensures
        r is Some <==> manifest_ancestors@.len() == 1,
        r matches Some(w) ==> w == manifest_ancestors@[0],
{
    if manifest_ancestors.len() == 1 {
        Some(manifest_ancestors[0].clone())
    } else {
        None
    }
}

/// Brings a copy into the workspace it landed in: it joins `members` and
/// leaves `exclude`.
pub fn include_copy(manifest: Document, workspace_root: &str, target: &String, dry_run: bool) -> (r:
    Result<Outcome, MemberError>)
    ensures
        ({
            let req = path_request(PathEdit::Include, target@);
            &&& r is Ok <==> !names_root(workspace_root@, req) && usable(manifest)
            &&& names_root(workspace_root@, req) ==> (r matches Err(
                MemberError::RootIsNotAMember(p),
            ) && p@ == workspace_root@)
            &&& r matches Ok(out) ==> (has_lists(manifest) && (dry_run || out.changes@.len() == 0)
                ==> !out.modified && out.manifest is None)
            &&& r matches Ok(out) ==> changes_view(out.changes@) == report_in(
                workspace_root@,
                workspace_arrays(manifest),
                req,
                dry_run,
            ) && exists|d1: Document|
                workspace_arrays(d1) == arrays_after(
                    workspace_root@,
                    workspace_arrays(manifest),
                    req,
                    dry_run,
                ) && settles(manifest, d1, dry_run, out)
        }),
{
    let req = crate::ops::request_for(PathEdit::Include, target);
    modify_members(manifest, workspace_root, &req, dry_run)
}

/// Moves a member: a copy, then the removal of the source from the
/// workspace. Not atomic: a failure after the copy leaves both trees.
pub struct Mv {
    pub workspace_root: String,
    pub src: String,
    pub dst: String,
    pub dry_run: bool,
    pub no_rename: bool,
}

impl Mv {
    pub fn new(workspace_root: String, src: String, dst: String) -> (r: Self)
        ensures
            r.workspace_root == workspace_root && r.src == src && r.dst == dst,
            !r.dry_run && !r.no_rename,
    {
        Mv { workspace_root, src, dst, dry_run: false, no_rename: false }
    }

    pub fn dry_run(self, dry_run: bool) -> (r: Self)
        ensures
            r.workspace_root == self.workspace_root && r.src == self.src && r.dst == self.dst,
            r.dry_run == dry_run && r.no_rename == self.no_rename,
    {
        Mv { dry_run, ..self }
    }

    pub fn no_rename(self, no_rename: bool) -> (r: Self)
        ensures
            r.workspace_root == self.workspace_root && r.src == self.src && r.dst == self.dst,
            r.dry_run == self.dry_run && r.no_rename == no_rename,
    {
        Mv { no_rename, ..self }
    }

    /// The copy that the move starts with.
    pub fn copy(&self) -> (r: Cp)
        ensures
            r.src == self.src && r.dst == self.dst,
            r.dry_run == self.dry_run && r.no_rename == self.no_rename,
    {
        Cp {
            src: self.src.clone(),
            dst: self.dst.clone(),
            dry_run: self.dry_run,
            no_rename: self.no_rename,
        }
    }

    /// The removal of the source that ends the move (not forced).
    pub fn removal(&self) -> (r: Rm)
        ensures
            r.workspace_root == self.workspace_root,
            r.paths@.len() == 1 && r.paths@[0] == self.src,
            !r.force && r.dry_run == self.dry_run,
    {
        Rm {
            workspace_root: self.workspace_root.clone(),
            paths: vec![self.src.clone()],
            force: false,
            dry_run: self.dry_run,
        }
    }
}

} // verus!
