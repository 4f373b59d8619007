//! The verbs that edit a workspace's lists: bring in, exclude, deactivate,
//! focus and remove. Each takes the parsed manifest of the workspace and what
//! the file system says of the paths involved, and gives back what it reports
//! and the manifest's new text; writing files and removing directories is
//! left to the caller, which does neither in a dry run.
use crate::manifest::{
    parse_document, parses, render, rendered, workspace_arrays, workspace_table_like,
};
use crate::members::{
    apply_changes, arrays_after, edited, changes_lists, changes_view, has_lists, lemma_report_changes_lists, is_root_path, lists_root, names_root,
    names_root_in, report_in,
    strings_view, usable, Change, ChangeView, MemberError, Request, RequestView,
};
use crate::path::{ensure_absolute, is_absolute, segments, segments_equal, segments_of};
use toml_edit::Document;
use vstd::prelude::*;

verus! {

/// What a verb reports, and what becomes of the manifest.
pub struct Outcome {
    /// Every change, in the order made.
    pub changes: Vec<Change>,
    /// Whether the manifest's text changed.
    pub modified: bool,
    /// The text to write back: present when it changed, and not in a dry run.
    pub manifest: Option<String>,
}

/// `out` settles the edit of `d0` into `d1`.
pub open spec fn settles(d0: Document, d1: Document, dry_run: bool, out: Outcome) -> bool {
    &&& out.modified == (rendered(d1) != rendered(d0))
    &&& (out.manifest is Some <==> out.modified && !dry_run)
    &&& (out.manifest matches Some(t) ==> t@ == rendered(d1))
}

fn settle(before: String, d1: &Document, dry_run: bool, changes: Vec<Change>) -> (out: Outcome)
    ensures
        out.changes == changes,
        out.modified == (rendered(*d1) != before@),
        out.manifest is Some <==> out.modified && !dry_run,
        out.manifest matches Some(t) ==> t@ == rendered(*d1),
{
    let after = render(d1);
    let modified = !(after == before);
    let manifest = if modified && !dry_run {
        Some(after)
    } else {
        None
    };
    Outcome { changes, modified, manifest }
}

/// Parses a manifest.
pub fn parse_manifest(text: &str) -> (r: Result<Document, MemberError>)
    ensures
        r is Ok <==> parses(text@),
        r matches Err(e) ==> e matches MemberError::Manifest(_),
{
    match parse_document(text) {
        Ok(d) => Ok(d),
        Err(e) => Err(MemberError::Manifest(e)),
    }
}

/// Edits the lists of a workspace's manifest in one pass (see `apply_changes`).
pub fn modify_members(doc: Document, root: &str, req: &Request, dry_run: bool) -> (r: Result<
    Outcome,
    MemberError,
>)
    ensures
        names_root(root@, req@) <==> r matches Err(MemberError::RootIsNotAMember(_)),
        r is Ok <==> !names_root(root@, req@) && usable(doc),
        r matches Err(MemberError::RootIsNotAMember(p)) ==> p@ == root@,
        r matches Ok(out) ==> (has_lists(doc) && (dry_run || out.changes@.len() == 0)
            ==> !out.modified && out.manifest is None),
        r matches Ok(out) ==> changes_view(out.changes@) == report_in(
            root@,
            workspace_arrays(doc),
            req@,
            dry_run,
        ) && exists|d1: Document|
            edited(doc, d1, root@, req@, dry_run) && settles(doc, d1, dry_run, out),
{
    let mut d = doc;
    let before = render(&d);
    let changes = apply_changes(&mut d, root, req, dry_run)?;
    let out = settle(before, &d, dry_run, changes);
    assert(settles(doc, d, dry_run, out));
    assert(changes_view(out.changes@).len() == out.changes@.len());
    Ok(out)
}

/// Fails when one of `paths` is the workspace root itself; lets a caller
/// refuse such a request before it reads or writes anything.
pub fn reject_root(root: &str, paths: &Vec<String>) -> (r: Result<(), MemberError>)
    ensures
        r is Err <==> lists_root(root@, strings_view(paths@)),
        r matches Err(e) ==> (e matches MemberError::RootIsNotAMember(p) && p@ == root@),
{
    if names_root_in(root, paths) {
        Err(MemberError::RootIsNotAMember(root.to_owned()))
    } else {
        Ok(())
    }
}

/// Whether an edited manifest is worth validating with the package
/// manager: a workspace with no members and no package of its own has
/// nothing to resolve.
pub fn needs_validation(members: usize, has_package: bool) -> (r: bool)
    ensures
        r == (members > 0 || has_package),
{
    members > 0 || has_package
}

/// How a per-path verb edits the lists for one path.
#[derive(Clone, Copy, Debug, PartialEq, Eq, Structural)]
pub enum PathEdit {
    /// Into `members`, out of `exclude`.
    Include,
    /// Out of `members`, into `exclude`.
    Exclude,
    /// Out of both lists.
    Deactivate,
    /// Out of both lists, after its directory is removed.
    Remove,
}

pub open spec fn one(p: Seq<char>) -> Seq<Seq<char>> {
    seq![p]
}

pub open spec fn path_request(kind: PathEdit, p: Seq<char>) -> RequestView {
    let none = Seq::<Seq<char>>::empty();
    match kind {
        PathEdit::Include => RequestView {
            add_to_members: one(p),
            add_to_exclude: none,
            rm_from_members: none,
            rm_from_exclude: one(p),
        },
        PathEdit::Exclude => RequestView {
            add_to_members: none,
            add_to_exclude: one(p),
            rm_from_members: one(p),
            rm_from_exclude: none,
        },
        _ => RequestView {
            add_to_members: none,
            add_to_exclude: none,
            rm_from_members: one(p),
            rm_from_exclude: one(p),
        },
    }
}

/// The workspace's arrays once each path is handled in turn.
pub open spec fn run_arrays(
    root: Seq<char>,
    arrays: Map<Seq<char>, Seq<Option<Seq<char>>>>,
    paths: Seq<Seq<char>>,
    kind: PathEdit,
    dry_run: bool,
) -> Map<Seq<char>, Seq<Option<Seq<char>>>>
    decreases paths.len(),
{
    if paths.len() == 0 {
        arrays
    } else {
        arrays_after(
            root,
            run_arrays(root, arrays, paths.drop_last(), kind, dry_run),
            path_request(kind, paths.last()),
            dry_run,
        )
    }
}

/// What is reported while each path is handled in turn.
pub open spec fn run_report(
    root: Seq<char>,
    arrays: Map<Seq<char>, Seq<Option<Seq<char>>>>,
    paths: Seq<Seq<char>>,
    kind: PathEdit,
    dry_run: bool,
) -> Seq<ChangeView>
    decreases paths.len(),
{
    if paths.len() == 0 {
        Seq::empty()
    } else {
        let before = run_arrays(root, arrays, paths.drop_last(), kind, dry_run);
        let p = paths.last();
        let directory = if kind == PathEdit::Remove {
            seq![ChangeView::RemovedDirectory(p)]
        } else {
            Seq::empty()
        };
        run_report(root, arrays, paths.drop_last(), kind, dry_run) + directory + report_in(
            root,
            before,
            path_request(kind, p),
            dry_run,
        )
    }
}

/// Every path passes: it is not the root, and it is a package unless that
/// is not asked.
pub open spec fn paths_pass(
    root: Seq<char>,
    paths: Seq<Seq<char>>,
    check_package: bool,
    is_package: Seq<bool>,
) -> bool {
    forall|k: int|
        0 <= k < paths.len() ==> !is_root_path(root, #[trigger] paths[k]) && (!check_package
            || is_package[k])
}

proof fn lemma_request_names_root(root: Seq<char>, kind: PathEdit, p: Seq<char>)
    ensures
        names_root(root, path_request(kind, p)) <==> is_root_path(root, p),
{
    assert(one(p)[0] == p);
}

pub(crate) fn request_for(kind: PathEdit, p: &String) -> (r: Request)
    ensures
        r@ == path_request(kind, p@),
{
    let r = match kind {
        PathEdit::Include => Request {
            add_to_members: vec![p.clone()],
            add_to_exclude: Vec::new(),
            rm_from_members: Vec::new(),
            rm_from_exclude: vec![p.clone()],
        },
        PathEdit::Exclude => Request {
            add_to_members: Vec::new(),
            add_to_exclude: vec![p.clone()],
            rm_from_members: vec![p.clone()],
            rm_from_exclude: Vec::new(),
        },
        _ => Request {
            add_to_members: Vec::new(),
            add_to_exclude: Vec::new(),
            rm_from_members: vec![p.clone()],
            rm_from_exclude: vec![p.clone()],
        },
    };
    assert(strings_view(r.add_to_members@) =~= path_request(kind, p@).add_to_members);
    assert(strings_view(r.add_to_exclude@) =~= path_request(kind, p@).add_to_exclude);
    assert(strings_view(r.rm_from_members@) =~= path_request(kind, p@).rm_from_members);
    assert(strings_view(r.rm_from_exclude@) =~= path_request(kind, p@).rm_from_exclude);
    r
}

/// Handling the path at `k` fails: it is the root, or it must be a package
/// and is not.
pub open spec fn step_fails(
    root: Seq<char>,
    paths: Seq<Seq<char>>,
    check_package: bool,
    is_package: Seq<bool>,
    k: int,
) -> bool {
    is_root_path(root, paths[k]) || (check_package && !is_package[k])
}

/// `k` is the first path whose handling fails.
pub open spec fn first_failure(
    root: Seq<char>,
    paths: Seq<Seq<char>>,
    check_package: bool,
    is_package: Seq<bool>,
    k: int,
) -> bool {
    &&& 0 <= k < paths.len()
    &&& step_fails(root, paths, check_package, is_package, k)
    &&& forall|j: int| 0 <= j < k ==> !step_fails(root, paths, check_package, is_package, j)
}

/// The error for a failing path: `NotAPackage` naming it when its package
/// is missing (that is checked first), else `RootIsNotAMember` naming the
/// root.
pub open spec fn fails_as(root: Seq<char>, path: String, package_missing: bool, e: MemberError) -> bool {
    if package_missing {
        e matches MemberError::NotAPackage(p) && p == path
    } else {
        e matches MemberError::RootIsNotAMember(p) && p@ == root
    }
}

proof fn lemma_first_failure_at(
    root: Seq<char>,
    pv: Seq<Seq<char>>,
    check_package: bool,
    is_package: Seq<bool>,
    k: int,
)
    requires
        0 <= k < pv.len(),
        step_fails(root, pv, check_package, is_package, k),
        paths_pass(root, pv.subrange(0, k), check_package, is_package),
    ensures
        forall|k2: int| #[trigger] first_failure(root, pv, check_package, is_package, k2) ==> k2 == k,
{
    assert forall|k2: int| #[trigger] first_failure(root, pv, check_package, is_package, k2) implies k2
        == k by {
        if k2 < k {
            assert(pv.subrange(0, k)[k2] == pv[k2]);
        }
    }
}

/// Handles each path in turn on `doc`.
fn run(
    doc: &mut Document,
    root: &str,
    paths: &Vec<String>,
    kind: PathEdit,
    check_package: bool,
    is_package: &Vec<bool>,
    dry_run: bool,
) -> (r: Result<Vec<Change>, MemberError>)
    requires
        check_package ==> is_package@.len() == paths@.len(),
    ensures
        r is Ok <==> paths_pass(root@, strings_view(paths@), check_package, is_package@) && (
        paths@.len() > 0 ==> usable(*old(doc))),
        forall|k: int|
            #[trigger] first_failure(root@, strings_view(paths@), check_package, is_package@, k)
                && (k == 0 || usable(*old(doc))) ==> (r matches Err(e) && fails_as(
                root@,
                paths@[k],
                check_package && !is_package@[k],
                e,
            )),
        r matches Ok(c) ==> changes_view(c@) == run_report(
            root@,
            workspace_arrays(*old(doc)),
            strings_view(paths@),
            kind,
            dry_run,
        ) && workspace_arrays(*final(doc)) == run_arrays(
            root@,
            workspace_arrays(*old(doc)),
            strings_view(paths@),
            kind,
            dry_run,
        ),
        r matches Ok(c) ==> (has_lists(*old(doc)) && (dry_run || !changes_lists(changes_view(c@)))
            ==> *final(doc) == *old(doc)),
{
    let ghost d0 = *doc;
    let ghost pv = strings_view(paths@);
    let ghost flags = is_package@;
    let mut changes: Vec<Change> = Vec::new();
    let mut k: usize = 0;
    assert(pv.subrange(0, 0) =~= Seq::<Seq<char>>::empty());
    assert(changes_view(changes@) =~= Seq::<ChangeView>::empty());
    while k < paths.len()
        invariant
            k <= paths@.len(),
            check_package ==> is_package@.len() == paths@.len(),
            flags == is_package@,
            pv == strings_view(paths@),
            pv.len() == paths@.len(),
            d0 == *old(doc),
            k == 0 ==> *doc == d0,
            k > 0 ==> usable(*doc) && usable(d0),
            paths_pass(root@, pv.subrange(0, k as int), check_package, is_package@),
            changes_view(changes@) == run_report(
                root@,
                workspace_arrays(d0),
                pv.subrange(0, k as int),
                kind,
                dry_run,
            ),
            workspace_arrays(*doc) == run_arrays(
                root@,
                workspace_arrays(d0),
                pv.subrange(0, k as int),
                kind,
                dry_run,
            ),
            has_lists(d0) && (dry_run || !changes_lists(changes_view(changes@))) ==> *doc == d0,
        decreases paths@.len() - k,
    {
        let ghost sub = pv.subrange(0, k + 1);
        assert(sub.drop_last() =~= pv.subrange(0, k as int));
        assert(sub.last() == paths@[k as int]@);
        let p = &paths[k];
        proof {
            assert(pv[k as int] == p@);
        }
        if check_package && !is_package[k] {
            proof {
                lemma_first_failure_at(root@, pv, check_package, flags, k as int);
            }
            assert(!paths_pass(root@, pv, check_package, is_package@));
            return Err(MemberError::NotAPackage(p.clone()));
        }
        let req = request_for(kind, p);
        proof {
            lemma_request_names_root(root@, kind, p@);
        }
        let ghost dk = *doc;
        let mut c = match apply_changes(doc, root, &req, dry_run) {
            Ok(c) => c,
            Err(e) => {
                proof {
                    if is_root_path(root@, p@) {
                        assert(!paths_pass(root@, pv, check_package, is_package@));
                        lemma_first_failure_at(root@, pv, check_package, flags, k as int);
                    } else {
                        assert(!usable(dk));
                        assert(k == 0);
                        assert(!usable(d0));
                        assert(!step_fails(root@, pv, check_package, flags, 0));
                    }
                }
                return Err(e);
            },
        };
        let ghost cb = changes@;
        if kind == PathEdit::Remove {
            changes.push(Change::RemovedDirectory(p.clone()));
        }
        changes.append(&mut c);
        proof {
            let directory = if kind == PathEdit::Remove {
                seq![ChangeView::RemovedDirectory(p@)]
            } else {
                Seq::<ChangeView>::empty()
            };
            let rep = report_in(root@, workspace_arrays(dk), path_request(kind, p@), dry_run);
            let old_v = changes_view(cb);
            let new_v = changes_view(changes@);
            assert(new_v =~= old_v + directory + rep);
            lemma_report_changes_lists(root@, workspace_arrays(dk), path_request(kind, p@), dry_run);
            if has_lists(d0) && (dry_run || !changes_lists(new_v)) {
                if !dry_run {
                    if changes_lists(old_v) {
                        let i = choose|i: int|
                            0 <= i < old_v.len() && !(#[trigger] old_v[i] is RemovedDirectory);
                        assert(new_v[i] == old_v[i]);
                    }
                    if rep.len() > 0 {
                        let idx = (old_v.len() + directory.len()) as int;
                        assert(new_v[idx] == rep[0]);
                        assert(!(rep[0] is RemovedDirectory));
                    }
                }
                assert(dk == d0);
            }
            assert(paths_pass(root@, pv.subrange(0, k + 1), check_package, is_package@)) by {
                assert forall|j: int| 0 <= j < k + 1 implies !is_root_path(
                    root@,
                    #[trigger] pv.subrange(0, k + 1)[j],
                ) && (!check_package || is_package@[j]) by {
                    if j < k {
                        assert(pv.subrange(0, k + 1)[j] == pv.subrange(0, k as int)[j]);
                    }
                }
            }
        }
        k += 1;
    }
    assert(pv.subrange(0, k as int) =~= pv);
    proof {
        assert forall|k2: int| #[trigger] first_failure(root@, pv, check_package, flags, k2) implies false by {
            assert(pv.subrange(0, k as int)[k2] == pv[k2]);
        }
    }
    Ok(changes)
}

/// The index of the first path that is not absolute.
fn first_relative(paths: &Vec<String>) -> (r: Option<usize>)
    ensures
        match r {
            Some(i) => i < paths@.len() && !is_absolute(paths@[i as int]@) && forall|j: int|
                0 <= j < i ==> is_absolute(#[trigger] paths@[j]@),
            None => forall|j: int| 0 <= j < paths@.len() ==> is_absolute(#[trigger] paths@[j]@),
        },
{
    let mut i: usize = 0;
    while i < paths.len()
        invariant
            i <= paths@.len(),
            forall|j: int| 0 <= j < i ==> is_absolute(#[trigger] paths@[j]@),
        decreases paths@.len() - i,
    {
        if ensure_absolute(paths[i].as_str()).is_err() {
            return Some(i);
        }
        i += 1;
    }
    None
}

pub open spec fn all_absolute(paths: Seq<String>) -> bool {
    forall|j: int| 0 <= j < paths.len() ==> is_absolute(#[trigger] paths[j]@)
}

/// What a per-path verb owes: the root and the paths must be absolute; then
/// each path is handled in turn, and the outcome settles the edit.
pub open spec fn per_path_contract(
    root: String,
    paths: Seq<String>,
    kind: PathEdit,
    check_package: bool,
    is_package: Seq<bool>,
    dry_run: bool,
    doc: Document,
    r: Result<Outcome, MemberError>,
) -> bool {
    &&& !is_absolute(root@) ==> (r matches Err(MemberError::NotAbsolute(p)) && p == root)
    &&& is_absolute(root@) && !all_absolute(paths) ==> (r matches Err(MemberError::NotAbsolute(_)))
    &&& r is Ok <==> is_absolute(root@) && all_absolute(paths) && paths_pass(
        root@,
        strings_view(paths),
        check_package,
        is_package,
    ) && (paths.len() > 0 ==> usable(doc))
    &&& is_absolute(root@) && all_absolute(paths) ==> forall|k: int|
        #[trigger] first_failure(root@, strings_view(paths), check_package, is_package, k) && (k
            == 0 || usable(doc)) ==> (r matches Err(e) && fails_as(
            root@,
            paths[k],
            check_package && !is_package[k],
            e,
        ))
    &&& (r matches Ok(out) ==> (has_lists(doc) && (dry_run || !changes_lists(
        changes_view(out.changes@),
    )) ==> !out.modified && out.manifest is None))
    &&& (r matches Ok(out) ==> changes_view(out.changes@) == run_report(
        root@,
        workspace_arrays(doc),
        strings_view(paths),
        kind,
        dry_run,
    ) && exists|d1: Document|
        workspace_arrays(d1) == run_arrays(
            root@,
            workspace_arrays(doc),
            strings_view(paths),
            kind,
            dry_run,
        ) && settles(doc, d1, dry_run, out))
}

fn per_path(
    doc: Document,
    root: &String,
    paths: &Vec<String>,
    kind: PathEdit,
    check_package: bool,
    is_package: &Vec<bool>,
    dry_run: bool,
) -> (r: Result<Outcome, MemberError>)
    requires
        check_package ==> is_package@.len() == paths@.len(),
    ensures
        per_path_contract(*root, paths@, kind, check_package, is_package@, dry_run, doc, r),
{
    if ensure_absolute(root.as_str()).is_err() {
        return Err(MemberError::NotAbsolute(root.clone()));
    }
    match first_relative(paths) {
        Some(i) => {
            return Err(MemberError::NotAbsolute(paths[i].clone()));
        },
        None => {},
    }
    let mut d = doc;
    let before = render(&d);
    let changes = run(&mut d, root.as_str(), paths, kind, check_package, is_package, dry_run)?;
    let out = settle(before, &d, dry_run, changes);
    assert(settles(doc, d, dry_run, out));
    assert(out.changes@ == changes@);
    Ok(out)
}

/// Brings paths into the workspace: each joins `members` and leaves
/// `exclude`. A path must hold a package unless forced.
pub struct Include {
    pub workspace_root: String,
    pub paths: Vec<String>,
    pub force: bool,
    pub dry_run: bool,
    pub offline: bool,
}

impl Include {
    pub fn new(workspace_root: String, paths: Vec<String>) -> (r: Self)
        ensures
            r.workspace_root == workspace_root,
            r.paths == paths,
            !r.force && !r.dry_run && !r.offline,
    {
        Include { workspace_root, paths, force: false, dry_run: false, offline: false }
    }

    pub fn force(self, force: bool) -> (r: Self)
        ensures
            r.workspace_root == self.workspace_root && r.paths == self.paths,
            r.force == force && r.dry_run == self.dry_run && r.offline == self.offline,
    {
        Include { force, ..self }
    }

    pub fn dry_run(self, dry_run: bool) -> (r: Self)
        ensures
            r.workspace_root == self.workspace_root && r.paths == self.paths,
            r.force == self.force && r.dry_run == dry_run && r.offline == self.offline,
    {
        Include { dry_run, ..self }
    }

    pub fn offline(self, offline: bool) -> (r: Self)
        ensures
            r.workspace_root == self.workspace_root && r.paths == self.paths,
            r.force == self.force && r.dry_run == self.dry_run && r.offline == offline,
    {
        Include { offline, ..self }
    }

    /// `is_package[i]` tells whether `paths[i]` holds a package manifest.
    pub fn exec(self, manifest: Document, is_package: &Vec<bool>) -> (r: Result<
        Outcome,
        MemberError,
    >)
        requires
            is_package@.len() == self.paths@.len(),
        ensures
            per_path_contract(
                self.workspace_root,
                self.paths@,
                PathEdit::Include,
                !self.force,
                is_package@,
                self.dry_run,
                manifest,
                r,
            ),
    {
        let (root, paths) = (&self.workspace_root, &self.paths);
        per_path(manifest, root, paths, PathEdit::Include, !self.force, is_package, self.dry_run)
    }
}

/// Takes paths out of the workspace's build: each leaves `members` and joins
/// `exclude`.
pub struct Exclude {
    pub workspace_root: String,
    pub paths: Vec<String>,
    pub dry_run: bool,
}

impl Exclude {
    pub fn new(workspace_root: String, paths: Vec<String>) -> (r: Self)
        ensures
            r.workspace_root == workspace_root && r.paths == paths && !r.dry_run,
    {
        Exclude { workspace_root, paths, dry_run: false }
    }

    pub fn dry_run(self, dry_run: bool) -> (r: Self)
        ensures
            r.workspace_root == self.workspace_root && r.paths == self.paths,
            r.dry_run == dry_run,
    {
        Exclude { dry_run, ..self }
    }

    pub fn exec(self, manifest: Document) -> (r: Result<Outcome, MemberError>)
        ensures
            per_path_contract(
                self.workspace_root,
                self.paths@,
                PathEdit::Exclude,
                false,
                Seq::empty(),
                self.dry_run,
                manifest,
                r,
            ),
    {
        let none: Vec<bool> = Vec::new();
        let (root, paths) = (&self.workspace_root, &self.paths);
        per_path(manifest, root, paths, PathEdit::Exclude, false, &none, self.dry_run)
    }
}

/// Takes paths out of both lists.
pub struct Deactivate {
    pub workspace_root: String,
    pub paths: Vec<String>,
    pub dry_run: bool,
}

impl Deactivate {
    pub fn new(workspace_root: String, paths: Vec<String>) -> (r: Self)
        ensures
            r.workspace_root == workspace_root && r.paths == paths && !r.dry_run,
    {
        Deactivate { workspace_root, paths, dry_run: false }
    }

    pub fn dry_run(self, dry_run: bool) -> (r: Self)
        ensures
            r.workspace_root == self.workspace_root && r.paths == self.paths,
            r.dry_run == dry_run,
    {
        Deactivate { dry_run, ..self }
    }

    pub fn exec(self, manifest: Document) -> (r: Result<Outcome, MemberError>)
        ensures
            per_path_contract(
                self.workspace_root,
                self.paths@,
                PathEdit::Deactivate,
                false,
                Seq::empty(),
                self.dry_run,
                manifest,
                r,
            ),
    {
        let none: Vec<bool> = Vec::new();
        let (root, paths) = (&self.workspace_root, &self.paths);
        per_path(manifest, root, paths, PathEdit::Deactivate, false, &none, self.dry_run)
    }
}

/// Removes package directories and takes them out of both lists. A path must
/// hold a package unless forced.
pub struct Rm {
    pub workspace_root: String,
    pub paths: Vec<String>,
    pub force: bool,
    pub dry_run: bool,
}

impl Rm {
    pub fn new(workspace_root: String, paths: Vec<String>) -> (r: Self)
        ensures
            r.workspace_root == workspace_root && r.paths == paths && !r.force && !r.dry_run,
    {
        Rm { workspace_root, paths, force: false, dry_run: false }
    }

    pub fn force(self, force: bool) -> (r: Self)
        ensures
            r.workspace_root == self.workspace_root && r.paths == self.paths,
            r.force == force && r.dry_run == self.dry_run,
    {
        Rm { force, ..self }
    }

    pub fn dry_run(self, dry_run: bool) -> (r: Self)
        ensures
            r.workspace_root == self.workspace_root && r.paths == self.paths,
            r.force == self.force && r.dry_run == dry_run,
    {
        Rm { dry_run, ..self }
    }

    /// Each path's removal is reported (`RemovedDirectory`) before what it
    /// changes in the lists; `is_package[i]` tells whether `paths[i]` holds a
    /// package manifest.
    pub fn exec(self, manifest: Document, is_package: &Vec<bool>) -> (r: Result<
        Outcome,
        MemberError,
    >)
        requires
            is_package@.len() == self.paths@.len(),
        ensures
            per_path_contract(
                self.workspace_root,
                self.paths@,
                PathEdit::Remove,
                !self.force,
                is_package@,
                self.dry_run,
                manifest,
                r,
            ),
    {
        let (root, paths) = (&self.workspace_root, &self.paths);
        per_path(manifest, root, paths, PathEdit::Remove, !self.force, is_package, self.dry_run)
    }
}

/// Two absolute paths name one directory.
pub open spec fn same_dir(a: Seq<char>, b: Seq<char>) -> bool {
    is_absolute(a) == is_absolute(b) && segments(a) == segments(b)
}

/// The directories other than `root` and `path`, in order.
pub open spec fn others(root: Seq<char>, path: Seq<char>, dirs: Seq<Seq<char>>) -> Seq<Seq<char>>
    decreases dirs.len(),
{
    if dirs.len() == 0 {
        Seq::empty()
    } else {
        let o = others(root, path, dirs.drop_last());
        if same_dir(root, dirs.last()) || same_dir(path, dirs.last()) {
            o
        } else {
            o.push(dirs.last())
        }
    }
}

fn same_dir_exec(a: &str, b: &str) -> (r: bool)
    ensures
        r == same_dir(a@, b@),
{
    let sa = segments_of(a);
    let sb = segments_of(b);
    ensure_absolute(a).is_ok() == ensure_absolute(b).is_ok() && segments_equal(&sa, &sb)
}

/// The directories of `dirs` other than `root` and `path`.
pub fn other_dirs(root: &str, path: &str, dirs: &Vec<String>) -> (r: Vec<String>)
    ensures
        strings_view(r@) == others(root@, path@, strings_view(dirs@)),
{
    let ghost dv = strings_view(dirs@);
    let mut r: Vec<String> = Vec::new();
    let mut i: usize = 0;
    assert(dv.subrange(0, 0) =~= Seq::<Seq<char>>::empty());
    assert(strings_view(r@) =~= Seq::<Seq<char>>::empty());
    while i < dirs.len()
        invariant
            i <= dirs@.len(),
            dv == strings_view(dirs@),
            dv.len() == dirs@.len(),
            strings_view(r@) == others(root@, path@, dv.subrange(0, i as int)),
        decreases dirs@.len() - i,
    {
        let ghost sub = dv.subrange(0, i + 1);
        assert(sub.drop_last() =~= dv.subrange(0, i as int));
        assert(sub.last() == dirs@[i as int]@);
        let d = &dirs[i];
        if !(same_dir_exec(root, d.as_str()) || same_dir_exec(path, d.as_str())) {
            let ghost before = r@;
            r.push(d.clone());
            assert(strings_view(r@) =~= strings_view(before).push(d@));
        }
        i += 1;
    }
    assert(dv.subrange(0, i as int) =~= dv);
    r
}

/// The edit that focuses on `path`: it joins `members` and leaves `exclude`,
/// every other directory leaves `members` and joins `exclude`.
pub open spec fn focus_request(path: Seq<char>, excluded: Seq<Seq<char>>) -> RequestView {
    RequestView {
        add_to_members: seq![path],
        add_to_exclude: excluded,
        rm_from_members: excluded,
        rm_from_exclude: seq![path],
    }
}

/// Includes one package and excludes every other package of the workspace.
pub struct Focus {
    pub workspace_root: String,
    pub path: String,
    pub dry_run: bool,
    pub offline: bool,
}

impl Focus {
    pub fn new(workspace_root: String, path: String) -> (r: Self)
        ensures
            r.workspace_root == workspace_root && r.path == path && !r.dry_run && !r.offline,
    {
        Focus { workspace_root, path, dry_run: false, offline: false }
    }

    pub fn dry_run(self, dry_run: bool) -> (r: Self)
        ensures
            r.workspace_root == self.workspace_root && r.path == self.path,
            r.dry_run == dry_run && r.offline == self.offline,
    {
        Focus { dry_run, ..self }
    }

    pub fn offline(self, offline: bool) -> (r: Self)
        ensures
            r.workspace_root == self.workspace_root && r.path == self.path,
            r.dry_run == self.dry_run && r.offline == offline,
    {
        Focus { offline, ..self }
    }

    /// `manifest_dirs` are the directories of the workspace tree that hold a
    /// manifest, in the order found.
    pub fn exec(self, manifest: Document, manifest_dirs: &Vec<String>) -> (r: Result<
        Outcome,
        MemberError,
    >)
        ensures
            !is_absolute(self.workspace_root@) ==> (r matches Err(MemberError::NotAbsolute(p))
                && p == self.workspace_root),
            is_absolute(self.workspace_root@) && !is_absolute(self.path@) ==> (r matches Err(
                MemberError::NotAbsolute(p),
            ) && p == self.path),
            ({
                let req = focus_request(
                    self.path@,
                    others(self.workspace_root@, self.path@, strings_view(manifest_dirs@)),
                );
                &&& r is Ok <==> is_absolute(self.workspace_root@) && is_absolute(self.path@)
                    && !names_root(self.workspace_root@, req) && usable(manifest)
                &&& is_absolute(self.workspace_root@) && is_absolute(self.path@) && names_root(
                    self.workspace_root@,
                    req,
                ) ==> (r matches Err(MemberError::RootIsNotAMember(p)) && p@ == self.workspace_root@)
                &&& r matches Ok(out) ==> (has_lists(manifest) && (self.dry_run
                    || out.changes@.len() == 0) ==> !out.modified && out.manifest is None)
                &&& r matches Ok(out) ==> changes_view(out.changes@) == report_in(
                    self.workspace_root@,
                    workspace_arrays(manifest),
                    req,
                    self.dry_run,
                ) && exists|d1: Document|
                    workspace_arrays(d1) == arrays_after(
                        self.workspace_root@,
                        workspace_arrays(manifest),
                        req,
                        self.dry_run,
                    ) && settles(manifest, d1, self.dry_run, out)
            }),
    {
        if ensure_absolute(self.workspace_root.as_str()).is_err() {
            return Err(MemberError::NotAbsolute(self.workspace_root));
        }
        if ensure_absolute(self.path.as_str()).is_err() {
            return Err(MemberError::NotAbsolute(self.path));
        }
        let excluded = other_dirs(self.workspace_root.as_str(), self.path.as_str(), manifest_dirs);
        let req = Request {
            add_to_members: vec![self.path.clone()],
            add_to_exclude: excluded.clone(),
            rm_from_members: excluded,
            rm_from_exclude: vec![self.path.clone()],
        };
        assert(req@.add_to_members =~= seq![self.path@]);
        assert(req@.rm_from_exclude =~= seq![self.path@]);
        modify_members(manifest, self.workspace_root.as_str(), &req, self.dry_run)
    }
}

} // verus!
