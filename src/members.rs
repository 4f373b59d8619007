//! The edit of a workspace's membership lists: `workspace.members` and
//! `workspace.exclude`. Entries are compared by the location they denote,
//! not by their text; additions append, removals take out the first entry
//! that denotes the location, and every addition or removal is reported.
use crate::manifest::{
    ensure_workspace_array, entries_view, parse_document, push_workspace_entry,
    remove_workspace_entry, render, rendered, workspace_array, workspace_arrays,
    workspace_is_table_like, workspace_keys, workspace_table_like,
};
use crate::path::{
    ensure_absolute, is_absolute, relative_to, relative_to_root, same_location,
    same_location_exec, segments, segments_equal, segments_of, segs_view,
};
use toml_edit::{Document, TomlError};
use vstd::prelude::*;

verus! {

/// One of the two membership lists.
#[derive(Clone, Copy, Debug, PartialEq, Eq, Structural)]
pub enum ListField {
    Members,
    Exclude,
}

impl ListField {
    /// The key of the list under the `workspace` table.
    pub open spec fn key(self) -> Seq<char> {
        match self {
            ListField::Members => "members"@,
            ListField::Exclude => "exclude"@,
        }
    }

    pub fn key_str(&self) -> (r: &'static str)
        ensures
            r@ == self.key(),
    {
        match self {
            ListField::Members => "members",
            ListField::Exclude => "exclude",
        }
    }
}

/// A reported change of a membership list, with the entry as stored.
#[derive(Debug, PartialEq, Eq)]
pub enum Change {
    Added(ListField, String),
    Removed(ListField, String),
    /// A package directory taken away, with the whole tree under it.
    RemovedDirectory(String),
}

pub enum ChangeView {
    Added(ListField, Seq<char>),
    Removed(ListField, Seq<char>),
    RemovedDirectory(Seq<char>),
}

impl View for Change {
    type V = ChangeView;

    open spec fn view(&self) -> ChangeView {
        match self {
            Change::Added(f, s) => ChangeView::Added(*f, s@),
            Change::Removed(f, s) => ChangeView::Removed(*f, s@),
            Change::RemovedDirectory(s) => ChangeView::RemovedDirectory(s@),
        }
    }
}

pub open spec fn changes_view(v: Seq<Change>) -> Seq<ChangeView> {
    v.map_values(|c: Change| c@)
}

pub open spec fn strings_view(v: Seq<String>) -> Seq<Seq<char>> {
    v.map_values(|s: String| s@)
}

/// What fails an operation on a workspace.
#[derive(Debug)]
pub enum MemberError {
    /// A path that had to be absolute was not.
    NotAbsolute(String),
    /// The workspace root was given as a member path.
    RootIsNotAMember(String),
    /// A manifest is not valid TOML.
    Manifest(TomlError),
    /// `workspace` holds something else than a table.
    WorkspaceNotATable,
    /// The list holds something else than an array.
    NotAnArray(ListField),
    /// The directory has no package manifest (and no force was given).
    NotAPackage(String),
    /// The path has no last segment to name a copy by.
    NoFileName(String),
    /// The destination of a copy exists already.
    DestinationExists(String),
    /// A package id specification names no member of the workspace.
    NotAWorkspaceMember(String),
    /// The package id that was given back could not be read.
    InvalidPackageId(String),
}

/// The paths to add to and remove from each list.
pub struct Request {
    pub add_to_members: Vec<String>,
    pub add_to_exclude: Vec<String>,
    pub rm_from_members: Vec<String>,
    pub rm_from_exclude: Vec<String>,
}

pub struct RequestView {
    pub add_to_members: Seq<Seq<char>>,
    pub add_to_exclude: Seq<Seq<char>>,
    pub rm_from_members: Seq<Seq<char>>,
    pub rm_from_exclude: Seq<Seq<char>>,
}

impl View for Request {
    type V = RequestView;

    open spec fn view(&self) -> RequestView {
        RequestView {
            add_to_members: strings_view(self.add_to_members@),
            add_to_exclude: strings_view(self.add_to_exclude@),
            rm_from_members: strings_view(self.rm_from_members@),
            rm_from_exclude: strings_view(self.rm_from_exclude@),
        }
    }
}

impl RequestView {
    pub open spec fn adds(self, f: ListField) -> Seq<Seq<char>> {
        match f {
            ListField::Members => self.add_to_members,
            ListField::Exclude => self.add_to_exclude,
        }
    }

    pub open spec fn removals(self, f: ListField) -> Seq<Seq<char>> {
        match f {
            ListField::Members => self.rm_from_members,
            ListField::Exclude => self.rm_from_exclude,
        }
    }
}

/// Whether `p` is the root itself.
pub open spec fn is_root_path(root: Seq<char>, p: Seq<char>) -> bool {
    is_absolute(p) && segments(p) == segments(root)
}

/// Whether one of the paths is the root itself.
pub open spec fn lists_root(root: Seq<char>, paths: Seq<Seq<char>>) -> bool {
    exists|i: int| 0 <= i < paths.len() && is_root_path(root, #[trigger] paths[i])
}

/// Whether the request names the root itself anywhere.
pub open spec fn names_root(root: Seq<char>, req: RequestView) -> bool {
    lists_root(root, req.add_to_members) || lists_root(root, req.add_to_exclude) || lists_root(
        root,
        req.rm_from_members,
    ) || lists_root(root, req.rm_from_exclude)
}

/// Whether the entry is a string that denotes the location of `rel`.
pub open spec fn denotes(root: Seq<char>, e: Option<Seq<char>>, rel: Seq<char>) -> bool {
    match e {
        Some(s) => same_location(root, s, rel),
        None => false,
    }
}

/// Whether some entry denotes the location of `rel`.
pub open spec fn lists(root: Seq<char>, entries: Seq<Option<Seq<char>>>, rel: Seq<char>) -> bool {
    exists|i: int| 0 <= i < entries.len() && denotes(root, #[trigger] entries[i], rel)
}

pub open spec fn is_first_match(
    root: Seq<char>,
    entries: Seq<Option<Seq<char>>>,
    rel: Seq<char>,
    i: int,
) -> bool {
    &&& 0 <= i < entries.len()
    &&& denotes(root, entries[i], rel)
    &&& forall|j: int| 0 <= j < i ==> !denotes(root, #[trigger] entries[j], rel)
}

/// The entries without the first one that denotes the location of `rel`.
pub open spec fn without_location(
    root: Seq<char>,
    entries: Seq<Option<Seq<char>>>,
    rel: Seq<char>,
) -> Seq<Option<Seq<char>>> {
    if exists|i: int| is_first_match(root, entries, rel, i) {
        entries.remove(choose|i: int| is_first_match(root, entries, rel, i))
    } else {
        entries
    }
}

/// The entries once each path of `adds` is added in turn (a dry run keeps them).
pub open spec fn added(
    root: Seq<char>,
    entries: Seq<Option<Seq<char>>>,
    adds: Seq<Seq<char>>,
    dry_run: bool,
) -> Seq<Option<Seq<char>>>
    decreases adds.len(),
{
    if adds.len() == 0 {
        entries
    } else {
        let e = added(root, entries, adds.drop_last(), dry_run);
        let rel = relative_to(root, adds.last());
        if dry_run || lists(root, e, rel) {
            e
        } else {
            e.push(Some(rel))
        }
    }
}

/// The additions reported while `adds` are added in turn.
pub open spec fn add_report(
    root: Seq<char>,
    entries: Seq<Option<Seq<char>>>,
    adds: Seq<Seq<char>>,
    dry_run: bool,
    f: ListField,
) -> Seq<ChangeView>
    decreases adds.len(),
{
    if adds.len() == 0 {
        Seq::empty()
    } else {
        let e = added(root, entries, adds.drop_last(), dry_run);
        let rel = relative_to(root, adds.last());
        let c = add_report(root, entries, adds.drop_last(), dry_run, f);
        if lists(root, e, rel) {
            c
        } else {
            c.push(ChangeView::Added(f, rel))
        }
    }
}

/// The entries once each path of `rms` is removed in turn (a dry run keeps them).
pub open spec fn removed(
    root: Seq<char>,
    entries: Seq<Option<Seq<char>>>,
    rms: Seq<Seq<char>>,
    dry_run: bool,
) -> Seq<Option<Seq<char>>>
    decreases rms.len(),
{
    if rms.len() == 0 {
        entries
    } else {
        let e = removed(root, entries, rms.drop_last(), dry_run);
        if dry_run {
            e
        } else {
            without_location(root, e, relative_to(root, rms.last()))
        }
    }
}

/// The removals reported while `rms` are removed in turn.
pub open spec fn remove_report(
    root: Seq<char>,
    entries: Seq<Option<Seq<char>>>,
    rms: Seq<Seq<char>>,
    dry_run: bool,
    f: ListField,
) -> Seq<ChangeView>
    decreases rms.len(),
{
    if rms.len() == 0 {
        Seq::empty()
    } else {
        let e = removed(root, entries, rms.drop_last(), dry_run);
        let rel = relative_to(root, rms.last());
        let c = remove_report(root, entries, rms.drop_last(), dry_run, f);
        if lists(root, e, rel) {
            c.push(ChangeView::Removed(f, rel))
        } else {
            c
        }
    }
}

/// A list after its additions, then its removals.
pub open spec fn field_entries(
    root: Seq<char>,
    entries: Seq<Option<Seq<char>>>,
    req: RequestView,
    f: ListField,
    dry_run: bool,
) -> Seq<Option<Seq<char>>> {
    removed(root, added(root, entries, req.adds(f), dry_run), req.removals(f), dry_run)
}

pub open spec fn field_report(
    root: Seq<char>,
    entries: Seq<Option<Seq<char>>>,
    req: RequestView,
    f: ListField,
    dry_run: bool,
) -> Seq<ChangeView> {
    add_report(root, entries, req.adds(f), dry_run, f) + remove_report(
        root,
        added(root, entries, req.adds(f), dry_run),
        req.removals(f),
        dry_run,
        f,
    )
}

/// The list's entries among the workspace's arrays (none when it is missing).
pub open spec fn current_in(arrays: Map<Seq<char>, Seq<Option<Seq<char>>>>, f: ListField) -> Seq<
    Option<Seq<char>>,
> {
    if arrays.contains_key(f.key()) {
        arrays[f.key()]
    } else {
        Seq::empty()
    }
}

/// The list's entries in the document (none when it is missing).
pub open spec fn current(d: Document, f: ListField) -> Seq<Option<Seq<char>>> {
    current_in(workspace_arrays(d), f)
}

/// The list is missing or an array.
pub open spec fn field_usable(d: Document, f: ListField) -> bool {
    !workspace_keys(d).contains(f.key()) || workspace_arrays(d).contains_key(f.key())
}

/// The workspace table and both lists have the shape an edit needs.
pub open spec fn usable(d: Document) -> bool {
    workspace_table_like(d) && field_usable(d, ListField::Members) && field_usable(
        d,
        ListField::Exclude,
    )
}

pub open spec fn has_lists(d: Document) -> bool {
    workspace_arrays(d).contains_key(ListField::Members.key())
        && workspace_arrays(d).contains_key(ListField::Exclude.key())
}

/// Everything an edit reports, given the workspace's arrays: the members
/// list first, then exclude.
pub open spec fn report_in(
    root: Seq<char>,
    arrays: Map<Seq<char>, Seq<Option<Seq<char>>>>,
    req: RequestView,
    dry_run: bool,
) -> Seq<ChangeView> {
    field_report(root, current_in(arrays, ListField::Members), req, ListField::Members, dry_run)
        + field_report(
        root,
        current_in(arrays, ListField::Exclude),
        req,
        ListField::Exclude,
        dry_run,
    )
}

/// The workspace's arrays after an edit.
pub open spec fn arrays_after(
    root: Seq<char>,
    arrays: Map<Seq<char>, Seq<Option<Seq<char>>>>,
    req: RequestView,
    dry_run: bool,
) -> Map<Seq<char>, Seq<Option<Seq<char>>>> {
    arrays.insert(
        ListField::Members.key(),
        field_entries(
            root,
            current_in(arrays, ListField::Members),
            req,
            ListField::Members,
            dry_run,
        ),
    ).insert(
        ListField::Exclude.key(),
        field_entries(
            root,
            current_in(arrays, ListField::Exclude),
            req,
            ListField::Exclude,
            dry_run,
        ),
    )
}

/// Whether a report holds a change of a list (and not only removals of
/// directories).
pub open spec fn changes_lists(report: Seq<ChangeView>) -> bool {
    exists|i: int| 0 <= i < report.len() && !(#[trigger] report[i] is RemovedDirectory)
}

proof fn lemma_add_report_lists(
    root: Seq<char>,
    entries: Seq<Option<Seq<char>>>,
    adds: Seq<Seq<char>>,
    dry_run: bool,
    f: ListField,
)
    ensures
        forall|i: int|
            0 <= i < add_report(root, entries, adds, dry_run, f).len() ==> !(#[trigger] add_report(
                root,
                entries,
                adds,
                dry_run,
                f,
            )[i] is RemovedDirectory),
    decreases adds.len(),
{
    if adds.len() > 0 {
        lemma_add_report_lists(root, entries, adds.drop_last(), dry_run, f);
    }
}

proof fn lemma_remove_report_lists(
    root: Seq<char>,
    entries: Seq<Option<Seq<char>>>,
    rms: Seq<Seq<char>>,
    dry_run: bool,
    f: ListField,
)
    ensures
        forall|i: int|
            0 <= i < remove_report(root, entries, rms, dry_run, f).len() ==> !(
            #[trigger] remove_report(root, entries, rms, dry_run, f)[i] is RemovedDirectory),
    decreases rms.len(),
{
    if rms.len() > 0 {
        lemma_remove_report_lists(root, entries, rms.drop_last(), dry_run, f);
    }
}

/// An edit reports changes of lists only.
pub proof fn lemma_report_changes_lists(
    root: Seq<char>,
    arrays: Map<Seq<char>, Seq<Option<Seq<char>>>>,
    req: RequestView,
    dry_run: bool,
)
    ensures
        report_in(root, arrays, req, dry_run).len() > 0 ==> changes_lists(
            report_in(root, arrays, req, dry_run),
        ),
        forall|i: int|
            0 <= i < report_in(root, arrays, req, dry_run).len() ==> !(#[trigger] report_in(
                root,
                arrays,
                req,
                dry_run,
            )[i] is RemovedDirectory),
{
    let m = ListField::Members;
    let x = ListField::Exclude;
    let cm = current_in(arrays, m);
    let cx = current_in(arrays, x);
    lemma_add_report_lists(root, cm, req.adds(m), dry_run, m);
    lemma_remove_report_lists(root, added(root, cm, req.adds(m), dry_run), req.removals(m), dry_run, m);
    lemma_add_report_lists(root, cx, req.adds(x), dry_run, x);
    lemma_remove_report_lists(root, added(root, cx, req.adds(x), dry_run), req.removals(x), dry_run, x);
    let rep = report_in(root, arrays, req, dry_run);
    assert forall|i: int| 0 <= i < rep.len() implies !(#[trigger] rep[i] is RemovedDirectory) by {
        let a = add_report(root, cm, req.adds(m), dry_run, m);
        let b = remove_report(root, added(root, cm, req.adds(m), dry_run), req.removals(m), dry_run, m);
        let c = add_report(root, cx, req.adds(x), dry_run, x);
        let d = remove_report(root, added(root, cx, req.adds(x), dry_run), req.removals(x), dry_run, x);
        assert(rep == a + b + (c + d));
        if i < a.len() {
            assert(rep[i] == a[i]);
        } else if i < a.len() + b.len() {
            assert(rep[i] == b[i - a.len()]);
        } else if i < a.len() + b.len() + c.len() {
            assert(rep[i] == c[i - a.len() - b.len()]);
        } else {
            assert(rep[i] == d[i - a.len() - b.len() - c.len()]);
        }
    }
    if rep.len() > 0 {
        assert(!(rep[0] is RemovedDirectory));
    }
}

pub open spec fn report(root: Seq<char>, d: Document, req: RequestView, dry_run: bool) -> Seq<
    ChangeView,
> {
    report_in(root, workspace_arrays(d), req, dry_run)
}

/// `d1` is `d0` with the edit made: both lists exist and hold what the edit
/// leaves, and a document with both lists that the edit does not change (a
/// dry run, or nothing to do) is left as it is.
pub open spec fn edited(
    d0: Document,
    d1: Document,
    root: Seq<char>,
    req: RequestView,
    dry_run: bool,
) -> bool {
    &&& workspace_table_like(d1)
    &&& workspace_keys(d1) == workspace_keys(d0).insert(ListField::Members.key()).insert(
        ListField::Exclude.key(),
    )
    &&& workspace_arrays(d1) == arrays_after(root, workspace_arrays(d0), req, dry_run)
    &&& (has_lists(d0) && (dry_run || report(root, d0, req, dry_run).len() == 0)) ==> d1 == d0
}

/// The first entry that denotes the location of `rel`.
fn find_location(root: &str, entries: &Vec<Option<String>>, rel: &str) -> (r: Option<usize>)
    ensures
        match r {
            Some(i) => is_first_match(root@, entries_view(entries@), rel@, i as int),
            None => !lists(root@, entries_view(entries@), rel@),
        },
{
    let ghost ev = entries_view(entries@);
    let mut i: usize = 0;
    while i < entries.len()
        invariant
            i <= entries@.len(),
            ev == entries_view(entries@),
            ev.len() == entries@.len(),
            forall|j: int| 0 <= j < i ==> !denotes(root@, #[trigger] ev[j], rel@),
        decreases entries@.len() - i,
    {
        match &entries[i] {
            Some(s) => {
                if same_location_exec(root, s.as_str(), rel) {
                    return Some(i);
                }
            },
            None => {},
        }
        i += 1;
    }
    None
}

proof fn lemma_first_match_unique(
    root: Seq<char>,
    entries: Seq<Option<Seq<char>>>,
    rel: Seq<char>,
    i: int,
)
    requires
        is_first_match(root, entries, rel, i),
    ensures
        without_location(root, entries, rel) == entries.remove(i),
{
    let j = choose|j: int| is_first_match(root, entries, rel, j);
    assert(is_first_match(root, entries, rel, j));
    if j < i {
        assert(!denotes(root, entries[j], rel));
    }
    if i < j {
        assert(!denotes(root, entries[i], rel));
    }
}

/// Applies the additions and removals of one list to the document, appending
/// what it reports to `changes`. `false` when the list holds something else
/// than an array.
fn edit_field(
    doc: &mut Document,
    root: &str,
    f: ListField,
    adds: &Vec<String>,
    rms: &Vec<String>,
    dry_run: bool,
    changes: &mut Vec<Change>,
) -> (ok: bool)
    requires
        workspace_table_like(*old(doc)),
    ensures
        workspace_table_like(*final(doc)),
        ok == field_usable(*old(doc), f),
        !ok ==> *final(doc) == *old(doc) && final(changes)@ == old(changes)@,
        ok ==> workspace_keys(*final(doc)) == workspace_keys(*old(doc)).insert(f.key()),
        ok ==> workspace_arrays(*final(doc)) == workspace_arrays(*old(doc)).insert(
            f.key(),
            removed(
                root@,
                added(root@, current(*old(doc), f), strings_view(adds@), dry_run),
                strings_view(rms@),
                dry_run,
            ),
        ),
        ok ==> changes_view(final(changes)@) == changes_view(old(changes)@) + add_report(
            root@,
            current(*old(doc), f),
            strings_view(adds@),
            dry_run,
            f,
        ) + remove_report(
            root@,
            added(root@, current(*old(doc), f), strings_view(adds@), dry_run),
            strings_view(rms@),
            dry_run,
            f,
        ),
        ok && workspace_arrays(*old(doc)).contains_key(f.key()) && (dry_run || (add_report(
            root@,
            current(*old(doc), f),
            strings_view(adds@),
            dry_run,
            f,
        ) + remove_report(
            root@,
            added(root@, current(*old(doc), f), strings_view(adds@), dry_run),
            strings_view(rms@),
            dry_run,
            f,
        )).len() == 0) ==> *final(doc) == *old(doc),
{
    let key = f.key_str();
    if !ensure_workspace_array(doc, key) {
        return false;
    }
    let ghost d0 = *doc;
    let ghost cur = current(*old(doc), f);
    let ghost c0 = changes_view(changes@);
    let ghost av = strings_view(adds@);
    let ghost rv = strings_view(rms@);
    let mut entries = workspace_array(doc, key).unwrap();
    assert(entries_view(entries@) == cur);
    assert(workspace_arrays(d0).insert(f.key(), cur) =~= workspace_arrays(d0));
    assert(av.subrange(0, 0) =~= Seq::<Seq<char>>::empty());
    assert(changes_view(changes@) =~= c0 + Seq::<ChangeView>::empty());
    let mut k: usize = 0;
    while k < adds.len()
        invariant
            k <= adds@.len(),
            av == strings_view(adds@),
            av.len() == adds@.len(),
            key@ == f.key(),
            workspace_arrays(d0).contains_key(f.key()),
            workspace_table_like(*doc),
            workspace_keys(*doc) == workspace_keys(d0),
            workspace_arrays(*doc) == workspace_arrays(d0).insert(f.key(), entries_view(entries@)),
            entries_view(entries@) == added(root@, cur, av.subrange(0, k as int), dry_run),
            changes_view(changes@) == c0 + add_report(
                root@,
                cur,
                av.subrange(0, k as int),
                dry_run,
                f,
            ),
            (dry_run || add_report(root@, cur, av.subrange(0, k as int), dry_run, f).len() == 0)
                ==> *doc == d0,
        decreases adds@.len() - k,
    {
        let ghost sub = av.subrange(0, k + 1);
        assert(sub.drop_last() =~= av.subrange(0, k as int));
        assert(sub.last() == adds@[k as int]@);
        let rel = relative_to_root(root, adds[k].as_str());
        let found = find_location(root, &entries, rel.as_str());
        if found.is_none() {
            if !dry_run {
                let ghost before = entries@;
                push_workspace_entry(doc, key, rel.as_str());
                entries.push(Some(rel.clone()));
                assert(entries_view(entries@) =~= entries_view(before).push(Some(rel@)));
            }
            let ghost cb = changes@;
            changes.push(Change::Added(f, rel));
            assert(changes_view(changes@) =~= changes_view(cb).push(ChangeView::Added(f, rel@)));
        }
        k += 1;
    }
    assert(av.subrange(0, k as int) =~= av);
    let ghost mid = entries_view(entries@);
    let ghost d1 = *doc;
    let ghost c1 = changes_view(changes@);
    assert(rv.subrange(0, 0) =~= Seq::<Seq<char>>::empty());
    assert(c1 =~= c1 + Seq::<ChangeView>::empty());
    let mut k: usize = 0;
    while k < rms.len()
        invariant
            k <= rms@.len(),
            rv == strings_view(rms@),
            rv.len() == rms@.len(),
            key@ == f.key(),
            workspace_arrays(d0).contains_key(f.key()),
            workspace_table_like(*doc),
            workspace_keys(*doc) == workspace_keys(d0),
            workspace_arrays(*doc) == workspace_arrays(d0).insert(f.key(), entries_view(entries@)),
            entries_view(entries@) == removed(root@, mid, rv.subrange(0, k as int), dry_run),
            changes_view(changes@) == c1 + remove_report(
                root@,
                mid,
                rv.subrange(0, k as int),
                dry_run,
                f,
            ),
            (dry_run || remove_report(root@, mid, rv.subrange(0, k as int), dry_run, f).len() == 0)
                ==> *doc == d1,
        decreases rms@.len() - k,
    {
        let ghost sub = rv.subrange(0, k + 1);
        assert(sub.drop_last() =~= rv.subrange(0, k as int));
        assert(sub.last() == rms@[k as int]@);
        let rel = relative_to_root(root, rms[k].as_str());
        let found = find_location(root, &entries, rel.as_str());
        match found {
            Some(i) => {
                if !dry_run {
                    let ghost before = entries_view(entries@);
                    proof {
                        lemma_first_match_unique(root@, before, rel@, i as int);
                    }
                    remove_workspace_entry(doc, key, i);
                    entries.remove(i);
                    assert(entries_view(entries@) =~= before.remove(i as int));
                }
                let ghost cb = changes@;
                changes.push(Change::Removed(f, rel));
                assert(changes_view(changes@) =~= changes_view(cb).push(
                    ChangeView::Removed(f, rel@),
                ));
            },
            None => {},
        }
        k += 1;
    }
    assert(rv.subrange(0, k as int) =~= rv);
    assert(changes_view(changes@) =~= c0 + add_report(root@, cur, av, dry_run, f) + remove_report(
        root@,
        mid,
        rv,
        dry_run,
        f,
    ));
    true
}

pub(crate) fn names_root_in(root: &str, list: &Vec<String>) -> (r: bool)
    ensures
        r == lists_root(root@, strings_view(list@)),
{
    let rs = segments_of(root);
    let mut i: usize = 0;
    while i < list.len()
        invariant
            i <= list@.len(),
            segs_view(rs@) == segments(root@),
            forall|j: int| 0 <= j < i ==> !is_root_path(root@, #[trigger] list@[j]@),
        decreases list@.len() - i,
    {
        if ensure_absolute(list[i].as_str()).is_ok() {
            let ps = segments_of(list[i].as_str());
            if segments_equal(&ps, &rs) {
                assert(strings_view(list@)[i as int] == list@[i as int]@);
                return true;
            }
        }
        i += 1;
    }
    assert forall|j: int| 0 <= j < list@.len() implies !is_root_path(
        root@,
        #[trigger] strings_view(list@)[j],
    ) by {
        assert(strings_view(list@)[j] == list@[j]@);
    }
    false
}

/// Makes the edit on a parsed document and returns what it reports. Fails,
/// before touching the document, when a path is the root itself; fails when
/// `workspace` or one of the lists has the wrong shape.
pub fn apply_changes(doc: &mut Document, root: &str, req: &Request, dry_run: bool) -> (r: Result<
    Vec<Change>,
    MemberError,
>)
    ensures
        names_root(root@, req@) <==> r matches Err(MemberError::RootIsNotAMember(_)),
        names_root(root@, req@) ==> *final(doc) == *old(doc),
        !names_root(root@, req@) && !workspace_table_like(*old(doc)) ==> r matches Err(
            MemberError::WorkspaceNotATable,
        ),
        !names_root(root@, req@) && workspace_table_like(*old(doc)) && !field_usable(
            *old(doc),
            ListField::Members,
        ) ==> r matches Err(MemberError::NotAnArray(ListField::Members)),
        !names_root(root@, req@) && workspace_table_like(*old(doc)) && field_usable(
            *old(doc),
            ListField::Members,
        ) && !field_usable(*old(doc), ListField::Exclude) ==> r matches Err(
            MemberError::NotAnArray(ListField::Exclude),
        ),
        r is Ok <==> !names_root(root@, req@) && usable(*old(doc)),
        r matches Err(MemberError::RootIsNotAMember(p)) ==> p@ == root@,
        r matches Ok(c) ==> changes_view(c@) == report(root@, *old(doc), req@, dry_run) && edited(
            *old(doc),
            *final(doc),
            root@,
            req@,
            dry_run,
        ),
{
    let ghost rq = req@;
    let a = names_root_in(root, &req.add_to_members);
    let b = names_root_in(root, &req.add_to_exclude);
    let c = names_root_in(root, &req.rm_from_members);
    let d = names_root_in(root, &req.rm_from_exclude);
    if a || b || c || d {
        return Err(MemberError::RootIsNotAMember(root.to_owned()));
    }
    if !workspace_is_table_like(doc) {
        return Err(MemberError::WorkspaceNotATable);
    }
    proof {
        reveal_strlit("members");
        reveal_strlit("exclude");
        assert(ListField::Members.key()[0] == 'm');
        assert(ListField::Exclude.key()[0] == 'e');
        assert(ListField::Members.key() != ListField::Exclude.key());
    }
    let ghost d0 = *doc;
    let mut changes: Vec<Change> = Vec::new();
    assert(changes_view(changes@) =~= Seq::<ChangeView>::empty());
    let (am, rm) = (&req.add_to_members, &req.rm_from_members);
    if !edit_field(doc, root, ListField::Members, am, rm, dry_run, &mut changes) {
        return Err(MemberError::NotAnArray(ListField::Members));
    }
    let ghost d1 = *doc;
    assert(current(d1, ListField::Exclude) == current(d0, ListField::Exclude));
    assert(field_usable(d1, ListField::Exclude) == field_usable(d0, ListField::Exclude));
    let (ax, rx) = (&req.add_to_exclude, &req.rm_from_exclude);
    if !edit_field(doc, root, ListField::Exclude, ax, rx, dry_run, &mut changes) {
        return Err(MemberError::NotAnArray(ListField::Exclude));
    }
    assert(changes_view(changes@) =~= report(root@, d0, rq, dry_run));
    proof {
        if has_lists(d0) && (dry_run || report(root@, d0, rq, dry_run).len() == 0) {
            assert(d1 == d0);
        }
    }
    Ok(changes)
}

} // verus!
