//! Properties of the list edit that hold for all inputs.
use crate::manifest::rendered;
use crate::members::{
    add_report, added, current, denotes, edited, field_entries, has_lists, lists,
    remove_report, removed, report, without_location, ChangeView, ListField, RequestView,
};
use crate::path::{relative_to, same_location};
use toml_edit::Document;
use vstd::prelude::*;

verus! {

/// Adding a path to a list twice is adding it once: the second addition
/// reports nothing and leaves the entries as the first left them; the first
/// appends exactly one entry when no entry denoted the location before.
pub proof fn lemma_add_twice(
    root: Seq<char>,
    entries: Seq<Option<Seq<char>>>,
    p: Seq<char>,
    f: ListField,
)
    ensures
        ({
            let once = added(root, entries, seq![p], false);
            &&& added(root, once, seq![p], false) == once
            &&& add_report(root, once, seq![p], false, f).len() == 0
            &&& !lists(root, entries, relative_to(root, p)) ==> once == entries.push(
                Some(relative_to(root, p)),
            )
        }),
{
    let rel = relative_to(root, p);
    let none = Seq::<Seq<char>>::empty();
    assert(seq![p].drop_last() =~= none);
    assert(seq![p].last() == p);
    assert(added(root, entries, none, false) == entries);
    let once = added(root, entries, seq![p], false);
    assert(added(root, once, none, false) == once);
    assert(add_report(root, once, none, false, f) == Seq::<ChangeView>::empty());
    if !lists(root, entries, rel) {
        assert(once == entries.push(Some(rel)));
        assert(denotes(root, once[entries.len() as int], rel));
    }
    assert(lists(root, once, rel));
}

/// Removal goes by location: when an entry denotes the location of `p`, the
/// first such entry is taken out and the removal is reported; when none does,
/// the entries stay as they are and nothing is reported.
pub proof fn lemma_remove_by_location(
    root: Seq<char>,
    entries: Seq<Option<Seq<char>>>,
    p: Seq<char>,
    f: ListField,
)
    ensures
        ({
            let rel = relative_to(root, p);
            &&& lists(root, entries, rel) ==> removed(root, entries, seq![p], false)
                == without_location(root, entries, rel) && remove_report(
                root,
                entries,
                seq![p],
                false,
                f,
            ) == seq![ChangeView::Removed(f, rel)]
            &&& !lists(root, entries, rel) ==> removed(root, entries, seq![p], false) == entries
                && remove_report(root, entries, seq![p], false, f).len() == 0
        }),
{
    let none = Seq::<Seq<char>>::empty();
    assert(seq![p].drop_last() =~= none);
    assert(seq![p].last() == p);
    assert(removed(root, entries, none, false) == entries);
    assert(remove_report(root, entries, none, false, f) == Seq::<ChangeView>::empty());
    let rel = relative_to(root, p);
    if lists(root, entries, rel) {
        assert(remove_report(root, entries, seq![p], false, f) =~= seq![
            ChangeView::Removed(f, rel),
        ]);
    }
}

/// An edit that reports nothing, on a document that has both lists, leaves
/// the document's text byte for byte as it was.
pub proof fn lemma_no_op_keeps_text(
    d0: Document,
    d1: Document,
    root: Seq<char>,
    req: RequestView,
    dry_run: bool,
)
    requires
        edited(d0, d1, root, req, dry_run),
        has_lists(d0),
        report(root, d0, req, dry_run).len() == 0,
    ensures
        rendered(d1) == rendered(d0),
{
}

/// A dry run changes no entry of a list, and leaves a document that has both
/// lists (and so its text) as it was.
pub proof fn lemma_dry_run_keeps_entries(
    root: Seq<char>,
    entries: Seq<Option<Seq<char>>>,
    req: RequestView,
    f: ListField,
    d0: Document,
    d1: Document,
)
    ensures
        field_entries(root, entries, req, f, true) == entries,
        edited(d0, d1, root, req, true) && has_lists(d0) ==> rendered(d1) == rendered(d0),
{
    lemma_added_dry(root, entries, req.adds(f));
    lemma_removed_dry(root, entries, req.removals(f));
}

proof fn lemma_added_dry(root: Seq<char>, entries: Seq<Option<Seq<char>>>, adds: Seq<Seq<char>>)
    ensures
        added(root, entries, adds, true) == entries,
    decreases adds.len(),
{
    if adds.len() > 0 {
        lemma_added_dry(root, entries, adds.drop_last());
    }
}

proof fn lemma_removed_dry(root: Seq<char>, entries: Seq<Option<Seq<char>>>, rms: Seq<Seq<char>>)
    ensures
        removed(root, entries, rms, true) == entries,
    decreases rms.len(),
{
    if rms.len() > 0 {
        lemma_removed_dry(root, entries, rms.drop_last());
    }
}

/// A dry run reports what the real edit would for one path: the same
/// addition, or the same removal.
pub proof fn lemma_dry_run_reports(
    root: Seq<char>,
    entries: Seq<Option<Seq<char>>>,
    p: Seq<char>,
    f: ListField,
)
    ensures
        add_report(root, entries, seq![p], true, f) == add_report(root, entries, seq![p], false, f),
        remove_report(root, entries, seq![p], true, f) == remove_report(
            root,
            entries,
            seq![p],
            false,
            f,
        ),
{
    let none = Seq::<Seq<char>>::empty();
    assert(seq![p].drop_last() =~= none);
    assert(added(root, entries, none, true) == entries);
    assert(added(root, entries, none, false) == entries);
    assert(removed(root, entries, none, true) == entries);
    assert(removed(root, entries, none, false) == entries);
    assert(add_report(root, entries, none, true, f) == add_report(root, entries, none, false, f));
    assert(remove_report(root, entries, none, true, f) == remove_report(
        root,
        entries,
        none,
        false,
        f,
    ));
}

/// The edit that adds one path to `members`.
pub open spec fn add_member_request(p: Seq<char>) -> RequestView {
    RequestView {
        add_to_members: seq![p],
        add_to_exclude: Seq::empty(),
        rm_from_members: Seq::empty(),
        rm_from_exclude: Seq::empty(),
    }
}

/// Adding a path to `members` twice, each time as a whole edit of the
/// manifest, is adding it once: the second edit reports nothing and leaves
/// the document, and so its text, exactly as the first left it. The first
/// appends one entry when no entry denoted the location before.
pub proof fn lemma_modify_twice(
    d0: Document,
    d1: Document,
    d2: Document,
    root: Seq<char>,
    p: Seq<char>,
)
    requires
        edited(d0, d1, root, add_member_request(p), false),
        edited(d1, d2, root, add_member_request(p), false),
    ensures
        report(root, d1, add_member_request(p), false).len() == 0,
        d2 == d1,
        rendered(d2) == rendered(d1),
        current(d1, ListField::Members) == added(
            root,
            current(d0, ListField::Members),
            seq![p],
            false,
        ),
        !lists(root, current(d0, ListField::Members), relative_to(root, p)) ==> current(
            d1,
            ListField::Members,
        ) == current(d0, ListField::Members).push(Some(relative_to(root, p))),
{
    reveal_strlit("members");
    reveal_strlit("exclude");
    let m = ListField::Members;
    let x = ListField::Exclude;
    assert(m.key()[0] != x.key()[0]);
    let req = add_member_request(p);
    let none = Seq::<Seq<char>>::empty();
    let cm = current(d0, m);
    let cx = current(d0, x);
    let once = added(root, cm, seq![p], false);
    assert(removed(root, once, none, false) == once);
    assert(added(root, cx, none, false) == cx);
    assert(removed(root, cx, none, false) == cx);
    assert(current(d1, m) == once);
    assert(current(d1, x) == cx);
    lemma_add_twice(root, cm, p, m);
    assert(remove_report(root, added(root, once, seq![p], false), none, false, m).len() == 0);
    assert(add_report(root, cx, none, false, x).len() == 0);
    assert(remove_report(root, added(root, cx, none, false), none, false, x).len() == 0);
    assert(has_lists(d1));
}

} // verus!
