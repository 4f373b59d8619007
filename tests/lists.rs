use cargo_member::{
    absolute_from, modify_members, parse_manifest, reject_root, Change, Deactivate, Exclude, Focus,
    Include, ListField, MemberError, Request, Rm,
};

const ORIGINAL: &str = "[workspace]\nmembers = [\"a\", \"b\"]\nexclude = []\n";

fn s(v: &str) -> String {
    v.to_owned()
}

#[test]
fn normal() {
    let doc = parse_manifest(ORIGINAL).unwrap();
    let out = Exclude::new(s("/ws"), vec![s("/ws/b")]).dry_run(false).exec(doc).unwrap();
    assert_eq!(
        out.changes,
        vec![Change::Removed(ListField::Members, s("b")), Change::Added(ListField::Exclude, s("b"))]
    );
    assert!(out.modified);
    assert_eq!(
        out.manifest.as_deref(),
        Some("[workspace]\nmembers = [\"a\"]\nexclude = [\"b\"]\n")
    );
}

#[test]
fn dry_run() {
    let doc = parse_manifest(ORIGINAL).unwrap();
    let out = Exclude::new(s("/ws"), vec![s("/ws/b")]).dry_run(true).exec(doc).unwrap();
    assert_eq!(
        out.changes,
        vec![Change::Removed(ListField::Members, s("b")), Change::Added(ListField::Exclude, s("b"))]
    );
    assert!(!out.modified);
    assert!(out.manifest.is_none());
}

#[test]
fn include_twice_reports_once() {
    let doc = parse_manifest("[workspace]\nmembers = []\nexclude = []\n").unwrap();
    let out = Include::new(s("/ws"), vec![s("/ws/a")]).exec(doc, &vec![true]).unwrap();
    assert_eq!(out.changes, vec![Change::Added(ListField::Members, s("a"))]);
    let text = out.manifest.unwrap();
    assert_eq!(text, "[workspace]\nmembers = [\"a\"]\nexclude = []\n");
    let again = Include::new(s("/ws"), vec![s("/ws/./a/")])
        .exec(parse_manifest(&text).unwrap(), &vec![true])
        .unwrap();
    assert!(again.changes.is_empty());
    assert!(!again.modified);
    assert!(again.manifest.is_none());
}

#[test]
fn same_path_twice_in_one_call_is_added_once() {
    let doc = parse_manifest("[workspace]\nmembers = []\n").unwrap();
    let req = Request {
        add_to_members: vec![s("/ws/a"), s("/ws/a")],
        add_to_exclude: vec![],
        rm_from_members: vec![],
        rm_from_exclude: vec![],
    };
    let out = modify_members(doc, "/ws", &req, false).unwrap();
    assert_eq!(out.changes, vec![Change::Added(ListField::Members, s("a"))]);
    assert_eq!(
        out.manifest.as_deref(),
        Some("[workspace]\nmembers = [\"a\"]\nexclude = []\n")
    );
}

#[test]
fn removal_goes_by_location() {
    for p in ["/ws/b", "/ws/./b", "/ws//b/"] {
        let doc = parse_manifest("[workspace]\nmembers = [\"b\"]\n").unwrap();
        let out = Deactivate::new(s("/ws"), vec![s(p)]).exec(doc).unwrap();
        assert_eq!(out.changes.len(), 1);
        assert_eq!(
            out.manifest.as_deref(),
            Some("[workspace]\nmembers = []\nexclude = []\n")
        );
    }
    let doc = parse_manifest("[workspace]\nmembers = [\"./b\"]\nexclude = []\n").unwrap();
    let out = Deactivate::new(s("/ws"), vec![s("/ws/b")]).exec(doc).unwrap();
    assert_eq!(out.changes, vec![Change::Removed(ListField::Members, s("b"))]);
}

#[test]
fn typed_dot_path_is_removed() {
    let p = absolute_from("/ws", "./b");
    let doc = parse_manifest("[workspace]\nmembers = [\"b\"]\nexclude = []\n").unwrap();
    let out = Deactivate::new(s("/ws"), vec![p]).exec(doc).unwrap();
    assert_eq!(out.changes, vec![Change::Removed(ListField::Members, s("b"))]);
    assert_eq!(
        out.manifest.as_deref(),
        Some("[workspace]\nmembers = []\nexclude = []\n")
    );
}

#[test]
fn root_is_refused_up_front() {
    assert!(reject_root("/ws", &vec![s("/ws/a"), s("/ws/b")]).is_ok());
    assert!(matches!(
        reject_root("/ws", &vec![s("/ws/a"), s("/ws/")]),
        Err(MemberError::RootIsNotAMember(r)) if r == "/ws"
    ));
}

#[test]
fn a_missing_package_is_named() {
    let r = Include::new(s("/ws"), vec![s("/ws/a"), s("/ws/c"), s("/ws")])
        .exec(parse_manifest(ORIGINAL).unwrap(), &vec![true, false, true]);
    assert!(matches!(r, Err(MemberError::NotAPackage(p)) if p == "/ws/c"));
    let r = Include::new(s("/ws"), vec![s("/ws/a"), s("/ws"), s("/ws/c")])
        .exec(parse_manifest(ORIGINAL).unwrap(), &vec![true, true, false]);
    assert!(matches!(r, Err(MemberError::RootIsNotAMember(p)) if p == "/ws"));
}

#[test]
fn array_slots_that_are_not_strings_stay() {
    let doc = parse_manifest("[workspace]\nmembers = [1, \"b\", \"c\"]\nexclude = []\n").unwrap();
    let out = Deactivate::new(s("/ws"), vec![s("/ws/c")]).exec(doc).unwrap();
    assert_eq!(out.changes, vec![Change::Removed(ListField::Members, s("c"))]);
    assert_eq!(
        out.manifest.as_deref(),
        Some("[workspace]\nmembers = [1, \"b\"]\nexclude = []\n")
    );
}

#[test]
fn removing_an_unlisted_path_changes_nothing() {
    let doc = parse_manifest("[workspace]\nmembers = [\"b\"]\nexclude = []\n").unwrap();
    let out = Deactivate::new(s("/ws"), vec![s("/ws/c")]).exec(doc).unwrap();
    assert!(out.changes.is_empty());
    assert!(!out.modified);
    assert!(out.manifest.is_none());
}

#[test]
fn comments_and_other_keys_survive() {
    let text = "# the workspace\n[workspace]\n# members\nmembers = [\"a\"] # keep\nexclude = []\nresolver = \"2\"\n\n[profile.release]\nlto = true\n";
    let out = Include::new(s("/ws"), vec![s("/ws/a")])
        .exec(parse_manifest(text).unwrap(), &vec![true])
        .unwrap();
    assert!(out.changes.is_empty());
    assert!(!out.modified);
    let out = Include::new(s("/ws"), vec![s("/ws/c")])
        .exec(parse_manifest(text).unwrap(), &vec![true])
        .unwrap();
    assert_eq!(
        out.manifest.as_deref(),
        Some("# the workspace\n[workspace]\n# members\nmembers = [\"a\", \"c\"] # keep\nexclude = []\nresolver = \"2\"\n\n[profile.release]\nlto = true\n")
    );
}

#[test]
fn root_is_rejected() {
    for root_like in ["/ws", "/ws/", "/ws/."] {
        let r = Include::new(s("/ws"), vec![s(root_like)])
            .exec(parse_manifest(ORIGINAL).unwrap(), &vec![true]);
        assert!(matches!(r, Err(MemberError::RootIsNotAMember(_))));
        let r = Exclude::new(s("/ws"), vec![s(root_like)]).exec(parse_manifest(ORIGINAL).unwrap());
        assert!(matches!(r, Err(MemberError::RootIsNotAMember(_))));
        let r = Rm::new(s("/ws"), vec![s(root_like)])
            .exec(parse_manifest(ORIGINAL).unwrap(), &vec![true]);
        assert!(matches!(r, Err(MemberError::RootIsNotAMember(_))));
    }
}

#[test]
fn relative_paths_are_rejected() {
    let r = Exclude::new(s("ws"), vec![s("/ws/b")]).exec(parse_manifest(ORIGINAL).unwrap());
    assert!(matches!(r, Err(MemberError::NotAbsolute(p)) if p == "ws"));
    let r = Exclude::new(s("/ws"), vec![s("b")]).exec(parse_manifest(ORIGINAL).unwrap());
    assert!(matches!(r, Err(MemberError::NotAbsolute(p)) if p == "b"));
}

#[test]
fn include_needs_a_package_unless_forced() {
    let r = Include::new(s("/ws"), vec![s("/ws/c")])
        .exec(parse_manifest(ORIGINAL).unwrap(), &vec![false]);
    assert!(matches!(r, Err(MemberError::NotAPackage(p)) if p == "/ws/c"));
    let out = Include::new(s("/ws"), vec![s("/ws/c")])
        .force(true)
        .exec(parse_manifest(ORIGINAL).unwrap(), &vec![false])
        .unwrap();
    assert_eq!(out.changes, vec![Change::Added(ListField::Members, s("c"))]);
}

#[test]
fn wrong_shapes_are_errors() {
    let r = Exclude::new(s("/ws"), vec![s("/ws/b")])
        .exec(parse_manifest("[workspace]\nmembers = \"a\"\n").unwrap());
    assert!(matches!(r, Err(MemberError::NotAnArray(ListField::Members))));
    let r = Exclude::new(s("/ws"), vec![s("/ws/b")])
        .exec(parse_manifest("[workspace]\nmembers = []\nexclude = 3\n").unwrap());
    assert!(matches!(r, Err(MemberError::NotAnArray(ListField::Exclude))));
    let r = Exclude::new(s("/ws"), vec![s("/ws/b")]).exec(parse_manifest("workspace = 1\n").unwrap());
    assert!(matches!(r, Err(MemberError::WorkspaceNotATable)));
    assert!(matches!(parse_manifest("[workspace"), Err(MemberError::Manifest(_))));
}

#[test]
fn missing_lists_are_created() {
    let doc = parse_manifest("[workspace]\n").unwrap();
    let out = Exclude::new(s("/ws"), vec![s("/ws/b")]).exec(doc).unwrap();
    assert_eq!(out.changes, vec![Change::Added(ListField::Exclude, s("b"))]);
    assert_eq!(
        out.manifest.as_deref(),
        Some("[workspace]\nmembers = []\nexclude = [\"b\"]\n")
    );
}

#[test]
fn paths_outside_the_root_are_stored_whole() {
    let doc = parse_manifest("[workspace]\nmembers = []\nexclude = []\n").unwrap();
    let out = Include::new(s("/ws"), vec![s("/elsewhere/p")])
        .exec(doc, &vec![true])
        .unwrap();
    assert_eq!(out.changes, vec![Change::Added(ListField::Members, s("/elsewhere/p"))]);
}

#[test]
fn focus_excludes_the_others() {
    let doc = parse_manifest(ORIGINAL).unwrap();
    let dirs = vec![s("/ws"), s("/ws/a"), s("/ws/b")];
    let out = Focus::new(s("/ws"), s("/ws/a")).exec(doc, &dirs).unwrap();
    assert_eq!(
        out.changes,
        vec![Change::Removed(ListField::Members, s("b")), Change::Added(ListField::Exclude, s("b"))]
    );
    assert_eq!(
        out.manifest.as_deref(),
        Some("[workspace]\nmembers = [\"a\"]\nexclude = [\"b\"]\n")
    );
}

#[test]
fn rm_reports_the_directory_first() {
    let doc = parse_manifest(ORIGINAL).unwrap();
    let out = Rm::new(s("/ws"), vec![s("/ws/b")]).exec(doc, &vec![true]).unwrap();
    assert_eq!(
        out.changes,
        vec![Change::RemovedDirectory(s("/ws/b")), Change::Removed(ListField::Members, s("b"))]
    );
    assert_eq!(
        out.manifest.as_deref(),
        Some("[workspace]\nmembers = [\"a\"]\nexclude = []\n")
    );
    let r = Rm::new(s("/ws"), vec![s("/ws/x")]).exec(parse_manifest(ORIGINAL).unwrap(), &vec![false]);
    assert!(matches!(r, Err(MemberError::NotAPackage(_))));
    let out = Rm::new(s("/ws"), vec![s("/ws/x")])
        .force(true)
        .exec(parse_manifest(ORIGINAL).unwrap(), &vec![false])
        .unwrap();
    assert_eq!(out.changes, vec![Change::RemovedDirectory(s("/ws/x"))]);
}
