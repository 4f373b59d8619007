use cargo_member::{
    copy_plan, copy_target_of, enclosing_workspace, ensure_vacant, include_copy, parse_manifest,
    Change, CopyStep, Cp, ListField, MemberError, Mv, WalkEntry,
};

fn s(v: &str) -> String {
    v.to_owned()
}

const PACKAGE: &str = "[package]\nname = \"b\"\nversion = \"0.1.0\"\nworkspace = \"..\"\n\n[dependencies]\n";

#[test]
fn files_are_copied_under_the_destination() {
    assert_eq!(
        copy_target_of("/t/ws/b", "/t/b", "/t/ws/b/src/main.rs", false).as_deref(),
        Some("/t/b/src/main.rs")
    );
    assert_eq!(
        copy_target_of("/t/ws/b", "/t/b", "/t/ws/b/.gitignore", false).as_deref(),
        Some("/t/b/.gitignore")
    );
    assert_eq!(copy_target_of("/t/ws/b", "/t/b", "/t/ws/b/src", true), None);
    assert_eq!(copy_target_of("/t/ws/b", "/t/b", "/t/ws/b/Cargo.toml", false), None);
    assert_eq!(
        copy_target_of("/t/ws/b", "/t/b", "/t/ws/b/src/Cargo.toml", false).as_deref(),
        Some("/t/b/src/Cargo.toml")
    );
    assert_eq!(copy_target_of("/t/ws/b", "/t/b", "/t/ws/b/.git/HEAD", false), None);
    assert_eq!(copy_target_of("/t/ws/b", "/t/b", "/t/other/x", false), None);
}

#[test]
fn destination_nests_into_an_existing_directory() {
    let cp = Cp::new(s("/t/ws/b"), s("/t/out"));
    assert_eq!(cp.destination(true).unwrap(), "/t/out/b");
    assert_eq!(cp.destination(false).unwrap(), "/t/out");
    let r = Cp::new(s("b"), s("/t/out")).destination(false);
    assert!(matches!(r, Err(MemberError::NotAbsolute(p)) if p == "b"));
    assert!(matches!(
        ensure_vacant(s("/t/out/b"), true),
        Err(MemberError::DestinationExists(p)) if p == "/t/out/b"
    ));
    assert_eq!(ensure_vacant(s("/t/out/b"), false).unwrap(), "/t/out/b");
}

#[test]
fn copied_manifest_is_detached_and_renamed() {
    let cp = Cp::new(s("/t/ws/b"), s("/t/c"));
    let text = cp.copied_manifest(parse_manifest(PACKAGE).unwrap(), "/t/c").unwrap();
    assert_eq!(text, "[package]\nname = \"c\"\nversion = \"0.1.0\"\n\n[dependencies]\n");
    let cp = cp.no_rename(true);
    let text = cp.copied_manifest(parse_manifest(PACKAGE).unwrap(), "/t/c").unwrap();
    assert_eq!(text, "[package]\nname = \"b\"\nversion = \"0.1.0\"\n\n[dependencies]\n");
    let virtual_manifest = "[workspace]\nmembers = []\n";
    let text = Cp::new(s("/t/ws"), s("/t/c"))
        .copied_manifest(parse_manifest(virtual_manifest).unwrap(), "/t/c")
        .unwrap();
    assert_eq!(text, virtual_manifest);
}

#[test]
fn cp() {
    let target = Cp::new(s("/t/ws/b"), s("/t/b")).destination(false).unwrap();
    assert_eq!(target, "/t/b");
    assert_eq!(enclosing_workspace(&vec![]), None);
    assert_eq!(enclosing_workspace(&vec![s("/a"), s("/a/b")]), None);
    assert_eq!(enclosing_workspace(&vec![s("/t/ws")]).as_deref(), Some("/t/ws"));
}

#[test]
fn copy_into_a_workspace_joins_it() {
    let doc = parse_manifest("[workspace]\nmembers = [\"a\"]\nexclude = [\"c\"]\n").unwrap();
    let out = include_copy(doc, "/t/ws", &s("/t/ws/c"), false).unwrap();
    assert_eq!(
        out.changes,
        vec![Change::Added(ListField::Members, s("c")), Change::Removed(ListField::Exclude, s("c"))]
    );
    assert_eq!(
        out.manifest.as_deref(),
        Some("[workspace]\nmembers = [\"a\", \"c\"]\nexclude = []\n")
    );
}

#[test]
fn mv() {
    let mv = Mv::new(s("/t/ws"), s("/t/ws/b"), s("/t/b"));
    let cp = mv.copy();
    assert_eq!((cp.src.as_str(), cp.dst.as_str(), cp.no_rename), ("/t/ws/b", "/t/b", false));
    let rm = mv.removal();
    assert_eq!(rm.paths, vec![s("/t/ws/b")]);
    assert!(!rm.force);
    let target = ensure_vacant(cp.destination(false).unwrap(), false).unwrap();
    assert_eq!(target, "/t/b");
    assert_eq!(enclosing_workspace(&vec![]), None);
    let ws = parse_manifest("[workspace]\nmembers = [\"a\", \"b\"]\nexclude = []\n").unwrap();
    let out = rm.exec(ws, &vec![true]).unwrap();
    assert_eq!(
        out.changes,
        vec![Change::RemovedDirectory(s("/t/ws/b")), Change::Removed(ListField::Members, s("b"))]
    );
    assert_eq!(
        out.manifest.as_deref(),
        Some("[workspace]\nmembers = [\"a\"]\nexclude = []\n")
    );
}

#[test]
fn copy_plan_writes_the_manifest_last() {
    let entries = vec![
        WalkEntry { path: s("/t/ws/b"), is_dir: true },
        WalkEntry { path: s("/t/ws/b/Cargo.toml"), is_dir: false },
        WalkEntry { path: s("/t/ws/b/.git"), is_dir: true },
        WalkEntry { path: s("/t/ws/b/.git/HEAD"), is_dir: false },
        WalkEntry { path: s("/t/ws/b/README.md"), is_dir: false },
        WalkEntry { path: s("/t/ws/b/src"), is_dir: true },
        WalkEntry { path: s("/t/ws/b/src/main.rs"), is_dir: false },
        WalkEntry { path: s("/t/ws/b/src/lib.rs"), is_dir: false },
    ];
    let plan = copy_plan("/t/ws/b", "/t/b", &entries, s("[package]\n"));
    assert_eq!(
        plan,
        vec![
            CopyStep::CreateDir(s("/t/b")),
            CopyStep::CopyFile(s("/t/ws/b/README.md"), s("/t/b/README.md")),
            CopyStep::CreateDir(s("/t/b/src")),
            CopyStep::CopyFile(s("/t/ws/b/src/main.rs"), s("/t/b/src/main.rs")),
            CopyStep::CopyFile(s("/t/ws/b/src/lib.rs"), s("/t/b/src/lib.rs")),
            CopyStep::WriteFile(s("/t/b/Cargo.toml"), s("[package]\n")),
        ]
    );
}
