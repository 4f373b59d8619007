use cargo_member::cli::{CargoMember, CargoMemberFocus, ColorChoice};
use cargo_member::{
    member_dir, name_from_parts, needs_validation, package_name_from_id, parse_manifest,
    pkgid_manifest, resolve_member, strip_error_prefixes, Change, ListField, MemberError,
    MemberInfo, New,
};

fn s(v: &str) -> String {
    v.to_owned()
}

#[test]
fn names_from_package_ids() {
    assert_eq!(package_name_from_id("path+file:///tmp/ws/b#0.1.0").unwrap(), "b");
    assert_eq!(
        package_name_from_id("https://github.com/rust-lang/crates.io-index#regex:1.4.3").unwrap(),
        "regex"
    );
    assert_eq!(package_name_from_id("path+file:///tmp/ws/b").unwrap(), "b");
    assert!(matches!(package_name_from_id("not a url"), Err(MemberError::InvalidPackageId(_))));
}

#[test]
fn names_from_parts() {
    assert_eq!(name_from_parts(Some(s("b:0.1.0")), Some(s("x"))).as_deref(), Some("b"));
    assert_eq!(name_from_parts(Some(s("0.1.0")), Some(s("x"))).as_deref(), Some("x"));
    assert_eq!(name_from_parts(Some(s(":1")), None).as_deref(), Some(""));
    assert_eq!(name_from_parts(None, Some(s("x"))).as_deref(), Some("x"));
    assert_eq!(name_from_parts(None, None), None);
}

#[test]
fn pkgid_manifest_prefers_the_root_package() {
    assert_eq!(pkgid_manifest(Some(s("/ws/p/Cargo.toml")), "/ws"), "/ws/p/Cargo.toml");
    assert_eq!(pkgid_manifest(None, "/ws"), "/ws/Cargo.toml");
    assert!(!needs_validation(0, false));
    assert!(needs_validation(0, true));
    assert!(needs_validation(2, false));
}

#[test]
fn error_labels_are_stripped() {
    assert_eq!(strip_error_prefixes("error: error: no such package"), "no such package");
    assert_eq!(strip_error_prefixes("warning: x"), "warning: x");
    assert_eq!(strip_error_prefixes("error:x"), "error:x");
}

#[test]
fn members_are_found_by_name() {
    let members = vec![
        MemberInfo { name: s("a"), dir: s("/ws/a") },
        MemberInfo { name: s("b"), dir: s("/ws/b") },
    ];
    assert_eq!(member_dir(&members, "b", "b").unwrap(), "/ws/b");
    assert!(matches!(member_dir(&members, "c", "c@1"), Err(MemberError::NotAWorkspaceMember(p)) if p == "c@1"));
    assert_eq!(resolve_member("path+file:///ws/a#0.1.0", &members, "a").unwrap(), "/ws/a");
}

#[test]
fn new_package_arguments() {
    let n = New::new(s("/ws"), s("/ws/a"));
    assert_eq!(n.cargo_new_args(), vec![s("new"), s("/ws/a")]);
    let n = n
        .cargo_new_registry(Some(s("r")))
        .cargo_new_vcs(Some(s("none")))
        .cargo_new_lib(true)
        .cargo_new_name(Some(s("x")))
        .offline(true);
    assert_eq!(
        n.cargo_new_args(),
        vec![
            s("new"),
            s("--registry"),
            s("r"),
            s("--vcs"),
            s("none"),
            s("--lib"),
            s("--name"),
            s("x"),
            s("--offline"),
            s("/ws/a")
        ]
    );
    let inc = n.dry_run(true).inclusion();
    assert!(inc.force && inc.dry_run);
    assert_eq!(inc.paths, vec![s("/ws/a")]);
}

#[test]
fn color_of_any_verb() {
    let m = CargoMember::Focus(CargoMemberFocus {
        dry_run: false,
        manifest_path: None,
        color: ColorChoice::Never,
        offline: false,
        path: s("a"),
    });
    assert_eq!(m.color(), ColorChoice::Never);
}

#[test]
fn new() {
    let inclusion = New::new(s("/ws"), s("/ws/a")).dry_run(false).inclusion();
    let doc = parse_manifest("[workspace]\nmembers = []\nexclude = []\n").unwrap();
    let out = inclusion.exec(doc, &vec![false]).unwrap();
    assert_eq!(out.changes, vec![Change::Added(ListField::Members, s("a"))]);
    assert_eq!(
        out.manifest.as_deref(),
        Some("[workspace]\nmembers = [\"a\"]\nexclude = []\n")
    );
}
