//! Finding the member that a package id specification names. The package
//! manager answers a specification with a package id, a URL such as
//! `path+file:///ws/b#0.1.0` or `...#name:0.1.0`; the package's name is read
//! from it and looked up among the workspace's members.
use crate::members::MemberError;
use crate::path::{join, joined, same_text};
use vstd::prelude::*;
use vstd::string::StrSliceExecFns;

verus! {

pub open spec fn opt_view(o: Option<String>) -> Option<Seq<char>> {
    match o {
        Some(s) => Some(s@),
        None => None,
    }
}

/// The fragment of the URL that `s` spells (`None` when it is no URL or has
/// no fragment).
pub uninterp spec fn url_fragment(s: Seq<char>) -> Option<Seq<char>>;

/// The last segment of the path of the URL that `s` spells (`None` when it
/// is no URL, or a URL that cannot be a base).
pub uninterp spec fn url_last_segment(s: Seq<char>) -> Option<Seq<char>>;

/// Relies on `Url::parse` and `Url::fragment`.
#[verifier::external_body]
fn url_fragment_of(s: &str) -> (r: Option<String>)
    ensures
        opt_view(r) == url_fragment(s@),
{
    url::Url::parse(s).ok().and_then(|u| u.fragment().map(|f| f.to_owned()))
}

/// Relies on `Url::parse` and `Url::path_segments`.
#[verifier::external_body]
fn url_last_segment_of(s: &str) -> (r: Option<String>)
    ensures
        opt_view(r) == url_last_segment(s@),
{
    url::Url::parse(s)
        .ok()
        .and_then(|u| u.path_segments().and_then(|p| p.last()).map(|l| l.to_owned()))
}

pub open spec fn is_first_colon(f: Seq<char>, i: int) -> bool {
    0 <= i < f.len() && f[i] == ':' && forall|j: int| 0 <= j < i ==> f[j] != ':'
}

/// The part of `f` before its first `:`, if it has one.
pub open spec fn before_colon(f: Seq<char>) -> Option<Seq<char>> {
    if exists|i: int| is_first_colon(f, i) {
        Some(f.subrange(0, choose|i: int| is_first_colon(f, i)))
    } else {
        None
    }
}

/// The package name that a package id's fragment and last path segment
/// give: the part of the fragment before `:` (`name:version`), else (no
/// `:`, or no fragment at all) the last path segment.
pub open spec fn name_of_parts(fragment: Option<Seq<char>>, last: Option<Seq<char>>) -> Option<
    Seq<char>,
> {
    match fragment {
        None => last,
        Some(f) => match before_colon(f) {
            Some(n) => Some(n),
            None => last,
        },
    }
}

/// The package name that the package id `s` gives.
pub open spec fn name_of_id(s: Seq<char>) -> Option<Seq<char>> {
    name_of_parts(url_fragment(s), url_last_segment(s))
}

/// The package name from the parts of a package id.
pub fn name_from_parts(fragment: Option<String>, last_segment: Option<String>) -> (r: Option<
    String,
>)
    ensures
        opt_view(r) == name_of_parts(opt_view(fragment), opt_view(last_segment)),
{
    let ghost fv = opt_view(fragment);
    let f = match fragment {
        Some(f) => f,
        None => return last_segment,
    };
    assert(fv == Some(f@));
    let n = f.as_str().unicode_len();
    let mut i: usize = 0;
    while i < n
        invariant
            i <= n,
            n == f@.len(),
            fv == Some(f@),
            fv == opt_view(fragment),
            forall|j: int| 0 <= j < i ==> f@[j] != ':',
        decreases n - i,
    {
        if f.as_str().get_char(i) == ':' {
            proof {
                assert(is_first_colon(f@, i as int));
                let k = choose|k: int| is_first_colon(f@, k);
                if k < i {
                    assert(f@[k] != ':');
                }
                if i < k {
                    assert(f@[i as int] != ':');
                }
            }
            return Some(f.as_str().substring_char(0, i).to_owned());
        }
        i += 1;
    }
    assert(!exists|k: int| is_first_colon(f@, k));
    last_segment
}

/// The package name that a package id gives.
pub fn package_name_from_id(pkgid: &str) -> (r: Result<String, MemberError>)
    ensures
        match r {
            Ok(n) => name_of_id(pkgid@) == Some(n@),
            Err(e) => name_of_id(pkgid@) is None && (e matches MemberError::InvalidPackageId(p)
                && p@ == pkgid@),
        },
{
    let fragment = url_fragment_of(pkgid);
    let last = url_last_segment_of(pkgid);
    match name_from_parts(fragment, last) {
        Some(n) => Ok(n),
        None => Err(MemberError::InvalidPackageId(pkgid.to_owned())),
    }
}

/// `s` with every leading `error: ` taken off.
pub open spec fn without_error_prefixes(s: Seq<char>) -> Seq<char>
    decreases s.len(),
{
    if s.len() >= 7 && s.subrange(0, 7) == "error: "@ {
        without_error_prefixes(s.subrange(7, s.len() as int))
    } else {
        s
    }
}

fn has_error_prefix_at(s: &str, k: usize, n: usize) -> (r: bool)
    requires
        k <= n,
        n == s@.len(),
    ensures
        r == (n - k >= 7 && s@.subrange(k as int, k + 7) == "error: "@),
{
    let prefix = "error: ";
    proof {
        reveal_strlit("error: ");
    }
    if n - k < 7 {
        return false;
    }
    let mut i: usize = 0;
    while i < 7
        invariant
            i <= 7,
            k + 7 <= n,
            n == s@.len(),
            prefix@ == "error: "@,
            prefix@.len() == 7,
            forall|j: int| 0 <= j < i ==> s@[k + j] == prefix@[j],
        decreases 7 - i,
    {
        if s.get_char(k + i) != prefix.get_char(i) {
            assert(s@.subrange(k as int, k + 7)[i as int] != prefix@[i as int]);
            return false;
        }
        i += 1;
    }
    assert(s@.subrange(k as int, k + 7) =~= prefix@);
    true
}

/// The package manager's complaint without its leading `error: ` labels.
pub fn strip_error_prefixes(s: &str) -> (r: &str)
    ensures
        r@ == without_error_prefixes(s@),
{
    let n = s.unicode_len();
    let mut k: usize = 0;
    assert(s@.subrange(0, n as int) =~= s@);
    while has_error_prefix_at(s, k, n)
        invariant
            k <= n,
            n == s@.len(),
            without_error_prefixes(s@.subrange(k as int, n as int)) == without_error_prefixes(s@),
        decreases n - k,
    {
        proof {
            let rest = s@.subrange(k as int, n as int);
            assert(rest.subrange(0, 7) =~= s@.subrange(k as int, k + 7));
            assert(rest.subrange(7, rest.len() as int) =~= s@.subrange(k + 7, n as int));
        }
        k += 7;
    }
    proof {
        let rest = s@.subrange(k as int, n as int);
        if rest.len() >= 7 {
            assert(rest.subrange(0, 7) =~= s@.subrange(k as int, k + 7));
        }
    }
    s.substring_char(k, n)
}

/// The manifest that a package id specification is resolved against: the
/// manifest of the workspace's root package when it has one, else the
/// manifest at the workspace root.
pub fn pkgid_manifest(root_package_manifest: Option<String>, workspace_root: &str) -> (r: String)
    ensures
        match root_package_manifest {
            Some(m) => r == m,
            None => r@ == joined(workspace_root@, "Cargo.toml"@),
        },
{
    match root_package_manifest {
        Some(m) => m,
        None => join(workspace_root, "Cargo.toml"),
    }
}

/// A member of the workspace: its package name and directory.
pub struct MemberInfo {
    pub name: String,
    pub dir: String,
}

/// The directory of the first member named `name`; `spec` is what the user
/// asked for, named in the error when no member matches.
pub fn member_dir(members: &Vec<MemberInfo>, name: &str, spec: &str) -> (r: Result<
    String,
    MemberError,
>)
    ensures
        match r {
            Ok(d) => exists|i: int|
                0 <= i < members@.len() && members@[i].name@ == name@ && d == members@[i].dir
                    && forall|j: int| 0 <= j < i ==> (#[trigger] members@[j]).name@ != name@,
            Err(e) => (forall|j: int| 0 <= j < members@.len() ==> (#[trigger] members@[j]).name@
                != name@) && (e matches MemberError::NotAWorkspaceMember(s) && s@ == spec@),
        },
{
    let mut i: usize = 0;
    while i < members.len()
        invariant
            i <= members@.len(),
            forall|j: int| 0 <= j < i ==> (#[trigger] members@[j]).name@ != name@,
        decreases members@.len() - i,
    {
        if same_text(members[i].name.as_str(), name) {
            return Ok(members[i].dir.clone());
        }
        i += 1;
    }
    Err(MemberError::NotAWorkspaceMember(spec.to_owned()))
}

/// The directory of the member that the package manager's answer `pkgid`
/// names.
pub fn resolve_member(pkgid: &str, members: &Vec<MemberInfo>, spec: &str) -> (r: Result<
    String,
    MemberError,
>)
    ensures
        name_of_id(pkgid@) is None ==> (r matches Err(MemberError::InvalidPackageId(_))),
        name_of_id(pkgid@) matches Some(n) ==> match r {
            Ok(d) => exists|i: int|
                0 <= i < members@.len() && members@[i].name@ == n && d == members@[i].dir
                    && forall|j: int| 0 <= j < i ==> (#[trigger] members@[j]).name@ != n,
            Err(e) => (forall|j: int| 0 <= j < members@.len() ==> (#[trigger] members@[j]).name@
                != n) && (e matches MemberError::NotAWorkspaceMember(s) && s@ == spec@),
        },
{
    let name = package_name_from_id(pkgid)?;
    member_dir(members, name.as_str(), spec)
}

} // verus!
