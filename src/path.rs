//! Paths as text, with the component semantics of Unix paths: `/` separates
//! pieces, empty pieces and `.` pieces carry no meaning, `..` is kept as is.
use vstd::prelude::*;
use vstd::string::{StrSliceExecFns, StringExecFns};

verus! {

/// A path is absolute when it starts at the root directory.
pub open spec fn is_absolute(p: Seq<char>) -> bool {
    p.len() > 0 && p[0] == '/'
}

/// A piece between separators names something unless it is empty or `.`.
pub open spec fn names_something(piece: Seq<char>) -> bool {
    piece.len() > 0 && piece != seq!['.']
}

pub open spec fn flush(done: Seq<Seq<char>>, piece: Seq<char>) -> Seq<Seq<char>> {
    if names_something(piece) {
        done.push(piece)
    } else {
        done
    }
}

/// Reading `p` from the left: the segments completed so far and the piece
/// that is still open.
pub open spec fn scan(p: Seq<char>) -> (Seq<Seq<char>>, Seq<char>)
    decreases p.len(),
{
    if p.len() == 0 {
        (Seq::empty(), Seq::empty())
    } else {
        let (done, piece) = scan(p.drop_last());
        if p.last() == '/' {
            (flush(done, piece), Seq::empty())
        } else {
            (done, piece.push(p.last()))
        }
    }
}

/// The segments of `p`: its pieces between `/`, without empty and `.` pieces.
pub open spec fn segments(p: Seq<char>) -> Seq<Seq<char>> {
    flush(scan(p).0, scan(p).1)
}

pub open spec fn segs_view(v: Seq<Vec<char>>) -> Seq<Seq<char>> {
    v.map_values(|s: Vec<char>| s@)
}

fn names_something_exec(piece: &Vec<char>) -> (r: bool)
    ensures
        r == names_something(piece@),
{
    if piece.len() == 0 {
        false
    } else if piece.len() == 1 && piece[0] == '.' {
        assert(piece@ =~= seq!['.']);
        false
    } else {
        assert(piece@.len() != 1 ==> piece@ != seq!['.']);
        true
    }
}

/// The segments of `p`, computed.
pub fn segments_of(p: &str) -> (r: Vec<Vec<char>>)
    ensures
        segs_view(r@) == segments(p@),
{
    let n = p.unicode_len();
    let mut done: Vec<Vec<char>> = Vec::new();
    let mut piece: Vec<char> = Vec::new();
    let mut i: usize = 0;
    proof {
        assert(p@.subrange(0, 0) =~= Seq::<char>::empty());
        assert(segs_view(done@) =~= Seq::<Seq<char>>::empty());
    }
    while i < n
        invariant
            i <= n,
            n == p@.len(),
            segs_view(done@) == scan(p@.subrange(0, i as int)).0,
            piece@ == scan(p@.subrange(0, i as int)).1,
        decreases n - i,
    {
        let c = p.get_char(i);
        proof {
            assert(p@.subrange(0, i + 1).drop_last() =~= p@.subrange(0, i as int));
            assert(p@.subrange(0, i + 1).last() == c);
        }
        if c == '/' {
            if names_something_exec(&piece) {
                let ghost before = done@;
                done.push(piece);
                proof {
                    assert(segs_view(done@) =~= segs_view(before).push(piece@));
                }
            }
            piece = Vec::new();
            proof {
                assert(piece@ =~= Seq::<char>::empty());
            }
        } else {
            piece.push(c);
        }
        i += 1;
    }
    proof {
        assert(p@.subrange(0, n as int) =~= p@);
    }
    if names_something_exec(&piece) {
        let ghost before = done@;
        done.push(piece);
        proof {
            assert(segs_view(done@) =~= segs_view(before).push(piece@));
        }
    }
    done
}

/// Fails unless `path` is absolute.
pub fn ensure_absolute(path: &str) -> (r: Result<(), ()>)
    ensures
        r is Ok <==> is_absolute(path@),
{
    let n = path.unicode_len();
    if n > 0 && path.get_char(0) == '/' {
        Ok(())
    } else {
        Err(())
    }
}

/// Whether `p` begins with a `.` piece: `.` alone, or `./...`.
pub open spec fn starts_with_dot_piece(p: Seq<char>) -> bool {
    p.len() > 0 && p[0] == '.' && (p.len() == 1 || p[1] == '/')
}

/// Drops leading separators and `.` pieces.
pub open spec fn skip_dot_pieces(p: Seq<char>) -> Seq<char>
    decreases p.len(),
{
    if p.len() > 0 && p[0] == '/' {
        skip_dot_pieces(p.drop_first())
    } else if starts_with_dot_piece(p) {
        skip_dot_pieces(p.drop_first())
    } else {
        p
    }
}

/// A relative path that starts with `.` pieces loses them (with their
/// separators); any other path stays as it is.
pub open spec fn trimmed(p: Seq<char>) -> Seq<char> {
    if starts_with_dot_piece(p) {
        skip_dot_pieces(p)
    } else {
        p
    }
}

/// `base` joined with `p`: an absolute `p` replaces `base`, otherwise `p` is
/// appended after a separator (none is added after an empty base or one that
/// already ends in `/`).
pub open spec fn joined(base: Seq<char>, p: Seq<char>) -> Seq<char> {
    if is_absolute(p) {
        p
    } else if base.len() > 0 && base.last() != '/' {
        base + seq!['/'] + p
    } else {
        base + p
    }
}

/// The absolute location that a path typed in directory `cwd` denotes.
pub open spec fn from_cwd(cwd: Seq<char>, p: Seq<char>) -> Seq<char> {
    joined(cwd, trimmed(p))
}

/// Strips the leading `.` pieces of a relative path (`./a` and `././a` give `a`).
pub fn trim_leading_dots(p: &str) -> (r: &str)
    ensures
        r@ == trimmed(p@),
{
    let n = p.unicode_len();
    if !(n > 0 && p.get_char(0) == '.' && (n == 1 || p.get_char(1) == '/')) {
        return p;
    }
    let mut k: usize = 0;
    proof {
        assert(p@.subrange(0, n as int) =~= p@);
    }
    while k < n && (p.get_char(k) == '/' || (p.get_char(k) == '.' && (k + 1 == n
        || p.get_char(k + 1) == '/')))
        invariant
            k <= n,
            n == p@.len(),
            skip_dot_pieces(p@.subrange(k as int, n as int)) == skip_dot_pieces(p@),
        decreases n - k,
    {
        proof {
            let rest = p@.subrange(k as int, n as int);
            assert(rest.drop_first() =~= p@.subrange(k + 1, n as int));
        }
        k += 1;
    }
    proof {
        let rest = p@.subrange(k as int, n as int);
        if k < n {
            assert(rest[0] == p@[k as int]);
            if rest.len() > 1 {
                assert(rest[1] == p@[k + 1]);
            }
        }
    }
    p.substring_char(k, n)
}

/// `base` joined with `p`.
pub fn join(base: &str, p: &str) -> (r: String)
    ensures
        r@ == joined(base@, p@),
{
    if ensure_absolute(p).is_ok() {
        return p.to_owned();
    }
    let n = base.unicode_len();
    let mut r = base.to_owned();
    if n > 0 && base.get_char(n - 1) != '/' {
        r.append("/");
        proof {
            reveal_strlit("/");
        }
    }
    r.append(p);
    r
}

/// The absolute path that `p`, typed in the working directory `cwd`, denotes:
/// leading `.` pieces are dropped and the rest is joined onto `cwd`. The file
/// system is not consulted (symbolic links are not resolved).
pub fn absolute_from(cwd: &str, p: &str) -> (r: String)
    ensures
        r@ == from_cwd(cwd@, p@),
{
    join(cwd, trim_leading_dots(p))
}

/// Segments put back together, separated by single `/`.
pub open spec fn join_segments(s: Seq<Seq<char>>) -> Seq<char>
    decreases s.len(),
{
    if s.len() == 0 {
        Seq::empty()
    } else if s.len() == 1 {
        s[0]
    } else {
        join_segments(s.drop_last()) + seq!['/'] + s.last()
    }
}

/// The location that `p` denotes once joined onto `root`, as its segments:
/// paths are compared by these, so `a`, `./a`, `a/` and `<root>/a` are one
/// location (`..` is not resolved).
pub open spec fn location(root: Seq<char>, p: Seq<char>) -> Seq<Seq<char>> {
    if is_absolute(p) {
        segments(p)
    } else {
        segments(root) + segments(p)
    }
}

pub open spec fn same_location(root: Seq<char>, a: Seq<char>, b: Seq<char>) -> bool {
    location(root, a) == location(root, b)
}

/// Whether the segments of `root` begin the segments of `p`.
pub open spec fn lies_under(root: Seq<char>, p: Seq<char>) -> bool {
    is_absolute(p) && segments(root).len() <= segments(p).len() && segments(p).subrange(
        0,
        segments(root).len() as int,
    ) == segments(root)
}

/// `p` written relative to `root` when it lies under it (normalised to its
/// segments), otherwise `p` unchanged.
pub open spec fn relative_to(root: Seq<char>, p: Seq<char>) -> Seq<char> {
    if lies_under(root, p) {
        join_segments(segments(p).subrange(segments(root).len() as int, segments(p).len() as int))
    } else {
        p
    }
}

/// Relies on `String: FromIterator<&char>`: the characters, in order.
#[verifier::external_body]
pub(crate) fn string_of(chars: &Vec<char>) -> (r: String)
    ensures
        r@ == chars@,
{
    chars.iter().collect()
}

fn push_all(out: &mut Vec<char>, s: &Vec<char>)
    ensures
        final(out)@ == old(out)@ + s@,
{
    let mut i: usize = 0;
    while i < s.len()
        invariant
            i <= s@.len(),
            out@ == old(out)@ + s@.subrange(0, i as int),
        decreases s@.len() - i,
    {
        out.push(s[i]);
        i += 1;
        proof {
            assert(out@ =~= old(out)@ + s@.subrange(0, i as int));
        }
    }
    proof {
        assert(s@.subrange(0, s@.len() as int) =~= s@);
    }
}

pub fn segments_equal(a: &Vec<Vec<char>>, b: &Vec<Vec<char>>) -> (r: bool)
    ensures
        r == (segs_view(a@) == segs_view(b@)),
{
    if a.len() != b.len() {
        assert(segs_view(a@).len() != segs_view(b@).len());
        return false;
    }
    let mut i: usize = 0;
    while i < a.len()
        invariant
            i <= a@.len(),
            a@.len() == b@.len(),
            forall|k: int| 0 <= k < i ==> a@[k]@ == b@[k]@,
        decreases a@.len() - i,
    {
        let x = &a[i];
        let y = &b[i];
        if x.len() != y.len() {
            assert(segs_view(a@)[i as int] != segs_view(b@)[i as int]);
            return false;
        }
        let mut j: usize = 0;
        while j < x.len()
            invariant
                i < a@.len(),
                a@.len() == b@.len(),
                *x == a@[i as int],
                *y == b@[i as int],
                j <= x@.len(),
                x@.len() == y@.len(),
                forall|k: int| 0 <= k < j ==> x@[k] == y@[k],
            decreases x@.len() - j,
        {
            if x[j] != y[j] {
                assert(segs_view(a@)[i as int][j as int] != segs_view(b@)[i as int][j as int]);
                return false;
            }
            j += 1;
        }
        assert(x@ =~= y@);
        i += 1;
    }
    assert(segs_view(a@) =~= segs_view(b@));
    true
}

/// The location of `p` joined onto `root`, computed.
pub fn location_of(root: &str, p: &str) -> (r: Vec<Vec<char>>)
    ensures
        segs_view(r@) == location(root@, p@),
{
    if ensure_absolute(p).is_ok() {
        segments_of(p)
    } else {
        let mut r = segments_of(root);
        let mut q = segments_of(p);
        let ghost (r0, q0) = (r@, q@);
        r.append(&mut q);
        assert(segs_view(r@) =~= segs_view(r0) + segs_view(q0));
        r
    }
}

/// Whether `a` and `b` denote one location once joined onto `root`.
pub fn same_location_exec(root: &str, a: &str, b: &str) -> (r: bool)
    ensures
        r == same_location(root@, a@, b@),
{
    let x = location_of(root, a);
    let y = location_of(root, b);
    segments_equal(&x, &y)
}

/// Whether `p` lies under `root`, computed.
pub fn lies_under_exec(root: &str, p: &str) -> (r: bool)
    ensures
        r == lies_under(root@, p@),
{
    if ensure_absolute(p).is_err() {
        return false;
    }
    let rs = segments_of(root);
    let ps = segments_of(p);
    let ghost (rv, pv) = (segs_view(rs@), segs_view(ps@));
    assert(rv.len() == rs@.len() && pv.len() == ps@.len());
    if rs.len() > ps.len() {
        return false;
    }
    let mut i: usize = 0;
    while i < rs.len()
        invariant
            i <= rs@.len() <= ps@.len(),
            rv == segs_view(rs@),
            pv == segs_view(ps@),
            rv == segments(root@),
            pv == segments(p@),
            is_absolute(p@),
            forall|k: int| 0 <= k < i ==> rv[k] == pv[k],
        decreases rs@.len() - i,
    {
        let mut one_r: Vec<Vec<char>> = Vec::new();
        let mut one_p: Vec<Vec<char>> = Vec::new();
        one_r.push(copy_chars(&rs[i]));
        one_p.push(copy_chars(&ps[i]));
        assert(segs_view(one_r@) =~= seq![rv[i as int]]);
        assert(segs_view(one_p@) =~= seq![pv[i as int]]);
        if !segments_equal(&one_r, &one_p) {
            assert(segs_view(one_r@)[0] != segs_view(one_p@)[0]);
            assert(rv[i as int] != pv[i as int]);
            assert(pv.subrange(0, rv.len() as int)[i as int] != rv[i as int]);
            assert(pv.subrange(0, rv.len() as int) != rv);
            return false;
        }
        assert(segs_view(one_r@)[0] == segs_view(one_p@)[0]);
        i += 1;
    }
    assert(pv.subrange(0, rv.len() as int) =~= rv);
    true
}

/// The segments of `segs` from `from` up to `to`, joined by `/`.
pub fn join_segments_range(segs: &Vec<Vec<char>>, from: usize, to: usize) -> (r: Vec<char>)
    requires
        from <= to <= segs@.len(),
    ensures
        r@ == join_segments(segs_view(segs@).subrange(from as int, to as int)),
{
    let ghost sv = segs_view(segs@);
    let ghost rest = sv.subrange(from as int, to as int);
    let mut out: Vec<char> = Vec::new();
    let mut j: usize = from;
    assert(rest.subrange(0, 0) =~= Seq::<Seq<char>>::empty());
    while j < to
        invariant
            from <= j <= to <= segs@.len(),
            sv == segs_view(segs@),
            sv.len() == segs@.len(),
            rest == sv.subrange(from as int, to as int),
            out@ == join_segments(rest.subrange(0, j - from)),
        decreases to - j,
    {
        let ghost k = j - from;
        assert(rest.subrange(0, k + 1).drop_last() =~= rest.subrange(0, k));
        assert(rest.subrange(0, k + 1).last() == segs@[j as int]@);
        if j > from {
            out.push('/');
        } else {
            assert(out@ =~= Seq::<char>::empty());
        }
        push_all(&mut out, &segs[j]);
        j += 1;
        assert(out@ =~= join_segments(rest.subrange(0, j - from)));
    }
    assert(rest.subrange(0, rest.len() as int) =~= rest);
    out
}

/// `p` relative to `root` when it lies under it, else `p` itself.
pub fn relative_to_root(root: &str, p: &str) -> (r: String)
    ensures
        r@ == relative_to(root@, p@),
{
    if !lies_under_exec(root, p) {
        return p.to_owned();
    }
    let rs = segments_of(root);
    let ps = segments_of(p);
    string_of(&join_segments_range(&ps, rs.len(), ps.len()))
}

/// Whether the characters spell `s`.
pub fn chars_eq_str(v: &Vec<char>, s: &str) -> (r: bool)
    ensures
        r == (v@ == s@),
{
    let n = s.unicode_len();
    if v.len() != n {
        return false;
    }
    let mut i: usize = 0;
    while i < n
        invariant
            i <= n,
            n == s@.len(),
            v@.len() == n,
            forall|k: int| 0 <= k < i ==> v@[k] == s@[k],
        decreases n - i,
    {
        if v[i] != s.get_char(i) {
            return false;
        }
        i += 1;
    }
    assert(v@ =~= s@);
    true
}

/// The last segment of `p`, unless it has none or it is `..`.
pub open spec fn file_name(p: Seq<char>) -> Option<Seq<char>> {
    if segments(p).len() > 0 && segments(p).last() != seq!['.', '.'] {
        Some(segments(p).last())
    } else {
        None
    }
}

/// The last segment of `p`, unless it has none or it is `..`.
pub fn file_name_of(p: &str) -> (r: Option<String>)
    ensures
        match r {
            Some(s) => file_name(p@) == Some(s@),
            None => file_name(p@) is None,
        },
{
    let ps = segments_of(p);
    let ghost pv = segs_view(ps@);
    let n = ps.len();
    if n == 0 {
        return None;
    }
    let last = &ps[n - 1];
    assert(pv.last() == last@);
    if last.len() == 2 && last[0] == '.' && last[1] == '.' {
        assert(last@ =~= seq!['.', '.']);
        return None;
    }
    assert(last@ != seq!['.', '.']) by {
        if last@.len() == 2 {
            assert(last@[0] != '.' || last@[1] != '.');
        }
    }
    Some(string_of(last))
}

fn copy_chars(s: &Vec<char>) -> (r: Vec<char>)
    ensures
        r@ == s@,
{
    let mut r: Vec<char> = Vec::new();
    push_all(&mut r, s);
    assert(r@ =~= s@);
    r
}

/// Whether the two texts are equal.
pub fn same_text(a: &str, b: &str) -> (r: bool)
    ensures
        r == (a@ == b@),
{
    let n = a.unicode_len();
    if n != b.unicode_len() {
        return false;
    }
    let mut i: usize = 0;
    while i < n
        invariant
            i <= n,
            n == a@.len(),
            n == b@.len(),
            forall|j: int| 0 <= j < i ==> a@[j] == b@[j],
        decreases n - i,
    {
        if a.get_char(i) != b.get_char(i) {
            return false;
        }
        i += 1;
    }
    assert(a@ =~= b@);
    true
}

} // verus!
