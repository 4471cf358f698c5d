use vstd::prelude::*;
use crate::paths::{drop_leading_slashes, index_html};
use crate::text::{chars_of, push_char, push_range, starts_with};

verus! {

/// Why a request could not be served from the served root.
#[derive(Clone, Copy, Debug, PartialEq, Eq, Structural)]
pub enum ServeError {
    /// The request path names a parent directory or an absolute root.
    InvalidPath,
    /// No such file, or a directory without `index.html`.
    NotFound,
    /// A file that resolved could not be read or encoded.
    InternalError,
}

/// `path` appended to `base` as `PathBuf::push` does: an absolute `path`
/// replaces `base`, else a `/` separates the two unless `base` ends in one.
pub open spec fn joined(base: Seq<char>, path: Seq<char>) -> Seq<char> {
    if path.len() > 0 && path[0] == '/' {
        path
    } else if base.len() == 0 || base.last() == '/' {
        base + path
    } else {
        base + seq!['/'] + path
    }
}

/// The pieces of `s` between `/` characters, empty ones included.
pub open spec fn split_slash(s: Seq<char>) -> Seq<Seq<char>>
    decreases s.len(),
{
    if s.len() == 0 {
        seq![Seq::empty()]
    } else {
        let p = split_slash(s.drop_last());
        if s.last() == '/' {
            p.push(Seq::empty())
        } else {
            p.update(p.len() - 1, p.last().push(s.last()))
        }
    }
}

pub open spec fn parent_dir() -> Seq<char> {
    seq!['.', '.']
}

/// A piece that names an entry: not empty and not the current directory.
pub open spec fn is_plain(seg: Seq<char>) -> bool {
    seg.len() > 0 && seg != seq!['.']
}

pub open spec fn has_parent(segs: Seq<Seq<char>>) -> bool {
    exists|i: int| 0 <= i < segs.len() && #[trigger] segs[i] == parent_dir()
}

pub open spec fn has_plain(segs: Seq<Seq<char>>) -> bool {
    exists|i: int| 0 <= i < segs.len() && is_plain(#[trigger] segs[i])
}

/// `base` with the plain pieces of `segs` appended in order.
pub open spec fn push_segs(base: Seq<char>, segs: Seq<Seq<char>>) -> Seq<char>
    decreases segs.len(),
{
    if segs.len() == 0 {
        base
    } else {
        let p = push_segs(base, segs.drop_last());
        if is_plain(segs.last()) {
            joined(p, segs.last())
        } else {
            p
        }
    }
}

/// The file path that the request tail `tail` names under `base`, or `None`
/// where a piece of it is `..`. Leading slashes are dropped; an empty tail,
/// or one of slashes and `.` pieces that ends in `/`, names `index.html`.
pub open spec fn sanitized(base: Seq<char>, tail: Seq<char>) -> Option<Seq<char>> {
    let t = drop_leading_slashes(tail);
    if t.len() == 0 {
        Some(joined(base, index_html()))
    } else {
        let segs = split_slash(t);
        if has_parent(segs) {
            None
        } else if !has_plain(segs) && tail.last() == '/' {
            Some(joined(push_segs(base, segs), index_html()))
        } else {
            Some(push_segs(base, segs))
        }
    }
}

pub open spec fn result_view(r: Result<String, ServeError>) -> Result<Seq<char>, ServeError> {
    match r {
        Ok(s) => Ok(s@),
        Err(e) => Err(e),
    }
}

proof fn lemma_push_flags(segs: Seq<Seq<char>>, seg: Seq<char>)
    ensures
        has_parent(segs.push(seg)) == (has_parent(segs) || seg == parent_dir()),
        has_plain(segs.push(seg)) == (has_plain(segs) || is_plain(seg)),
{
    let s2 = segs.push(seg);
    if has_parent(s2) {
        let i = choose|i: int| 0 <= i < s2.len() && #[trigger] s2[i] == parent_dir();
        if i < segs.len() {
            assert(segs[i] == s2[i]);
        }
    }
    if has_parent(segs) {
        let i = choose|i: int| 0 <= i < segs.len() && #[trigger] segs[i] == parent_dir();
        assert(s2[i] == segs[i]);
    }
    if seg == parent_dir() {
        assert(s2[segs.len() as int] == seg);
    }
    if has_plain(s2) {
        let i = choose|i: int| 0 <= i < s2.len() && is_plain(#[trigger] s2[i]);
        if i < segs.len() {
            assert(segs[i] == s2[i]);
        }
    }
    if has_plain(segs) {
        let i = choose|i: int| 0 <= i < segs.len() && is_plain(#[trigger] segs[i]);
        assert(s2[i] == segs[i]);
    }
    if is_plain(seg) {
        assert(s2[segs.len() as int] == seg);
    }
}

/// Appends `v[from..to]` to `out` as `joined` does, for a piece with no `/`.
fn push_piece(out: &mut String, v: &Vec<char>, from: usize, to: usize)
    requires
        from < to <= v@.len(),
        v@[from as int] != '/',
    ensures
        final(out)@ == joined(old(out)@, v@.subrange(from as int, to as int)),
{
    let n = out.unicode_len();
    if n > 0 && out.as_str().get_char(n - 1) == '/' {
        push_range(out, v, from, to);
    } else {
        if n == 0 {
            push_range(out, v, from, to);
        } else {
            push_char(out, '/');
            push_range(out, v, from, to);
            assert(old(out)@.push('/') =~= old(out)@ + seq!['/']);
        }
    }
}

/// Whether `v[from..to]` is `..`.
fn is_parent_piece(v: &Vec<char>, from: usize, to: usize) -> (r: bool)
    requires
        from <= to <= v@.len(),
    ensures
        r == (v@.subrange(from as int, to as int) == parent_dir()),
{
    let r = to - from == 2 && v[from] == '.' && v[from + 1] == '.';
    assert(r ==> v@.subrange(from as int, to as int) =~= parent_dir());
    proof {
        let sub = v@.subrange(from as int, to as int);
        if sub == parent_dir() {
            assert(sub.len() == 2);
            assert(sub[0] == v@[from as int]);
            assert(sub[1] == v@[from + 1]);
        }
    }
    r
}

/// Whether `v[from..to]` is a plain piece.
fn is_plain_piece(v: &Vec<char>, from: usize, to: usize) -> (r: bool)
    requires
        from <= to <= v@.len(),
    ensures
        r == is_plain(v@.subrange(from as int, to as int)),
{
    let dot = to - from == 1 && v[from] == '.';
    assert(dot ==> v@.subrange(from as int, to as int) =~= seq!['.']);
    proof {
        let sub = v@.subrange(from as int, to as int);
        if sub == seq!['.'] {
            assert(sub.len() == 1);
            assert(sub[0] == v@[from as int]);
        }
    }
    to > from && !dot
}

/// Processes the piece `v[from..to]` that ends a stretch of the tail: notes
/// whether it is `..` or plain, and appends a plain one to `out`.
fn finish_piece(
    out: &mut String,
    invalid: &mut bool,
    plain: &mut bool,
    v: &Vec<char>,
    from: usize,
    to: usize,
    Ghost(done): Ghost<Seq<Seq<char>>>,
    Ghost(base): Ghost<Seq<char>>,
)
    requires
        from <= to <= v@.len(),
        forall|k: int| from <= k < to ==> v@[k] != '/',
        old(out)@ == push_segs(base, done),
        *old(invalid) == has_parent(done),
        *old(plain) == has_plain(done),
    ensures
        final(out)@ == push_segs(base, done.push(v@.subrange(from as int, to as int))),
        *final(invalid) == has_parent(done.push(v@.subrange(from as int, to as int))),
        *final(plain) == has_plain(done.push(v@.subrange(from as int, to as int))),
{
    let ghost seg = v@.subrange(from as int, to as int);
    proof {
        lemma_push_flags(done, seg);
        assert(done.push(seg).drop_last() =~= done);
    }
    if is_parent_piece(v, from, to) {
        *invalid = true;
    }
    if is_plain_piece(v, from, to) {
        *plain = true;
        push_piece(out, v, from, to);
    }
}

/// The file path that the request tail `tail` names under `base_dir`, or
/// `InvalidPath` where any piece of it is `..`; no file is consulted.
pub fn sanitize_path(base_dir: &str, tail: &str) -> (r: Result<String, ServeError>)
    ensures
        result_view(r) == match sanitized(base_dir@, tail@) {
            Some(p) => Ok(p),
            None => Err(ServeError::InvalidPath),
        },
{
    let v = chars_of(tail);
    let n = v.len();
    let mut s0: usize = 0;
    assert(v@.skip(0) =~= v@);
    while s0 < n && v[s0] == '/'
        invariant
            s0 <= n == v@.len(),
            v@ == tail@,
            drop_leading_slashes(tail@) == drop_leading_slashes(v@.skip(s0 as int)),
        decreases n - s0,
    {
        assert(v@.skip(s0 as int).drop_first() =~= v@.skip(s0 + 1));
        s0 += 1;
    }
    let ghost t = v@.skip(s0 as int);
    assert(drop_leading_slashes(t) == t);
    proof {
        reveal_strlit("index.html");
    }
    let index = chars_of("index.html");
    assert(index@.subrange(0, index@.len() as int) =~= index@);
    let mut out = String::from_str(base_dir);
    if s0 == n {
        push_piece(&mut out, &index, 0, index.len());
        return Ok(out);
    }
    let mut invalid = false;
    let mut plain = false;
    let mut seg_start: usize = s0;
    let mut i: usize = s0;
    let ghost mut done: Seq<Seq<char>> = Seq::empty();
    assert(t.take(0) =~= Seq::<char>::empty());
    assert(v@.subrange(s0 as int, s0 as int) =~= Seq::<char>::empty());
    assert(done.push(Seq::<char>::empty()) =~= seq![Seq::<char>::empty()]);
    while i < n
        invariant
            s0 <= seg_start <= i <= n == v@.len(),
            t == v@.skip(s0 as int),
            split_slash(t.take(i - s0)) == done.push(v@.subrange(seg_start as int, i as int)),
            out@ == push_segs(base_dir@, done),
            invalid == has_parent(done),
            plain == has_plain(done),
            forall|k: int| seg_start <= k < i ==> v@[k] != '/',
        decreases n - i,
    {
        let ghost ti = t.take(i + 1 - s0);
        assert(ti.drop_last() =~= t.take(i - s0));
        assert(ti.last() == v@[i as int]);
        if v[i] == '/' {
            finish_piece(
                &mut out,
                &mut invalid,
                &mut plain,
                &v,
                seg_start,
                i,
                Ghost(done),
                Ghost(base_dir@),
            );
            proof {
                done = done.push(v@.subrange(seg_start as int, i as int));
            }
            seg_start = i + 1;
            assert(v@.subrange(seg_start as int, i + 1) =~= Seq::<char>::empty());
        } else {
            assert(v@.subrange(seg_start as int, i + 1) =~= v@.subrange(seg_start as int, i as int).push(
                v@[i as int],
            ));
            assert(split_slash(ti) =~= done.push(v@.subrange(seg_start as int, i + 1)));
        }
        i += 1;
    }
    finish_piece(
        &mut out,
        &mut invalid,
        &mut plain,
        &v,
        seg_start,
        n,
        Ghost(done),
        Ghost(base_dir@),
    );
    assert(t.take(n - s0) =~= t);
    if invalid {
        return Err(ServeError::InvalidPath);
    }
    if !plain && v[n - 1] == '/' {
        push_piece(&mut out, &index, 0, index.len());
    }
    Ok(out)
}

/// What the filesystem reports at a path.
#[derive(Clone, Copy, Debug, PartialEq, Eq, Structural)]
pub enum FileKind {
    Dir,
    File,
    Other,
}

/// The path of the index page of the directory `dir`.
pub fn index_path(dir: &str) -> (r: String)
    ensures
        r@ == joined(dir@, index_html()),
{
    proof {
        reveal_strlit("index.html");
    }
    let index = chars_of("index.html");
    assert(index@.subrange(0, index@.len() as int) =~= index@);
    let mut out = String::from_str(dir);
    push_piece(&mut out, &index, 0, index.len());
    out
}

/// The file served for the sanitized path `target`, given what exists there
/// (`None`: nothing) and whether its index page exists.
pub open spec fn located(target: Seq<char>, kind: Option<FileKind>, index_exists: bool) -> Result<
    Seq<char>,
    ServeError,
> {
    match kind {
        Some(FileKind::File) => Ok(target),
        Some(FileKind::Dir) => if index_exists {
            Ok(joined(target, index_html()))
        } else {
            Err(ServeError::NotFound)
        },
        _ => Err(ServeError::NotFound),
    }
}

/// The file to serve for the sanitized path `target`: a regular file is
/// served as it is, a directory by its `index.html`; anything else is
/// `NotFound`.
pub fn locate_file(target: &str, kind: Option<FileKind>, index_exists: bool) -> (r: Result<
    String,
    ServeError,
>)
    ensures
        result_view(r) == located(target@, kind, index_exists),
{
    match kind {
        Some(FileKind::File) => Ok(String::from_str(target)),
        Some(FileKind::Dir) => if index_exists {
            Ok(index_path(target))
        } else {
            Err(ServeError::NotFound)
        },
        _ => Err(ServeError::NotFound),
    }
}

proof fn lemma_split_has_no_slash(s: Seq<char>)
    ensures
        split_slash(s).len() >= 1,
        forall|i: int, k: int|
            0 <= i < split_slash(s).len() && 0 <= k < split_slash(s)[i].len() ==> #[trigger] split_slash(
                s,
            )[i][k] != '/',
    decreases s.len(),
{
    if s.len() > 0 {
        lemma_split_has_no_slash(s.drop_last());
        let p = split_slash(s.drop_last());
        if s.last() != '/' {
            let q = split_slash(s);
            assert forall|i: int, k: int| 0 <= i < q.len() && 0 <= k < q[i].len() implies #[trigger] q[i][k]
                != '/' by {
                if i == p.len() - 1 {
                    if k < p.last().len() {
                        assert(q[i][k] == p[i][k]);
                    }
                } else {
                    assert(q[i] == p[i]);
                }
            }
        } else {
            let q = split_slash(s);
            assert forall|i: int, k: int| 0 <= i < q.len() && 0 <= k < q[i].len() implies #[trigger] q[i][k]
                != '/' by {
                if i < p.len() {
                    assert(q[i] == p[i]);
                }
            }
        }
    }
}

proof fn lemma_joined_extends(base: Seq<char>, p: Seq<char>, seg: Seq<char>)
    requires
        seg.len() == 0 || seg[0] != '/',
        starts_with(p, base),
    ensures
        starts_with(joined(p, seg), base),
{
    let j = joined(p, seg);
    assert(j.subrange(0, base.len() as int) =~= p.subrange(0, base.len() as int));
}

proof fn lemma_push_segs_extends(base: Seq<char>, segs: Seq<Seq<char>>)
    requires
        forall|i: int| 0 <= i < segs.len() && segs[i].len() > 0 ==> #[trigger] segs[i][0] != '/',
    ensures
        starts_with(push_segs(base, segs), base),
    decreases segs.len(),
{
    if segs.len() > 0 {
        let d = segs.drop_last();
        assert forall|i: int| 0 <= i < d.len() && d[i].len() > 0 implies #[trigger] d[i][0] != '/' by {
            assert(d[i] == segs[i]);
        }
        lemma_push_segs_extends(base, d);
        let p = push_segs(base, d);
        let seg = segs.last();
        if is_plain(seg) {
            assert(segs[segs.len() - 1][0] != '/');
            lemma_joined_extends(base, p, seg);
        }
    } else {
        assert(base.subrange(0, base.len() as int) =~= base);
    }
}

/// A request tail with a `..` piece is refused, and every path that is
/// handed out lies under the served root.
pub proof fn law_no_escape(base: Seq<char>, tail: Seq<char>)
    ensures
        has_parent(split_slash(drop_leading_slashes(tail))) ==> sanitized(base, tail) is None,
        sanitized(base, tail) matches Some(p) ==> starts_with(p, base),
{
    reveal_strlit("index.html");
    let t = drop_leading_slashes(tail);
    let segs = split_slash(t);
    lemma_split_has_no_slash(t);
    if t.len() > 0 {
        assert forall|i: int| 0 <= i < segs.len() && segs[i].len() > 0 implies #[trigger] segs[i][0]
            != '/' by {
            assert(segs[i][0] == split_slash(t)[i][0]);
        }
        lemma_push_segs_extends(base, segs);
        lemma_joined_extends(base, push_segs(base, segs), index_html());
    } else {
        assert(base.subrange(0, base.len() as int) =~= base);
        lemma_joined_extends(base, base, index_html());
    }
}

/// Pieces that hold no `/` and none of which is `..`.
pub open spec fn clean_pieces(segs: Seq<Seq<char>>) -> bool {
    &&& forall|i: int, k: int|
        0 <= i < segs.len() && 0 <= k < segs[i].len() ==> #[trigger] segs[i][k] != '/'
    &&& forall|i: int| 0 <= i < segs.len() ==> #[trigger] segs[i] != parent_dir()
}

/// `p` is `base` with entry names appended: nothing that climbs out of it.
pub open spec fn below(base: Seq<char>, p: Seq<char>) -> bool {
    exists|segs: Seq<Seq<char>>| clean_pieces(segs) && p == #[trigger] push_segs(base, segs)
}

/// Every path handed out for a request is the served root followed by
/// entry names only, never `..` and never a new root.
pub proof fn law_only_entry_names(base: Seq<char>, tail: Seq<char>)
    ensures
        sanitized(base, tail) matches Some(p) ==> below(base, p),
{
    reveal_strlit("index.html");
    let ih = index_html();
    assert(ih.len() == 10);
    assert(is_plain(ih));
    assert(ih != parent_dir());
    let t = drop_leading_slashes(tail);
    let segs = split_slash(t);
    if t.len() == 0 {
        let one = seq![ih];
        assert(one.drop_last() =~= Seq::<Seq<char>>::empty());
        assert(one.last() == ih);
        assert(push_segs(base, one.drop_last()) == base);
        assert(push_segs(base, one) == joined(base, ih));
        assert(clean_pieces(one));
    } else if !has_parent(segs) {
        lemma_split_has_no_slash(t);
        assert forall|i: int| 0 <= i < segs.len() implies #[trigger] segs[i] != parent_dir() by {
            if segs[i] == parent_dir() {
                assert(has_parent(segs));
            }
        }
        assert(clean_pieces(segs));
        if !has_plain(segs) && tail.last() == '/' {
            let two = segs.push(ih);
            assert(two.drop_last() =~= segs);
            assert(two.last() == ih);
            assert(push_segs(base, two) == joined(push_segs(base, segs), ih));
            assert forall|i: int, k: int|
                0 <= i < two.len() && 0 <= k < two[i].len() implies #[trigger] two[i][k] != '/' by {
                if i < segs.len() {
                    assert(two[i] == segs[i]);
                }
            }
            assert forall|i: int| 0 <= i < two.len() implies #[trigger] two[i] != parent_dir() by {
                if i < segs.len() {
                    assert(two[i] == segs[i]);
                }
            }
            assert(clean_pieces(two));
        }
    }
}

/// A directory without an index page is not found, whatever tail named it.
pub proof fn law_directory_without_index(base: Seq<char>, tail: Seq<char>)
    ensures
        sanitized(base, tail) matches Some(p) ==> located(p, Some(FileKind::Dir), false) == Err::<
            Seq<char>,
            ServeError,
        >(ServeError::NotFound),
{
}

/// `path` joined onto `base` as `joined` describes.
pub fn join_path(base: &str, path: &str) -> (r: String)
    ensures
        r@ == joined(base@, path@),
{
    if path.unicode_len() > 0 && path.get_char(0) == '/' {
        return String::from_str(path);
    }
    let n = base.unicode_len();
    let mut out = String::from_str(base);
    if n > 0 && base.get_char(n - 1) != '/' {
        push_char(&mut out, '/');
        assert(out@ =~= base@ + seq!['/']);
    }
    out.append(path);
    out
}

} // verus!
