use vstd::prelude::*;
use crate::message::{DiffResource, LiveMessage, LiveMessageView};
use crate::text::{
    after_last, after_last_index, chars_of, ends_with, ends_with_exec, lowers_to_exec, lowers_to_seq,
    occurs_at_exec, push_char, push_range, starts_with,
};

verus! {

pub open spec fn index_html() -> Seq<char> {
    "index.html"@
}

pub open spec fn index_htm() -> Seq<char> {
    "index.htm"@
}

/// Where the part of `path` below `base` starts, if `path` lies under `base`
/// component by component.
pub open spec fn rel_start(base: Seq<char>, path: Seq<char>) -> Option<int> {
    if !starts_with(path, base) {
        None
    } else if path.len() == base.len() || base.len() == 0 || base.last() == '/' {
        Some(base.len() as int)
    } else if path[base.len() as int] == '/' {
        Some(base.len() as int + 1)
    } else {
        None
    }
}

/// Backslashes read as `/`.
pub open spec fn unify_seps(s: Seq<char>) -> Seq<char> {
    s.map_values(|c: char| if c == '\\' { '/' } else { c })
}

pub open spec fn drop_leading_slashes(s: Seq<char>) -> Seq<char>
    decreases s.len(),
{
    if s.len() > 0 && s[0] == '/' {
        drop_leading_slashes(s.drop_first())
    } else {
        s
    }
}

/// The last component of the slash-separated path `r` is exactly `name`.
pub open spec fn names_file(r: Seq<char>, name: Seq<char>) -> bool {
    r == name || ends_with(r, seq!['/'] + name)
}

/// The web path of a file whose path below the served root is `rel`: an
/// HTML index file stands for its directory, with a trailing slash.
pub open spec fn web_of_rel(rel: Seq<char>, resource: DiffResource) -> Seq<char> {
    let r = drop_leading_slashes(unify_seps(rel));
    if resource == DiffResource::Html && names_file(r, index_html()) {
        seq!['/'] + r.take(r.len() - index_html().len())
    } else if resource == DiffResource::Html && names_file(r, index_htm()) {
        seq!['/'] + r.take(r.len() - index_htm().len())
    } else {
        seq!['/'] + r
    }
}

/// The web path of `path` under the served root `base`, if it lies there.
pub open spec fn web_path(base: Seq<char>, path: Seq<char>, resource: DiffResource) -> Option<
    Seq<char>,
> {
    match rel_start(base, path) {
        Some(k) => Some(web_of_rel(path.skip(k), resource)),
        None => None,
    }
}

pub open spec fn opt_view(o: Option<String>) -> Option<Seq<char>> {
    match o {
        Some(s) => Some(s@),
        None => None,
    }
}

fn rel_start_exec(base: &Vec<char>, path: &Vec<char>) -> (r: Option<usize>)
    ensures
        match r {
            Some(k) => rel_start(base@, path@) == Some(k as int),
            None => rel_start(base@, path@) is None,
        },
{
    if base.len() > path.len() || !occurs_at_exec(path, base, 0) {
        return None;
    }
    if path.len() == base.len() || base.len() == 0 || base[base.len() - 1] == '/' {
        Some(base.len())
    } else if path[base.len()] == '/' {
        Some(base.len() + 1)
    } else {
        None
    }
}

fn names_file_exec(r: &Vec<char>, name: &Vec<char>) -> (b: bool)
    ensures
        b == names_file(r@, name@),
{
    let ghost slash_name = seq!['/'] + name@;
    if r.len() == name.len() {
        let e = occurs_at_exec(r, name, 0);
        assert(e ==> r@ =~= name@);
        assert(r@ == name@ ==> r@.subrange(0, name@.len() as int) =~= name@);
        return e;
    }
    if r.len() <= name.len() {
        return false;
    }
    let k = r.len() - name.len() - 1;
    let e = ends_with_exec(r, name);
    let b = r[k] == '/' && e;
    assert(b ==> r@.subrange(k as int, r@.len() as int) =~= slash_name);
    proof {
        if ends_with(r@, slash_name) {
            let tail = r@.subrange(k as int, r@.len() as int);
            assert(tail == slash_name);
            assert(tail[0] == '/');
            assert(r@.subrange(k + 1, r@.len() as int) =~= tail.subrange(1, tail.len() as int));
            assert(tail.subrange(1, tail.len() as int) =~= name@);
        }
    }
    b
}

/// The web path under which clients know the file at `path`, with `base_dir`
/// the served root; `None` where `path` does not lie under it.
pub fn to_web_path(base_dir: &str, path: &str, resource: &DiffResource) -> (r: Option<String>)
    ensures
        opt_view(r) == web_path(base_dir@, path@, *resource),
{
    let b = chars_of(base_dir);
    let p = chars_of(path);
    let start = match rel_start_exec(&b, &p) {
        Some(k) => k,
        None => return None,
    };
    let ghost rel = p@.skip(start as int);
    let mut i: usize = start;
    while i < p.len() && (p[i] == '/' || p[i] == '\\')
        invariant
            start <= i <= p@.len(),
            drop_leading_slashes(unify_seps(rel)) == drop_leading_slashes(
                unify_seps(p@.skip(i as int)),
            ),
        decreases p@.len() - i,
    {
        let ghost u = unify_seps(p@.skip(i as int));
        assert(u.drop_first() =~= unify_seps(p@.skip(i + 1)));
        i += 1;
    }
    let mut r: Vec<char> = Vec::new();
    let mut j: usize = i;
    while j < p.len()
        invariant
            i <= j <= p@.len(),
            r@ == unify_seps(p@.subrange(i as int, j as int)),
        decreases p@.len() - j,
    {
        let c = p[j];
        r.push(if c == '\\' { '/' } else { c });
        j += 1;
        assert(r@ =~= unify_seps(p@.subrange(i as int, j as int)));
    }
    assert(p@.subrange(i as int, p@.len() as int) =~= p@.skip(i as int));
    assert(drop_leading_slashes(r@) == r@);
    proof {
        reveal_strlit("index.html");
        reveal_strlit("index.htm");
    }
    let html = chars_of("index.html");
    let htm = chars_of("index.htm");
    let is_html_res = match resource {
        DiffResource::Html => true,
        DiffResource::Css => false,
    };
    let cut: usize = if is_html_res && names_file_exec(&r, &html) {
        10
    } else if is_html_res && names_file_exec(&r, &htm) {
        9
    } else {
        0
    };
    let mut out = String::new();
    push_char(&mut out, '/');
    push_range(&mut out, &r, 0, r.len() - cut);
    assert(r@.subrange(0, r@.len() - cut) =~= r@.take(r@.len() - cut));
    assert(r@.take(r@.len() as int) =~= r@);
    Some(out)
}

/// The extension of the file named by `path`: the text after the last `.` of
/// its last component, where that `.` is not the component's first character.
pub open spec fn extension(path: Seq<char>) -> Option<Seq<char>> {
    let name = after_last(path, '/');
    let e = after_last(name, '.');
    if e.len() + 1 < name.len() {
        Some(e)
    } else {
        None
    }
}

/// The resource kind of a file, by its extension, ignoring ASCII case.
pub open spec fn resource_of(path: Seq<char>) -> Option<DiffResource> {
    match extension(path) {
        Some(e) => if lowers_to_seq(e, "html"@) || lowers_to_seq(e, "htm"@) {
            Some(DiffResource::Html)
        } else if lowers_to_seq(e, "css"@) {
            Some(DiffResource::Css)
        } else {
            None
        },
        None => None,
    }
}

/// The message that announces a change to the file at `path`, with `base`
/// the served root.
pub open spec fn classified(base: Seq<char>, path: Seq<char>) -> Option<LiveMessageView> {
    match resource_of(path) {
        Some(res) => match web_path(base, path, res) {
            Some(w) => Some(LiveMessageView::Diff { path: w, resource: res }),
            None => None,
        },
        None => None,
    }
}

pub open spec fn opt_msg_view(o: Option<LiveMessage>) -> Option<LiveMessageView> {
    match o {
        Some(m) => Some(m@),
        None => None,
    }
}

/// The resource kind of the file at `path`, if it has one.
pub fn resource_kind(path: &str) -> (r: Option<DiffResource>)
    ensures
        r == resource_of(path@),
{
    let v = chars_of(path);
    let n = v.len();
    let name_start = after_last_index(&v, 0, '/');
    let dot = after_last_index(&v, name_start, '.');
    let ghost name = after_last(v@, '/');
    assert(v@.subrange(0, n as int) =~= v@);
    assert(name == v@.subrange(name_start as int, n as int));
    assert(after_last(name, '.') == v@.subrange(dot as int, n as int));
    if dot - name_start <= 1 {
        return None;
    }
    proof {
        reveal_strlit("html");
        reveal_strlit("htm");
        reveal_strlit("css");
    }
    let html = chars_of("html");
    let htm = chars_of("htm");
    let css = chars_of("css");
    if lowers_to_exec(&v, dot, n, &html) || lowers_to_exec(&v, dot, n, &htm) {
        Some(DiffResource::Html)
    } else if lowers_to_exec(&v, dot, n, &css) {
        Some(DiffResource::Css)
    } else {
        None
    }
}

/// Whether the file at `path` is an HTML page (extension `html` or `htm`,
/// in any ASCII case).
pub fn is_html(path: &str) -> (r: bool)
    ensures
        r == (resource_of(path@) == Some(DiffResource::Html)),
{
    match resource_kind(path) {
        Some(DiffResource::Html) => true,
        _ => false,
    }
}

/// The targeted update for a change to the file at `path`, with `base_dir`
/// the served root: `None` for files that are neither HTML nor CSS, or that
/// lie outside the root.
pub fn classify_path(base_dir: &str, path: &str) -> (r: Option<LiveMessage>)
    ensures
        opt_msg_view(r) == classified(base_dir@, path@),
{
    let resource = match resource_kind(path) {
        Some(res) => res,
        None => return None,
    };
    match to_web_path(base_dir, path, &resource) {
        Some(w) => Some(LiveMessage::Diff { path: w, resource }),
        None => None,
    }
}

} // verus!
