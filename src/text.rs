use vstd::prelude::*;

verus! {

/// `t` is a suffix of `s`.
pub open spec fn ends_with(s: Seq<char>, t: Seq<char>) -> bool {
    t.len() <= s.len() && s.subrange(s.len() - t.len(), s.len() as int) == t
}

/// `t` is a prefix of `s`.
pub open spec fn starts_with(s: Seq<char>, t: Seq<char>) -> bool {
    t.len() <= s.len() && s.subrange(0, t.len() as int) == t
}

/// `t` occurs in `s` at position `i`.
pub open spec fn occurs_at(s: Seq<char>, t: Seq<char>, i: int) -> bool {
    0 <= i && i + t.len() <= s.len() && s.subrange(i, i + t.len()) == t
}

/// `t` occurs somewhere in `s`.
pub open spec fn contains(s: Seq<char>, t: Seq<char>) -> bool {
    exists|i: int| occurs_at(s, t, i)
}

/// `c` lower-cases (ASCII only) to `d`.
pub open spec fn lowers_to(c: char, d: char) -> bool {
    if 'A' <= c && c <= 'Z' {
        (c as u32) + 32 == d as u32
    } else {
        c == d
    }
}

/// `s` lower-cases (ASCII only) to `t`.
pub open spec fn lowers_to_seq(s: Seq<char>, t: Seq<char>) -> bool {
    s.len() == t.len() && forall|i: int| 0 <= i < s.len() ==> lowers_to(#[trigger] s[i], t[i])
}

/// The text after the last `c` in `s`, or all of `s` where no `c` occurs.
pub open spec fn after_last(s: Seq<char>, c: char) -> Seq<char>
    decreases s.len(),
{
    if s.len() == 0 {
        s
    } else if s.last() == c {
        Seq::empty()
    } else {
        after_last(s.drop_last(), c).push(s.last())
    }
}

/// Relies on `String::push`: the character is appended at the end.
#[verifier::external_body]
pub(crate) fn push_char(s: &mut String, c: char)
    ensures
        final(s)@ == old(s)@.push(c),
{
    s.push(c);
}

/// The characters of a string.
pub fn chars_of(s: &str) -> (v: Vec<char>)
    ensures
        v@ == s@,
{
    let n = s.unicode_len();
    let mut v: Vec<char> = Vec::new();
    let mut i: usize = 0;
    while i < n
        invariant
            n == s@.len(),
            i <= n,
            v@ == s@.take(i as int),
        decreases n - i,
    {
        v.push(s.get_char(i));
        i += 1;
        assert(v@ =~= s@.take(i as int));
    }
    assert(s@.take(n as int) =~= s@);
    v
}

/// Appends `v[from..to]` to `out`.
pub fn push_range(out: &mut String, v: &Vec<char>, from: usize, to: usize)
    requires
        from <= to <= v@.len(),
    ensures
        final(out)@ == old(out)@ + v@.subrange(from as int, to as int),
{
    let mut i: usize = from;
    while i < to
        invariant
            from <= i <= to <= v@.len(),
            out@ == old(out)@ + v@.subrange(from as int, i as int),
        decreases to - i,
    {
        push_char(out, v[i]);
        i += 1;
        assert(out@ =~= old(out)@ + v@.subrange(from as int, i as int));
    }
}

/// Whether `t` occurs in `s` at position `i`.
pub fn occurs_at_exec(s: &Vec<char>, t: &Vec<char>, i: usize) -> (r: bool)
    ensures
        r == occurs_at(s@, t@, i as int),
{
    if t.len() > s.len() || i > s.len() - t.len() {
        return false;
    }
    let mut j: usize = 0;
    while j < t.len()
        invariant
            i + t@.len() <= s@.len(),
            s@.len() <= usize::MAX,
            j <= t@.len(),
            forall|k: int| 0 <= k < j ==> s@[i + k] == t@[k],
        decreases t@.len() - j,
    {
        if s[i + j] != t[j] {
            assert(s@.subrange(i as int, i + t@.len())[j as int] != t@[j as int]);
            return false;
        }
        j += 1;
    }
    assert(s@.subrange(i as int, i + t@.len()) =~= t@);
    true
}

/// Whether `t` is a suffix of `s`.
pub fn ends_with_exec(s: &Vec<char>, t: &Vec<char>) -> (r: bool)
    ensures
        r == ends_with(s@, t@),
{
    if t.len() > s.len() {
        return false;
    }
    occurs_at_exec(s, t, s.len() - t.len())
}

/// Whether `v[from..to]` lower-cases (ASCII only) to `t`.
pub fn lowers_to_exec(v: &Vec<char>, from: usize, to: usize, t: &Vec<char>) -> (r: bool)
    requires
        from <= to <= v@.len(),
    ensures
        r == lowers_to_seq(v@.subrange(from as int, to as int), t@),
{
    let ghost s = v@.subrange(from as int, to as int);
    if to - from != t.len() {
        return false;
    }
    let mut k: usize = 0;
    while k < t.len()
        invariant
            from <= to <= v@.len(),
            to - from == t@.len(),
            s == v@.subrange(from as int, to as int),
            k <= t@.len(),
            forall|i: int| 0 <= i < k ==> lowers_to(#[trigger] s[i], t@[i]),
        decreases t@.len() - k,
    {
        let c = v[from + k];
        let d = t[k];
        let ok = if 'A' <= c && c <= 'Z' {
            (c as u32) + 32 == d as u32
        } else {
            c == d
        };
        assert(s[k as int] == c);
        if !ok {
            return false;
        }
        k += 1;
    }
    true
}

/// The index in `v` where `after_last(v[from..], c)` starts.
pub fn after_last_index(v: &Vec<char>, from: usize, c: char) -> (r: usize)
    requires
        from <= v@.len(),
    ensures
        from <= r <= v@.len(),
        v@.subrange(r as int, v@.len() as int) == after_last(v@.subrange(from as int, v@.len() as int), c),
        r > from ==> v@[r - 1] == c,
{
    let n = v.len();
    let mut i: usize = n;
    while i > from && v[i - 1] != c
        invariant
            from <= i <= n == v@.len(),
            after_last(v@.subrange(from as int, n as int), c) == after_last(
                v@.subrange(from as int, i as int),
                c,
            ) + v@.subrange(i as int, n as int),
        decreases i,
    {
        let ghost w = v@.subrange(from as int, i as int);
        assert(w.drop_last() =~= v@.subrange(from as int, i - 1));
        assert(after_last(w, c) == after_last(w.drop_last(), c).push(v@[i - 1]));
        assert(after_last(w.drop_last(), c).push(v@[i - 1]) + v@.subrange(i as int, n as int)
            =~= after_last(w.drop_last(), c) + v@.subrange(i - 1, n as int));
        i -= 1;
    }
    let ghost w = v@.subrange(from as int, i as int);
    assert(after_last(w, c) =~= Seq::<char>::empty());
    assert(Seq::<char>::empty() + v@.subrange(i as int, n as int) =~= v@.subrange(i as int, n as int));
    i
}

} // verus!
