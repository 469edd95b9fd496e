use vstd::prelude::*;

verus! {

/// Position of the last occurrence of `c` in `s`, or -1 when there is none.
pub open spec fn last_index_of(s: Seq<char>, c: char) -> int
    decreases s.len(),
{
    if s.len() == 0 {
        -1
    } else if s.last() == c {
        s.len() - 1
    } else {
        last_index_of(s.drop_last(), c)
    }
}

/// The last `/`-separated segment of a path.
pub open spec fn basename(path: Seq<char>) -> Seq<char> {
    path.subrange(last_index_of(path, '/') + 1, path.len() as int)
}

/// Whether a path has at least two `/`-separated segments.
pub open spec fn has_parent_segment(path: Seq<char>) -> bool {
    last_index_of(path, '/') >= 0
}

/// The second-to-last `/`-separated segment of a path that has one.
pub open spec fn parent_segment(path: Seq<char>) -> Seq<char> {
    basename(path.subrange(0, last_index_of(path, '/')))
}

/// Whether `s` begins with `p`.
pub open spec fn starts_with(s: Seq<char>, p: Seq<char>) -> bool {
    p.len() <= s.len() && s.subrange(0, p.len() as int) == p
}

/// `t` with every non-overlapping occurrence of the non-empty `from`,
/// taken from left to right, replaced by `to`.
pub open spec fn replace_all(t: Seq<char>, from: Seq<char>, to: Seq<char>) -> Seq<char>
    decreases t.len(),
{
    if from.len() == 0 || t.len() < from.len() {
        t
    } else if t.subrange(0, from.len() as int) == from {
        to + replace_all(t.subrange(from.len() as int, t.len() as int), from, to)
    } else {
        seq![t[0]] + replace_all(t.subrange(1, t.len() as int), from, to)
    }
}

pub proof fn lemma_last_index_of(s: Seq<char>, c: char)
    ensures
        -1 <= last_index_of(s, c) < s.len(),
        last_index_of(s, c) >= 0 ==> s[last_index_of(s, c)] == c,
        forall|j: int| last_index_of(s, c) < j < s.len() ==> s[j] != c,
    decreases s.len(),
{
    if s.len() > 0 && s.last() != c {
        lemma_last_index_of(s.drop_last(), c);
        assert forall|j: int| last_index_of(s, c) < j < s.len() implies s[j] != c by {
            if j < s.len() - 1 {
                assert(s.drop_last()[j] == s[j]);
            }
        }
    }
}

/// The characters of a string.
pub fn chars_of(s: &str) -> (r: Vec<char>)
    ensures
        r@ == s@,
{
    let mut v: Vec<char> = Vec::new();
    for c in it: s.chars()
        invariant
            it.seq() == s@,
            v@ == it.seq().subrange(0, it.index() as int),
    {
        v.push(c);
        assert(v@ =~= it.seq().subrange(0, it.index() + 1));
    }
    assert(v@ =~= s@);
    v
}

/// The string made of the given characters.
/// Relies on collecting `char`s into a `String`, which appends each in order.
#[verifier::external_body]
pub fn string_of(v: &[char]) -> (r: String)
    ensures
        r@ == v@,
{
    v.iter().collect()
}

/// Whether two character sequences are equal.
pub fn chars_eq(a: &[char], b: &[char]) -> (r: bool)
    ensures
        r == (a@ == b@),
{
    if a.len() != b.len() {
        return false;
    }
    let mut i: usize = 0;
    while i < a.len()
        invariant
            a@.len() == b@.len(),
            0 <= i <= a@.len(),
            forall|j: int| 0 <= j < i ==> a@[j] == b@[j],
        decreases a@.len() - i,
    {
        if a[i] != b[i] {
            return false;
        }
        i = i + 1;
    }
    assert(a@ =~= b@);
    true
}

/// The characters `s[from..to]`.
pub fn sub_chars(s: &[char], from: usize, to: usize) -> (r: Vec<char>)
    requires
        from <= to <= s@.len(),
    ensures
        r@ == s@.subrange(from as int, to as int),
{
    let mut r: Vec<char> = Vec::new();
    let mut i: usize = from;
    while i < to
        invariant
            from <= i <= to <= s@.len(),
            r@ == s@.subrange(from as int, i as int),
        decreases to - i,
    {
        r.push(s[i]);
        i = i + 1;
        assert(r@ =~= s@.subrange(from as int, i as int));
    }
    r
}

/// Appends the characters of `b` to `a`.
pub fn push_all(a: &mut Vec<char>, b: &[char])
    ensures
        final(a)@ == old(a)@ + b@,
{
    let mut i: usize = 0;
    while i < b.len()
        invariant
            0 <= i <= b@.len(),
            a@ == old(a)@ + b@.subrange(0, i as int),
        decreases b@.len() - i,
    {
        a.push(b[i]);
        i = i + 1;
        assert(a@ =~= old(a)@ + b@.subrange(0, i as int));
    }
    assert(b@.subrange(0, b@.len() as int) =~= b@);
}

/// The position of the last `c` in `s`, if any.
pub fn find_last(s: &[char], c: char) -> (r: Option<usize>)
    ensures
        match r {
            Some(i) => last_index_of(s@, c) == i && i < s@.len(),
            None => last_index_of(s@, c) == -1,
        },
{
    proof {
        lemma_last_index_of(s@, c);
    }
    let mut i: usize = s.len();
    while i > 0
        invariant
            i <= s@.len(),
            forall|j: int| i <= j < s@.len() ==> s@[j] != c,
        decreases i,
    {
        if s[i - 1] == c {
            assert(s@[i - 1] == c);
            assert(last_index_of(s@, c) == i - 1) by {
                lemma_last_index_of(s@, c);
                let r = last_index_of(s@, c);
                if r > i - 1 {
                    assert(s@[r] == c);
                } else if r < i - 1 {
                    assert(s@[i - 1] != c);
                }
            }
            return Some(i - 1);
        }
        i = i - 1;
    }
    assert(last_index_of(s@, c) == -1) by {
        lemma_last_index_of(s@, c);
        if last_index_of(s@, c) >= 0 {
            assert(s@[last_index_of(s@, c)] == c);
        }
    }
    None
}

/// The last `/`-separated segment of a path.
pub fn basename_of(path: &[char]) -> (r: Vec<char>)
    ensures
        r@ == basename(path@),
{
    proof {
        lemma_last_index_of(path@, '/');
    }
    let n: usize = path.len();
    let start: usize = match find_last(path, '/') {
        Some(i) => i + 1,
        None => 0,
    };
    sub_chars(path, start, n)
}

/// The second-to-last `/`-separated segment of a path, if it has one.
pub fn parent_segment_of(path: &[char]) -> (r: Option<Vec<char>>)
    ensures
        match r {
            Some(p) => has_parent_segment(path@) && p@ == parent_segment(path@),
            None => !has_parent_segment(path@),
        },
{
    proof {
        lemma_last_index_of(path@, '/');
    }
    match find_last(path, '/') {
        Some(i) => {
            let dir = sub_chars(path, 0, i);
            Some(basename_of(dir.as_slice()))
        },
        None => None,
    }
}

/// Position of the first occurrence of `c` in `s`, or the length of `s`.
pub open spec fn index_of(s: Seq<char>, c: char) -> int
    decreases s.len(),
{
    if s.len() == 0 {
        0
    } else if s[0] == c {
        0
    } else {
        1 + index_of(s.drop_first(), c)
    }
}

pub proof fn lemma_index_of(s: Seq<char>, c: char)
    ensures
        0 <= index_of(s, c) <= s.len(),
        index_of(s, c) < s.len() ==> s[index_of(s, c)] == c,
        forall|j: int| 0 <= j < index_of(s, c) ==> s[j] != c,
    decreases s.len(),
{
    if s.len() > 0 && s[0] != c {
        lemma_index_of(s.drop_first(), c);
        assert forall|j: int| 0 <= j < index_of(s, c) implies s[j] != c by {
            if j > 0 {
                assert(s.drop_first()[j - 1] == s[j]);
            }
        }
    }
}

/// The position of the first `c` in `s[from..]`, or the length of `s`.
pub fn find_from(s: &[char], c: char, from: usize) -> (r: usize)
    requires
        from <= s@.len(),
    ensures
        r == from + index_of(s@.subrange(from as int, s@.len() as int), c),
        from <= r <= s@.len(),
{
    let ghost t = s@.subrange(from as int, s@.len() as int);
    proof {
        lemma_index_of(t, c);
    }
    let mut i: usize = from;
    while i < s.len()
        invariant
            from <= i <= s@.len(),
            t == s@.subrange(from as int, s@.len() as int),
            forall|j: int| from <= j < i ==> s@[j] != c,
        decreases s@.len() - i,
    {
        if s[i] == c {
            proof {
                lemma_index_of(t, c);
                let k = index_of(t, c);
                assert(t[i - from] == c);
                if k < i - from {
                    assert(t[k] == s@[from + k]);
                }
            }
            return i;
        }
        i = i + 1;
    }
    proof {
        lemma_index_of(t, c);
        let k = index_of(t, c);
        if k < t.len() {
            assert(t[k] == s@[from + k]);
        }
    }
    i
}

fn matches_at(t: &[char], p: &[char], pos: usize) -> (r: bool)
    requires
        pos + p@.len() <= t@.len(),
    ensures
        r == (t@.subrange(pos as int, pos + p@.len()) == p@),
{
    let n: usize = t.len();
    let mut j: usize = 0;
    while j < p.len()
        invariant
            pos + p@.len() <= t@.len(),
            n == t@.len(),
            j <= p@.len(),
            forall|i: int| 0 <= i < j ==> t@[pos + i] == p@[i],
        decreases p@.len() - j,
    {
        if t[pos + j] != p[j] {
            assert(t@.subrange(pos as int, pos + p@.len())[j as int] != p@[j as int]);
            return false;
        }
        j = j + 1;
    }
    assert(t@.subrange(pos as int, pos + p@.len()) =~= p@);
    true
}

/// `t` with every non-overlapping occurrence of `from`, left to right,
/// replaced by `to`; `t` itself when `from` is empty.
pub fn replace_chars(t: &[char], from: &[char], to: &[char]) -> (r: Vec<char>)
    ensures
        r@ == replace_all(t@, from@, to@),
{
    let n: usize = t.len();
    if from.len() == 0 {
        return sub_chars(t, 0, n);
    }
    let mut out: Vec<char> = Vec::new();
    let mut pos: usize = 0;
    assert(t@.subrange(0, n as int) =~= t@);
    while pos < n
        invariant
            n == t@.len(),
            from@.len() > 0,
            pos <= n,
            out@ + replace_all(t@.subrange(pos as int, n as int), from@, to@) == replace_all(t@, from@, to@),
        decreases n - pos,
    {
        let ghost rest = t@.subrange(pos as int, n as int);
        if n - pos < from.len() {
            let tail = sub_chars(t, pos, n);
            push_all(&mut out, tail.as_slice());
            assert(t@.subrange(n as int, n as int) =~= Seq::<char>::empty());
            assert(replace_all(Seq::<char>::empty(), from@, to@) == Seq::<char>::empty());
            assert(out@ + Seq::<char>::empty() =~= out@);
            pos = n;
        } else if matches_at(t, from, pos) {
            assert(rest.subrange(0, from@.len() as int) =~= t@.subrange(pos as int, pos + from@.len()));
            assert(rest.subrange(from@.len() as int, rest.len() as int) =~= t@.subrange(
                pos + from@.len(),
                n as int,
            ));
            push_all(&mut out, to);
            pos = pos + from.len();
            assert(out@ + replace_all(t@.subrange(pos as int, n as int), from@, to@) =~= replace_all(
                t@,
                from@,
                to@,
            ));
        } else {
            assert(rest.subrange(0, from@.len() as int) =~= t@.subrange(pos as int, pos + from@.len()));
            assert(rest.subrange(1, rest.len() as int) =~= t@.subrange(pos + 1, n as int));
            out.push(t[pos]);
            pos = pos + 1;
            assert(out@ + replace_all(t@.subrange(pos as int, n as int), from@, to@) =~= replace_all(
                t@,
                from@,
                to@,
            ));
        }
    }
    assert(replace_all(t@.subrange(n as int, n as int), from@, to@) =~= Seq::<char>::empty());
    assert(out@ + Seq::<char>::empty() =~= out@);
    out
}

/// Whether two strings are equal.
pub fn str_eq(a: &str, b: &str) -> (r: bool)
    ensures
        r == (a@ == b@),
{
    let x = chars_of(a);
    let y = chars_of(b);
    chars_eq(x.as_slice(), y.as_slice())
}

/// Appends the characters of `s` to `v`.
pub fn push_str(v: &mut Vec<char>, s: &str)
    ensures
        final(v)@ == old(v)@ + s@,
{
    let c = chars_of(s);
    push_all(v, c.as_slice());
}

} // verus!
