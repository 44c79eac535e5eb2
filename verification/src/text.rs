//! Character sequences: the text operations that the rest of the crate is built on.
//!
//! Every operation is specified over `Seq<char>` and implemented over `Vec<char>`.

use vstd::prelude::*;

verus! {

/// `String::push` of the standard library puts the character `ch` at the end of the
/// string: afterwards the string holds what it held, and then `ch`.
pub assume_specification[ String::push ](s: &mut String, ch: char)
    ensures
        final(s)@ == old(s)@.push(ch),
;

/// The characters of `s`, in order.
pub fn chars_of(s: &str) -> (out: Vec<char>)
    ensures
        out@ == s@,
{
    let mut out: Vec<char> = Vec::new();
    for c in it: s.chars()
        invariant
            out@ == it.seq().take(it.index()),
            it.seq() == s@,
    {
        out.push(c);
    }
    out
}

/// The string made of the characters of `v`, in order.
pub fn string_of(v: &Vec<char>) -> (out: String)
    ensures
        out@ == v@,
{
    let mut out = String::new();
    let mut i: usize = 0;
    while i < v.len()
        invariant
            i <= v.len(),
            out@ == v@.take(i as int),
        decreases v.len() - i,
    {
        out.push(v[i]);
        i += 1;
    }
    out
}

/// A copy of the characters of `s` from index `from` up to, not including, `to`.
pub fn copy_range(s: &Vec<char>, from: usize, to: usize) -> (out: Vec<char>)
    requires
        from <= to <= s.len(),
    ensures
        out@ == s@.subrange(from as int, to as int),
{
    let mut out: Vec<char> = Vec::new();
    let mut i: usize = from;
    while i < to
        invariant
            from <= i <= to <= s.len(),
            out@ == s@.subrange(from as int, i as int),
        decreases to - i,
    {
        out.push(s[i]);
        i += 1;
    }
    out
}

/// Appends the characters of `tail` to `buf`.
pub fn append(buf: &mut Vec<char>, tail: &Vec<char>)
    ensures
        final(buf)@ == old(buf)@ + tail@,
{
    let mut i: usize = 0;
    while i < tail.len()
        invariant
            i <= tail.len(),
            buf@ == old(buf)@ + tail@.take(i as int),
        decreases tail.len() - i,
    {
        buf.push(tail[i]);
        i += 1;
    }
    assert(tail@.take(tail.len() as int) == tail@);
}

/// Whether two character sequences are the same.
pub fn same_text(a: &Vec<char>, b: &Vec<char>) -> (r: bool)
    ensures
        r == (a@ == b@),
{
    if a.len() != b.len() {
        return false;
    }
    let mut i: usize = 0;
    while i < a.len()
        invariant
            i <= a.len(),
            a.len() == b.len(),
            a@.take(i as int) == b@.take(i as int),
        decreases a.len() - i,
    {
        if a[i] != b[i] {
            return false;
        }
        assert(a@.take(i + 1) == a@.take(i as int).push(a@[i as int]));
        assert(b@.take(i + 1) == b@.take(i as int).push(b@[i as int]));
        i += 1;
    }
    assert(a@.take(a.len() as int) == a@);
    assert(b@.take(b.len() as int) == b@);
    true
}

/// Whether `c` is white space: a character with the Unicode property White_Space.
pub open spec fn is_blank(c: char) -> bool {
    let n = c as u32;
    ||| 0x09 <= n <= 0x0D
    ||| n == 0x20
    ||| n == 0x85
    ||| n == 0xA0
    ||| n == 0x1680
    ||| 0x2000 <= n <= 0x200A
    ||| n == 0x2028
    ||| n == 0x2029
    ||| n == 0x202F
    ||| n == 0x205F
    ||| n == 0x3000
}

/// Decides `is_blank`.
pub fn is_blank_char(c: char) -> (r: bool)
    ensures
        r == is_blank(c),
{
    let n: u32 = c as u32;
    (0x09 <= n && n <= 0x0D) || n == 0x20 || n == 0x85 || n == 0xA0 || n == 0x1680 || (0x2000 <= n
        && n <= 0x200A) || n == 0x2028 || n == 0x2029 || n == 0x202F || n == 0x205F || n == 0x3000
}

/// `s` without its leading white space.
pub open spec fn trim_front(s: Seq<char>) -> Seq<char>
    decreases s.len(),
{
    if s.len() > 0 && is_blank(s.first()) {
        trim_front(s.drop_first())
    } else {
        s
    }
}

/// `s` without its trailing white space.
pub open spec fn trim_back(s: Seq<char>) -> Seq<char>
    decreases s.len(),
{
    if s.len() > 0 && is_blank(s.last()) {
        trim_back(s.drop_last())
    } else {
        s
    }
}

/// `s` without its leading and trailing white space.
pub open spec fn trimmed(s: Seq<char>) -> Seq<char> {
    trim_back(trim_front(s))
}

/// Removes leading and trailing white space.
pub fn trim(s: &Vec<char>) -> (out: Vec<char>)
    ensures
        out@ == trimmed(s@),
{
    let mut a: usize = 0;
    assert(s@.skip(0) == s@);
    while a < s.len() && is_blank_char(s[a])
        invariant
            a <= s.len(),
            trim_front(s@) == trim_front(s@.skip(a as int)),
        decreases s.len() - a,
    {
        assert(s@.skip(a as int).drop_first() == s@.skip(a + 1));
        a += 1;
    }
    let mut b: usize = s.len();
    assert(s@.skip(a as int) == s@.subrange(a as int, b as int));
    while b > a && is_blank_char(s[b - 1])
        invariant
            a <= b <= s.len(),
            trimmed(s@) == trim_back(s@.subrange(a as int, b as int)),
        decreases b,
    {
        assert(s@.subrange(a as int, b as int).drop_last() == s@.subrange(a as int, b - 1));
        b -= 1;
    }
    copy_range(s, a, b)
}

/// The character sequences that the vectors of `v` hold.
pub open spec fn texts(v: Seq<Vec<char>>) -> Seq<Seq<char>> {
    Seq::new(v.len(), |i: int| v[i]@)
}

/// The character sequences that the strings of `v` hold.
pub open spec fn strings(v: Seq<String>) -> Seq<Seq<char>> {
    Seq::new(v.len(), |i: int| v[i]@)
}

/// Each sequence of `v` as a string.
pub fn strings_of(v: &Vec<Vec<char>>) -> (out: Vec<String>)
    ensures
        strings(out@) == texts(v@),
{
    let mut out: Vec<String> = Vec::new();
    let mut k: usize = 0;
    while k < v.len()
        invariant
            k <= v.len(),
            strings(out@) == texts(v@).take(k as int),
        decreases v.len() - k,
    {
        let f = string_of(&v[k]);
        proof {
            assert(strings(out@.push(f)) == strings(out@).push(f@));
            assert(texts(v@).take(k + 1) == texts(v@).take(k as int).push(v@[k as int]@));
        }
        out.push(f);
        k += 1;
    }
    assert(texts(v@).take(v.len() as int) == texts(v@));
    out
}

/// Whether `p` stands in `s` at index `i`.
pub open spec fn occurs_at(s: Seq<char>, p: Seq<char>, i: int) -> bool {
    0 <= i && i + p.len() <= s.len() && s.subrange(i, i + p.len()) == p
}

/// The least index at or after `from` at which `p` stands in `s`, if there is one.
pub open spec fn first_match_from(s: Seq<char>, p: Seq<char>, from: int) -> Option<int>
    decreases s.len() + 1 - from,
{
    if from < 0 || from + p.len() > s.len() {
        None
    } else if occurs_at(s, p, from) {
        Some(from)
    } else {
        first_match_from(s, p, from + 1)
    }
}

/// The least index at which `p` stands in `s`, if there is one.
pub open spec fn first_match(s: Seq<char>, p: Seq<char>) -> Option<int> {
    first_match_from(s, p, 0)
}

/// `first_match_from` finds an occurrence, the earliest one, exactly when there is one.
pub proof fn lemma_first_match_from(s: Seq<char>, p: Seq<char>, from: int)
    requires
        0 <= from,
    ensures
        match first_match_from(s, p, from) {
            Some(i) => from <= i && occurs_at(s, p, i) && forall|j: int|
                from <= j < i ==> !occurs_at(s, p, j),
            None => forall|j: int| from <= j ==> !occurs_at(s, p, j),
        },
    decreases s.len() + 1 - from,
{
    if from + p.len() > s.len() {
    } else if occurs_at(s, p, from) {
    } else {
        lemma_first_match_from(s, p, from + 1);
    }
}

/// An occurrence before which there is none is the first match.
pub proof fn lemma_first_match_is(s: Seq<char>, p: Seq<char>, i: int)
    requires
        occurs_at(s, p, i),
        forall|j: int| 0 <= j < i ==> !occurs_at(s, p, j),
    ensures
        first_match(s, p) == Some(i),
{
    lemma_first_match_from(s, p, 0);
}

/// Where `p` stands nowhere in `s`, there is no first match.
pub proof fn lemma_first_match_none(s: Seq<char>, p: Seq<char>)
    requires
        forall|j: int| !occurs_at(s, p, j),
    ensures
        first_match(s, p) is None,
{
    lemma_first_match_from(s, p, 0);
}

/// Decides `occurs_at`.
pub fn matches_at(s: &Vec<char>, p: &Vec<char>, i: usize) -> (r: bool)
    ensures
        r == occurs_at(s@, p@, i as int),
{
    if p.len() > s.len() || i > s.len() - p.len() {
        return false;
    }
    let mut k: usize = 0;
    while k < p.len()
        invariant
            k <= p.len(),
            i + p.len() <= s.len(),
            s@.subrange(i as int, i + k) == p@.take(k as int),
        decreases p.len() - k,
    {
        if s[i + k] != p[k] {
            assert(s@.subrange(i as int, i + p.len())[k as int] != p@[k as int]);
            return false;
        }
        assert(s@.subrange(i as int, i + k + 1) == s@.subrange(i as int, i + k).push(
            s@[i + k],
        ));
        assert(p@.take(k + 1) == p@.take(k as int).push(p@[k as int]));
        k += 1;
    }
    assert(p@.take(p.len() as int) == p@);
    true
}

/// Whether `s` begins with `p`.
pub fn starts_with(s: &Vec<char>, p: &Vec<char>) -> (r: bool)
    ensures
        r == p@.is_prefix_of(s@),
{
    let r = matches_at(s, p, 0);
    assert(s@.subrange(0, p@.len() as int) == p@ <==> p@ == s@.subrange(0, p@.len() as int));
    r
}

/// `s` cut at each occurrence of `p`, the occurrences taken from left to right and
/// never overlapping: the stretches before, between and after them. With no
/// occurrence, or an empty `p`, the one piece is `s` itself.
pub open spec fn pieces(s: Seq<char>, p: Seq<char>) -> Seq<Seq<char>>
    decreases s.len(),
{
    if p.len() == 0 {
        seq![s]
    } else {
        match first_match(s, p) {
            None => seq![s],
            Some(i) => {
                proof {
                    lemma_first_match_from(s, p, 0);
                }
                seq![s.take(i)] + pieces(s.skip(i + p.len()), p)
            },
        }
    }
}

/// There is always at least one piece.
pub proof fn lemma_pieces_len(s: Seq<char>, p: Seq<char>)
    ensures
        pieces(s, p).len() >= 1,
{
}

/// Cuts `s` at each occurrence of `p`.
pub fn split(s: &Vec<char>, p: &Vec<char>) -> (out: Vec<Vec<char>>)
    ensures
        texts(out@) == pieces(s@, p@),
{
    let mut out: Vec<Vec<char>> = Vec::new();
    let n: usize = s.len();
    let m: usize = p.len();
    if m == 0 || m > n {
        out.push(copy_range(s, 0, n));
        proof {
            assert(s@.subrange(0, n as int) == s@);
            if m > n {
                lemma_first_match_from(s@, p@, 0);
            }
            assert(texts(out@) == seq![s@]);
        }
        return out;
    }
    let mut start: usize = 0;
    let mut i: usize = 0;
    proof {
        assert(s@.skip(0) == s@);
        assert(texts(out@) == Seq::<Seq<char>>::empty());
    }
    while i <= n - m
        invariant
            n == s.len(),
            m == p.len(),
            0 < m <= n,
            start <= i <= n,
            pieces(s@, p@) == texts(out@) + pieces(s@.skip(start as int), p@),
            first_match(s@.skip(start as int), p@) == first_match_from(
                s@.skip(start as int),
                p@,
                i - start,
            ),
        decreases n - i,
    {
        let ghost rest = s@.skip(start as int);
        assert(rest.subrange(i - start, i - start + m) == s@.subrange(i as int, i + m));
        if matches_at(s, p, i) {
            let piece = copy_range(s, start, i);
            proof {
                assert(occurs_at(rest, p@, i - start));
                assert(first_match(rest, p@) == Some(i - start));
                assert(rest.take(i - start) == s@.subrange(start as int, i as int));
                assert(rest.skip(i - start + m) == s@.skip(i + m));
                assert(pieces(rest, p@) == seq![piece@] + pieces(s@.skip(i + m), p@));
                assert(texts(out@.push(piece)) == texts(out@) + seq![piece@]);
            }
            out.push(piece);
            start = i + m;
            i = start;
        } else {
            assert(!occurs_at(rest, p@, i - start));
            i += 1;
        }
    }
    let last = copy_range(s, start, n);
    proof {
        let rest = s@.skip(start as int);
        assert(first_match(rest, p@) is None);
        assert(rest == s@.subrange(start as int, n as int));
        assert(texts(out@.push(last)) == texts(out@) + seq![last@]);
    }
    out.push(last);
    out
}

/// The first match of `p` in `s` at or after `k` is the first match in what follows
/// the first `k` characters, moved by `k`.
pub proof fn lemma_first_match_skip(s: Seq<char>, p: Seq<char>, k: int)
    requires
        0 <= k <= s.len(),
    ensures
        first_match(s.skip(k), p) == match first_match_from(s, p, k) {
            Some(i) => Some(i - k),
            None => None::<int>,
        },
{
    let rest = s.skip(k);
    lemma_first_match_from(s, p, k);
    lemma_first_match_from(rest, p, 0);
    assert forall|j: int| 0 <= j implies #[trigger] occurs_at(rest, p, j) == occurs_at(
        s,
        p,
        j + k,
    ) by {
        if j + p.len() <= rest.len() {
            assert(rest.subrange(j, j + p.len()) == s.subrange(j + k, j + k + p.len()));
        }
    }
    match first_match_from(s, p, k) {
        Some(i) => {
            assert(occurs_at(rest, p, i - k));
            match first_match(rest, p) {
                Some(r) => {
                    assert(occurs_at(s, p, r + k));
                },
                None => {},
            }
        },
        None => {
            match first_match(rest, p) {
                Some(r) => {
                    assert(occurs_at(s, p, r + k));
                },
                None => {},
            }
        },
    }
}

/// A one-character pattern stands where that character stands.
pub proof fn lemma_occurs_at_char(s: Seq<char>, c: char, i: int)
    ensures
        occurs_at(s, seq![c], i) <==> (0 <= i < s.len() && s[i] == c),
{
    if 0 <= i < s.len() {
        if s[i] == c {
            assert(s.subrange(i, i + 1) == seq![c]);
        } else {
            assert(s.subrange(i, i + 1)[0] != seq![c][0]);
        }
    }
}

/// Finds the first occurrence of `p` in `s` at or after `from`.
pub fn find(s: &Vec<char>, p: &Vec<char>, from: usize) -> (r: Option<usize>)
    ensures
        match r {
            Some(i) => first_match_from(s@, p@, from as int) == Some(i as int),
            None => first_match_from(s@, p@, from as int) is None,
        },
{
    let n: usize = s.len();
    let m: usize = p.len();
    if m > n || from > n - m {
        return None;
    }
    let mut i: usize = from;
    while i <= n - m
        invariant
            n == s.len(),
            m == p.len(),
            m <= n,
            from <= i,
            first_match_from(s@, p@, from as int) == first_match_from(s@, p@, i as int),
        decreases n - i,
    {
        if matches_at(s, p, i) {
            return Some(i);
        }
        proof {
            if m == 0 {
                assert(s@.subrange(i as int, i as int) == p@);
            }
        }
        i += 1;
    }
    None
}

} // verus!
