//! What holds of trimming and cutting.

use crate::text::{
    first_match, is_blank, lemma_first_match_from, lemma_first_match_is, lemma_first_match_none,
    lemma_occurs_at_char, lemma_pieces_len, occurs_at, pieces, trim_back, trim_front, trimmed,
};
use vstd::prelude::*;

verus! {

/// Whether `s` is nothing but white space.
pub open spec fn all_blank(s: Seq<char>) -> bool {
    forall|i: int| 0 <= i < s.len() ==> is_blank(#[trigger] s[i])
}

/// Whether `s` has no white space at either end.
pub open spec fn is_tight(s: Seq<char>) -> bool {
    s.len() == 0 || (!is_blank(s.first()) && !is_blank(s.last()))
}

/// Whether the character `c` stands nowhere in `s`.
pub open spec fn free_of(s: Seq<char>, c: char) -> bool {
    forall|i: int| 0 <= i < s.len() ==> #[trigger] s[i] != c
}

/// White space in front of a text that does not begin with any is what `trim_front`
/// takes off.
pub proof fn lemma_trim_front_of_padded(u: Seq<char>, v: Seq<char>)
    requires
        all_blank(u),
        v.len() == 0 || !is_blank(v.first()),
    ensures
        trim_front(u + v) == v,
    decreases u.len(),
{
    if u.len() == 0 {
        assert(u + v == v);
    } else {
        assert((u + v).first() == u[0]);
        assert((u + v).drop_first() == u.drop_first() + v);
        assert forall|i: int| 0 <= i < u.drop_first().len() implies is_blank(
            #[trigger] u.drop_first()[i],
        ) by {
            assert(u.drop_first()[i] == u[i + 1]);
        }
        lemma_trim_front_of_padded(u.drop_first(), v);
    }
}

/// White space behind a text that does not end with any is what `trim_back` takes off.
pub proof fn lemma_trim_back_of_padded(v: Seq<char>, w: Seq<char>)
    requires
        all_blank(w),
        v.len() == 0 || !is_blank(v.last()),
    ensures
        trim_back(v + w) == v,
    decreases w.len(),
{
    if w.len() == 0 {
        assert(v + w == v);
    } else {
        assert((v + w).last() == w[w.len() - 1]);
        assert((v + w).drop_last() == v + w.drop_last());
        assert forall|i: int| 0 <= i < w.drop_last().len() implies is_blank(
            #[trigger] w.drop_last()[i],
        ) by {
            assert(w.drop_last()[i] == w[i]);
        }
        lemma_trim_back_of_padded(v, w.drop_last());
    }
}

/// A tight text with white space around it is what is left when the whole is trimmed.
pub proof fn lemma_trimmed_of_padded(u: Seq<char>, h: Seq<char>, w: Seq<char>)
    requires
        all_blank(u),
        all_blank(w),
        is_tight(h),
    ensures
        trimmed(u + h + w) == h,
{
    if h.len() == 0 {
        assert(u + h + w == (u + w) + h);
        assert(all_blank(u + w));
        lemma_trim_front_of_padded(u + w, h);
        assert(trim_back(h) == h);
    } else {
        assert(u + h + w == u + (h + w));
        assert((h + w).first() == h.first());
        lemma_trim_front_of_padded(u, h + w);
        lemma_trim_back_of_padded(h, w);
    }
}

/// A tight text is its own trimming.
pub proof fn lemma_trimmed_of_tight(h: Seq<char>)
    requires
        is_tight(h),
    ensures
        trimmed(h) == h,
{
    let e = Seq::<char>::empty();
    assert(e + h + e == h);
    lemma_trimmed_of_padded(e, h, e);
}

/// The white space that `trim_front` takes off `s`.
pub open spec fn front_padding(s: Seq<char>) -> Seq<char> {
    s.take(s.len() - trim_front(s).len())
}

/// The white space that `trim_back` takes off `s`.
pub open spec fn back_padding(s: Seq<char>) -> Seq<char> {
    s.skip(trim_back(s).len() as int)
}

/// `trim_front` takes white space off the front, and all of it.
pub proof fn lemma_trim_front_parts(s: Seq<char>)
    ensures
        trim_front(s).len() <= s.len(),
        all_blank(front_padding(s)),
        s == front_padding(s) + trim_front(s),
        trim_front(s).len() == 0 || !is_blank(trim_front(s).first()),
    decreases s.len(),
{
    if s.len() > 0 && is_blank(s.first()) {
        let rest = s.drop_first();
        lemma_trim_front_parts(rest);
        assert(front_padding(s) == seq![s.first()] + front_padding(rest));
        assert(s == seq![s.first()] + rest);
    } else {
        assert(front_padding(s) == Seq::<char>::empty());
    }
}

/// `trim_back` takes white space off the back, and all of it.
pub proof fn lemma_trim_back_parts(s: Seq<char>)
    ensures
        trim_back(s).len() <= s.len(),
        all_blank(back_padding(s)),
        s == trim_back(s) + back_padding(s),
        trim_back(s).len() == 0 || !is_blank(trim_back(s).last()),
    decreases s.len(),
{
    if s.len() > 0 && is_blank(s.last()) {
        let init = s.drop_last();
        lemma_trim_back_parts(init);
        assert(back_padding(s) == back_padding(init).push(s.last()));
        assert(s == init.push(s.last()));
    } else {
        assert(back_padding(s) == Seq::<char>::empty());
    }
}

/// Every text is its trimming with white space around it, and its trimming is tight.
pub proof fn lemma_trimmed_parts(s: Seq<char>)
    ensures
        is_tight(trimmed(s)),
        all_blank(front_padding(s)),
        all_blank(back_padding(trim_front(s))),
        s == front_padding(s) + trimmed(s) + back_padding(trim_front(s)),
{
    let g = trim_front(s);
    lemma_trim_front_parts(s);
    lemma_trim_back_parts(g);
    let h = trimmed(s);
    if h.len() > 0 {
        assert(h.first() == g.first());
    }
    assert(s == front_padding(s) + (h + back_padding(g)));
}

/// A text in which the first character of `p` stands nowhere holds no occurrence of
/// `p`, so cutting it at `p` leaves it whole.
pub proof fn lemma_pieces_of_plain(s: Seq<char>, p: Seq<char>)
    requires
        p.len() > 0,
        free_of(s, p[0]),
    ensures
        pieces(s, p) == seq![s],
{
    assert forall|j: int| !occurs_at(s, p, j) by {
        if occurs_at(s, p, j) {
            assert(s.subrange(j, j + p.len())[0] == p[0]);
        }
    }
    lemma_first_match_none(s, p);
}

/// Where the first character of `p` stands nowhere in `a`, the first piece of
/// `a + p + rest` is `a`, and the others are the pieces of `rest`.
pub proof fn lemma_pieces_of_joined(a: Seq<char>, p: Seq<char>, rest: Seq<char>)
    requires
        p.len() > 0,
        free_of(a, p[0]),
    ensures
        pieces(a + p + rest, p) == seq![a] + pieces(rest, p),
{
    let s = a + p + rest;
    assert(s.subrange(a.len() as int, (a.len() + p.len()) as int) == p);
    assert forall|j: int| 0 <= j < a.len() implies !occurs_at(s, p, j) by {
        if occurs_at(s, p, j) {
            assert(s.subrange(j, j + p.len())[0] == p[0]);
            assert(s[j] == a[j]);
        }
    }
    lemma_first_match_is(s, p, a.len() as int);
    assert(s.take(a.len() as int) == a);
    assert(s.skip((a.len() + p.len()) as int) == rest);
}

/// No piece of a text cut at the character `c` holds `c`.
pub proof fn lemma_pieces_are_free_of(s: Seq<char>, c: char, k: int)
    requires
        0 <= k < pieces(s, seq![c]).len(),
    ensures
        free_of(pieces(s, seq![c])[k], c),
    decreases s.len(),
{
    let p = seq![c];
    lemma_first_match_from(s, p, 0);
    match first_match(s, p) {
        None => {
            assert forall|i: int| 0 <= i < s.len() implies #[trigger] s[i] != c by {
                lemma_occurs_at_char(s, c, i);
            }
        },
        Some(a) => {
            if k == 0 {
                assert forall|i: int| 0 <= i < a implies #[trigger] s.take(a)[i] != c by {
                    lemma_occurs_at_char(s, c, i);
                }
            } else {
                lemma_pieces_are_free_of(s.skip(a + 1), c, k - 1);
            }
        },
    }
}

/// How often the character `c` stands in `s`.
pub open spec fn occurrences(s: Seq<char>, c: char) -> nat
    decreases s.len(),
{
    if s.len() == 0 {
        0
    } else if s.first() == c {
        1 + occurrences(s.drop_first(), c)
    } else {
        occurrences(s.drop_first(), c)
    }
}

/// What stands before the first `c` of a text adds nothing to the count of `c`.
proof fn lemma_occurrences_behind(s: Seq<char>, c: char, a: int)
    requires
        0 <= a <= s.len(),
        forall|i: int| 0 <= i < a ==> #[trigger] s[i] != c,
    ensures
        occurrences(s, c) == occurrences(s.skip(a), c),
    decreases a,
{
    if a == 0 {
        assert(s.skip(0) == s);
    } else {
        let rest = s.drop_first();
        assert forall|i: int| 0 <= i < a - 1 implies #[trigger] rest[i] != c by {
            assert(rest[i] == s[i + 1]);
        }
        lemma_occurrences_behind(rest, c, a - 1);
        assert(rest.skip(a - 1) == s.skip(a));
    }
}

/// A text cut at the character `c` falls into one piece more than it holds `c`.
pub proof fn lemma_pieces_count(s: Seq<char>, c: char)
    ensures
        pieces(s, seq![c]).len() == occurrences(s, c) + 1,
    decreases s.len(),
{
    let p = seq![c];
    lemma_first_match_from(s, p, 0);
    match first_match(s, p) {
        None => {
            assert forall|i: int| 0 <= i < s.len() implies #[trigger] s[i] != c by {
                lemma_occurs_at_char(s, c, i);
            }
            lemma_occurrences_behind(s, c, s.len() as int);
            assert(occurrences(s.skip(s.len() as int), c) == 0);
        },
        Some(a) => {
            assert forall|i: int| 0 <= i < a implies #[trigger] s[i] != c by {
                lemma_occurs_at_char(s, c, i);
            }
            lemma_occurs_at_char(s, c, a);
            lemma_occurrences_behind(s, c, a);
            assert(s.skip(a).first() == c);
            assert(s.skip(a).drop_first() == s.skip(a + 1));
            lemma_pieces_count(s.skip(a + 1), c);
        },
    }
}

/// Two texts, one after the other, cut at the character `c`: the pieces of the first
/// but its last, then the last piece of the first with the first piece of the second
/// behind it, then the other pieces of the second.
pub proof fn lemma_pieces_of_concat(a: Seq<char>, b: Seq<char>, c: char)
    ensures
        pieces(a + b, seq![c]) == pieces(a, seq![c]).drop_last() + seq![
            pieces(a, seq![c]).last() + pieces(b, seq![c]).first(),
        ] + pieces(b, seq![c]).drop_first(),
    decreases a.len(),
{
    let p = seq![c];
    let s = a + b;
    lemma_first_match_from(a, p, 0);
    lemma_first_match_from(b, p, 0);
    match first_match(a, p) {
        None => {
            assert(pieces(a, p) == seq![a]);
            assert forall|j: int| 0 <= j < a.len() implies !occurs_at(s, p, j) by {
                lemma_occurs_at_char(s, c, j);
                lemma_occurs_at_char(a, c, j);
            }
            match first_match(b, p) {
                None => {
                    assert forall|j: int| !occurs_at(s, p, j) by {
                        lemma_occurs_at_char(s, c, j);
                        if a.len() <= j < s.len() {
                            lemma_occurs_at_char(b, c, j - a.len());
                        }
                    }
                    lemma_first_match_none(s, p);
                    assert(pieces(s, p) == seq![a + b]);
                    assert(pieces(b, p) == seq![b]);
                },
                Some(i) => {
                    let at = a.len() + i;
                    assert forall|j: int| 0 <= j < at implies !occurs_at(s, p, j) by {
                        lemma_occurs_at_char(s, c, j);
                        if a.len() <= j {
                            lemma_occurs_at_char(b, c, j - a.len());
                        }
                    }
                    lemma_occurs_at_char(b, c, i);
                    lemma_occurs_at_char(s, c, at);
                    lemma_first_match_is(s, p, at);
                    assert(s.take(at) == a + b.take(i));
                    assert(s.skip(at + 1) == b.skip(i + 1));
                    assert(pieces(b, p) == seq![b.take(i)] + pieces(b.skip(i + 1), p));
                },
            }
        },
        Some(j) => {
            let rest = a.skip(j + 1);
            lemma_pieces_of_concat(rest, b, c);
            assert forall|k: int| 0 <= k < j implies !occurs_at(s, p, k) by {
                lemma_occurs_at_char(s, c, k);
                lemma_occurs_at_char(a, c, k);
            }
            lemma_occurs_at_char(a, c, j);
            lemma_occurs_at_char(s, c, j);
            lemma_first_match_is(s, p, j);
            assert(s.take(j) == a.take(j));
            assert(s.skip(j + 1) == rest + b);
            lemma_pieces_len(rest, p);
            assert(pieces(a, p) == seq![a.take(j)] + pieces(rest, p));
            assert(pieces(a, p).drop_last() == seq![a.take(j)] + pieces(rest, p).drop_last());
            assert(pieces(a, p).last() == pieces(rest, p).last());
        },
    }
}

/// White space in front of a text or behind it does not change what is left when the
/// whole is trimmed.
pub proof fn lemma_trimmed_ignores_padding(u: Seq<char>, x: Seq<char>, w: Seq<char>)
    requires
        all_blank(u),
        all_blank(w),
    ensures
        trimmed(u + x + w) == trimmed(x),
{
    lemma_trimmed_parts(x);
    let front = front_padding(x);
    let back = back_padding(trim_front(x));
    let h = trimmed(x);
    assert(u + x + w == (u + front) + h + (back + w));
    lemma_trimmed_of_padded(u + front, h, back + w);
}

/// The pieces of a text that is nothing but white space are nothing but white space.
pub proof fn lemma_pieces_of_blank(s: Seq<char>, c: char, k: int)
    requires
        all_blank(s),
        0 <= k < pieces(s, seq![c]).len(),
    ensures
        all_blank(pieces(s, seq![c])[k]),
    decreases s.len(),
{
    let p = seq![c];
    lemma_first_match_from(s, p, 0);
    match first_match(s, p) {
        None => {},
        Some(a) => {
            if k == 0 {
                assert forall|i: int| 0 <= i < a implies is_blank(#[trigger] s.take(a)[i]) by {
                    assert(s.take(a)[i] == s[i]);
                }
            } else {
                let rest = s.skip(a + 1);
                assert forall|i: int| 0 <= i < rest.len() implies is_blank(#[trigger] rest[i]) by {
                    assert(rest[i] == s[i + a + 1]);
                }
                lemma_pieces_of_blank(rest, c, k - 1);
            }
        },
    }
}

/// Whether the text `p` stands nowhere in `s`.
pub open spec fn without(s: Seq<char>, p: Seq<char>) -> bool {
    forall|j: int| !occurs_at(s, p, j)
}

/// A text in which the first character of `p` stands nowhere is without `p`.
pub proof fn lemma_without_first_character(s: Seq<char>, p: Seq<char>)
    requires
        p.len() > 0,
        free_of(s, p[0]),
    ensures
        without(s, p),
{
    assert forall|j: int| !occurs_at(s, p, j) by {
        if occurs_at(s, p, j) {
            assert(s.subrange(j, j + p.len())[0] == p[0]);
        }
    }
}

/// A text without `p` is left whole when it is cut at `p`.
pub proof fn lemma_pieces_of_text_without(s: Seq<char>, p: Seq<char>)
    requires
        without(s, p),
    ensures
        pieces(s, p) == seq![s],
{
    lemma_first_match_none(s, p);
}

/// Two texts without the pair of characters `p`, one after the other, are without it,
/// unless the first ends as `p` begins and the second begins as `p` ends.
pub proof fn lemma_concat_without_pair(a: Seq<char>, b: Seq<char>, p: Seq<char>)
    requires
        p.len() == 2,
        without(a, p),
        without(b, p),
        a.len() == 0 || b.len() == 0 || a.last() != p[0] || b.first() != p[1],
    ensures
        without(a + b, p),
{
    let s = a + b;
    assert forall|j: int| !occurs_at(s, p, j) by {
        if occurs_at(s, p, j) {
            assert(s.subrange(j, j + 2)[0] == p[0]);
            assert(s.subrange(j, j + 2)[1] == p[1]);
            if j + 2 <= a.len() {
                assert(a.subrange(j, j + 2) == s.subrange(j, j + 2));
                assert(occurs_at(a, p, j));
            } else if j >= a.len() {
                assert(b.subrange(j - a.len(), j - a.len() + 2) == s.subrange(j, j + 2));
                assert(occurs_at(b, p, j - a.len()));
            } else {
                assert(s[j] == a.last());
                assert(s[j + 1] == b.first());
            }
        }
    }
}

/// Where `p` is a pair of two different characters and `a` is without it, the first
/// piece of `a + p + rest` is `a`, and the others are the pieces of `rest`.
pub proof fn lemma_pieces_of_joined_at_pair(a: Seq<char>, p: Seq<char>, rest: Seq<char>)
    requires
        p.len() == 2,
        p[0] != p[1],
        without(a, p),
    ensures
        pieces(a + p + rest, p) == seq![a] + pieces(rest, p),
{
    let s = a + p + rest;
    assert(s.subrange(a.len() as int, (a.len() + 2) as int) == p);
    assert forall|j: int| 0 <= j < a.len() implies !occurs_at(s, p, j) by {
        if occurs_at(s, p, j) {
            assert(s.subrange(j, j + 2)[0] == p[0]);
            assert(s.subrange(j, j + 2)[1] == p[1]);
            if j + 2 <= a.len() {
                assert(a.subrange(j, j + 2) == s.subrange(j, j + 2));
                assert(occurs_at(a, p, j));
            } else {
                assert(s[j + 1] == p[0]);
            }
        }
    }
    lemma_first_match_is(s, p, a.len() as int);
    assert(s.take(a.len() as int) == a);
    assert(s.skip((a.len() + 2) as int) == rest);
}

} // verus!
