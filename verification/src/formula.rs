//! Inline formulas: the stretches of a text that stand between two delimiters.

use crate::text::{
    chars_of, copy_range, find, first_match, lemma_first_match_from, lemma_first_match_skip,
    lemma_occurs_at_char, lemma_pieces_len, pieces, strings, strings_of, texts,
};
use crate::text_proofs::{free_of, lemma_pieces_are_free_of, lemma_pieces_count, occurrences};
use vstd::prelude::*;

verus! {

/// The delimiter that opens and closes an inline formula.
pub open spec fn delimiter() -> Seq<char> {
    seq!['$']
}

/// Whether a stretch between two delimiters counts as a formula: an empty one does not.
pub open spec fn is_formula() -> spec_fn(Seq<char>) -> bool {
    |f: Seq<char>| f.len() > 0
}

/// The stretches of `s` that a pair of delimiters encloses, from left to right.
///
/// Cut at its delimiters, `s` falls into pieces numbered from 0. The delimiters pair
/// up in the order in which they stand, so the first pair encloses piece 1, the
/// second piece 3, and so on. The last piece has no delimiter after it: it is never
/// enclosed, whatever its number.
pub open spec fn spans(s: Seq<char>) -> Seq<Seq<char>> {
    let cut = pieces(s, delimiter());
    Seq::new(((cut.len() - 1) / 2) as nat, |j: int| cut[2 * j + 1])
}

/// The formulas of `s`: its enclosed stretches, the empty ones left out.
pub open spec fn formulas(s: Seq<char>) -> Seq<Seq<char>> {
    spans(s).filter(is_formula())
}

/// How the formulas of `s` follow from its first two delimiters: with fewer than two
/// there is none; otherwise what stands between them comes first, if it is not empty,
/// and the formulas of what follows the second come after it.
pub proof fn lemma_formulas_unfold(s: Seq<char>)
    ensures
        match first_match(s, delimiter()) {
            None => formulas(s) == Seq::<Seq<char>>::empty(),
            Some(a) => {
                let body = s.skip(a + 1);
                match first_match(body, delimiter()) {
                    None => formulas(s) == Seq::<Seq<char>>::empty(),
                    Some(b) => formulas(s) == (if b > 0 {
                        seq![body.take(b)]
                    } else {
                        Seq::<Seq<char>>::empty()
                    }) + formulas(body.skip(b + 1)),
                }
            },
        },
{
    let d = delimiter();
    assert(spans(Seq::<char>::empty()).len() == 0) by {
        lemma_pieces_len(Seq::<char>::empty(), d);
    }
    match first_match(s, d) {
        None => {
            assert(pieces(s, d) == seq![s]);
            assert(spans(s) == Seq::<Seq<char>>::empty());
            reveal_with_fuel(Seq::filter, 1);
        },
        Some(a) => {
            let body = s.skip(a + 1);
            assert(pieces(s, d) == seq![s.take(a)] + pieces(body, d));
            match first_match(body, d) {
                None => {
                    assert(pieces(body, d) == seq![body]);
                    assert(spans(s) == Seq::<Seq<char>>::empty());
                    reveal_with_fuel(Seq::filter, 1);
                },
                Some(b) => {
                    let rest = body.skip(b + 1);
                    let first = body.take(b);
                    assert(pieces(body, d) == seq![first] + pieces(rest, d));
                    lemma_pieces_len(rest, d);
                    let cut = pieces(s, d);
                    let cut_rest = pieces(rest, d);
                    assert(cut.len() == cut_rest.len() + 2);
                    assert forall|j: int| 0 <= j < cut_rest.len() implies cut[j + 2]
                        == cut_rest[j] by {}
                    assert(spans(s) == seq![first] + spans(rest));
                    spans(rest).lemma_filter_prepend(first, is_formula());
                    lemma_first_match_from(body, d, 0);
                },
            }
        },
    }
}

/// A text without a delimiter holds no formula.
pub proof fn lemma_no_delimiter_no_formula(s: Seq<char>)
    requires
        !s.contains('$'),
    ensures
        formulas(s) == Seq::<Seq<char>>::empty(),
{
    let d = delimiter();
    lemma_first_match_from(s, d, 0);
    if let Some(a) = first_match(s, d) {
        lemma_occurs_at_char(s, '$', a);
        assert(s.contains('$'));
    }
    lemma_formulas_unfold(s);
}

/// The delimiters of a text pair up in the order in which they stand, and each pair
/// encloses one stretch: there are half as many stretches as delimiters, and where
/// the delimiters are odd in number the last one encloses nothing.
pub proof fn lemma_spans_come_in_pairs(s: Seq<char>)
    ensures
        spans(s).len() == occurrences(s, '$') / 2,
        formulas(s).len() <= occurrences(s, '$') / 2,
{
    lemma_pieces_count(s, '$');
    spans(s).lemma_filter_len(is_formula());
}

/// A formula is never empty and never holds a delimiter.
pub proof fn lemma_formulas_are_plain(s: Seq<char>, i: int)
    requires
        0 <= i < formulas(s).len(),
    ensures
        formulas(s)[i].len() > 0,
        free_of(formulas(s)[i], '$'),
{
    let all = spans(s);
    all.lemma_filter_pred(is_formula(), i);
    let f = formulas(s)[i];
    all.lemma_filter_contains_rev(is_formula(), f);
    let j = choose|j: int| 0 <= j < all.len() && all[j] == f;
    lemma_pieces_are_free_of(s, '$', 2 * j + 1);
}

/// The formulas of `s`.
pub fn scan_formulas(s: &Vec<char>) -> (out: Vec<Vec<char>>)
    ensures
        texts(out@) == formulas(s@),
{
    let mut d: Vec<char> = Vec::new();
    d.push('$');
    assert(d@ == delimiter());
    let n: usize = s.len();
    let mut out: Vec<Vec<char>> = Vec::new();
    let mut i: usize = 0;
    proof {
        assert(s@.skip(0) == s@);
        assert(texts(out@) == Seq::<Seq<char>>::empty());
    }
    loop
        invariant
            n == s.len(),
            d@ == delimiter(),
            i <= n,
            formulas(s@) == texts(out@) + formulas(s@.skip(i as int)),
        decreases n - i,
    {
        let ghost here = s@.skip(i as int);
        proof {
            lemma_formulas_unfold(here);
            lemma_first_match_skip(s@, d@, i as int);
            lemma_first_match_from(s@, d@, i as int);
        }
        let a = match find(s, &d, i) {
            None => {
                return out;
            },
            Some(a) => a,
        };
        let ghost body = here.skip(a - i + 1);
        proof {
            assert(body == s@.skip(a + 1));
            lemma_first_match_skip(s@, d@, a + 1);
            lemma_first_match_from(s@, d@, a + 1);
        }
        let b = match find(s, &d, a + 1) {
            None => {
                return out;
            },
            Some(b) => b,
        };
        proof {
            assert(body.take(b - a - 1) == s@.subrange(a + 1, b as int));
            assert(body.skip(b - a) == s@.skip(b + 1));
        }
        if b > a + 1 {
            let formula = copy_range(s, a + 1, b);
            proof {
                assert(texts(out@.push(formula)) == texts(out@) + seq![formula@]);
            }
            out.push(formula);
        }
        i = b + 1;
    }
}

/// Extracts the inline formulas of `text`: each stretch of at least one character
/// between a delimiter and the next one, the delimiters pairing up from left to right.
/// What follows an opening delimiter that is never closed is not a formula.
pub fn extract_latex_formulas(text: &str) -> (out: Vec<String>)
    ensures
        strings(out@) == formulas(text@),
        !text@.contains('$') ==> out.len() == 0,
        forall|i: int|
            0 <= i < out.len() ==> (#[trigger] out[i])@.len() > 0 && free_of(out[i]@, '$'),
{
    let s = chars_of(text);
    let found = scan_formulas(&s);
    let out = strings_of(&found);
    proof {
        if !text@.contains('$') {
            lemma_no_delimiter_no_formula(text@);
        }
        assert forall|i: int| 0 <= i < out.len() implies (#[trigger] out[i])@.len() > 0
            && free_of(out[i]@, '$') by {
            lemma_formulas_are_plain(text@, i);
            assert(strings(out@)[i] == out[i]@);
        }
    }
    out
}

} // verus!
