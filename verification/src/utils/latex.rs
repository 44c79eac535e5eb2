//! Formula source: wrapping it for display, and cleaning it.

use crate::text::{chars_of, string_of, trim, trimmed};
use vstd::prelude::*;

verus! {

/// The formula in the element that marks it for the renderer.
pub fn render_latex_to_html(latex: &str) -> (out: String)
    ensures
        out@ == "<span class=\"latex\">"@ + latex@ + "</span>"@,
{
    String::from_str("<span class=\"latex\">").concat(latex).concat("</span>")
}

/// Accepts every formula: nothing is checked yet.
pub fn validate_latex(latex: &str) -> (out: Result<(), String>)
    ensures
        out is Ok,
{
    Ok(())
}

/// The formula in a `math` element.
pub fn latex_to_mathml(latex: &str) -> (out: String)
    ensures
        out@ == "<math>"@ + latex@ + "</math>"@,
{
    String::from_str("<math>").concat(latex).concat("</math>")
}

/// Whether a character is kept when a formula is cleaned: every one but the dollar
/// sign.
pub open spec fn is_kept() -> spec_fn(char) -> bool {
    |c: char| c != '$'
}

/// A formula cleaned: its dollar signs taken out, then the white space around it.
pub open spec fn sanitized(latex: Seq<char>) -> Seq<char> {
    trimmed(latex.filter(is_kept()))
}

/// Cleans a formula: takes out every dollar sign, alone or doubled, and the white
/// space around what is left.
pub fn sanitize_latex(latex: &str) -> (out: String)
    ensures
        out@ == sanitized(latex@),
{
    let s = chars_of(latex);
    let mut kept: Vec<char> = Vec::new();
    let mut i: usize = 0;
    proof {
        assert(s@.take(0) == Seq::<char>::empty());
        reveal_with_fuel(Seq::filter, 1);
    }
    while i < s.len()
        invariant
            i <= s.len(),
            kept@ == s@.take(i as int).filter(is_kept()),
        decreases s.len() - i,
    {
        proof {
            assert(s@.take(i + 1) == s@.take(i as int).push(s@[i as int]));
            s@.take(i as int).lemma_filter_push(s@[i as int], is_kept());
        }
        if s[i] != '$' {
            kept.push(s[i]);
        }
        i += 1;
    }
    assert(s@.take(s.len() as int) == s@);
    string_of(&trim(&kept))
}

} // verus!
