use ai4edu::formula::extract_latex_formulas;

#[test]
fn two_formulas_in_a_sentence() {
    assert_eq!(
        extract_latex_formulas("设 $f(x)=x^2$ 则导数为 $f'(x)=2x$"),
        vec!["f(x)=x^2".to_string(), "f'(x)=2x".to_string()]
    );
}

#[test]
fn empty_text_has_no_formula() {
    assert!(extract_latex_formulas("").is_empty());
}

#[test]
fn text_without_delimiter_has_no_formula() {
    assert!(extract_latex_formulas("求函数的单调区间，并写出过程。").is_empty());
    assert!(extract_latex_formulas("plain ascii, no maths").is_empty());
}

#[test]
fn unterminated_formula_is_dropped() {
    assert!(extract_latex_formulas("价格是 $5").is_empty());
    assert_eq!(extract_latex_formulas("$a$ 和 $b"), vec!["a".to_string()]);
    assert!(extract_latex_formulas("$").is_empty());
}

#[test]
fn empty_span_is_dropped() {
    assert!(extract_latex_formulas("$$").is_empty());
    assert_eq!(extract_latex_formulas("$$ $x$"), vec!["x".to_string()]);
}

#[test]
fn doubled_delimiters_pair_up_one_by_one() {
    // "$$a$$": an empty span, then `a` stands outside, then another empty span.
    assert!(extract_latex_formulas("$$a$$").is_empty());
    // "$$a$$b$": empty, skip `a`, empty, skip... the spans are "", "", and nothing more.
    assert_eq!(extract_latex_formulas("$$a$ $b$"), vec![" ".to_string()]);
}

#[test]
fn a_delimiter_inside_a_span_closes_it() {
    assert_eq!(
        extract_latex_formulas("$a$b$c$"),
        vec!["a".to_string(), "c".to_string()]
    );
}

#[test]
fn spans_come_in_the_order_of_the_text() {
    assert_eq!(
        extract_latex_formulas("$3$ $1$ $2$"),
        vec!["3".to_string(), "1".to_string(), "2".to_string()]
    );
}

#[test]
fn spans_keep_their_white_space_and_line_feeds() {
    assert_eq!(
        extract_latex_formulas("x $ a\n+ b $ y"),
        vec![" a\n+ b ".to_string()]
    );
}
