use ai4edu::utils::geometry::{generate_function_graph, generate_geometry_svg};
use ai4edu::utils::latex::{latex_to_mathml, render_latex_to_html, sanitize_latex, validate_latex};

#[test]
fn render_wraps_the_formula_in_a_span() {
    assert_eq!(render_latex_to_html("x^2"), "<span class=\"latex\">x^2</span>");
    assert_eq!(render_latex_to_html(""), "<span class=\"latex\"></span>");
}

#[test]
fn mathml_wraps_the_formula_in_a_math_element() {
    assert_eq!(latex_to_mathml("\\frac{1}{2}"), "<math>\\frac{1}{2}</math>");
    assert_eq!(latex_to_mathml(""), "<math></math>");
}

#[test]
fn every_formula_is_accepted() {
    assert_eq!(validate_latex("x^2"), Ok(()));
    assert_eq!(validate_latex("\\frac{"), Ok(()));
    assert_eq!(validate_latex(""), Ok(()));
}

fn reference(latex: &str) -> String {
    latex.trim().replace("$$", "").replace("$", "").trim().to_string()
}

#[test]
fn sanitize_takes_out_dollar_signs_and_outer_white_space() {
    assert_eq!(sanitize_latex("$x^2$"), "x^2");
    assert_eq!(sanitize_latex("  $$ \\int_0^1 x dx $$  "), "\\int_0^1 x dx");
    assert_eq!(sanitize_latex("a $ b $$ c"), "a  b  c");
    assert_eq!(sanitize_latex("$$$"), "");
    assert_eq!(sanitize_latex(""), "");
    assert_eq!(sanitize_latex(" \n\t "), "");
}

#[test]
fn sanitize_agrees_with_replacing_pairs_and_then_singles() {
    for s in [
        "$x$",
        "$$x$$",
        "$$$x$$$",
        " $ $ ",
        "$ a $",
        "a$b$$c$$$d",
        "\u{3000}$\u{3000}",
        "no dollars",
        " $$ ",
        "$ $$ $",
    ] {
        assert_eq!(sanitize_latex(s), reference(s), "{:?}", s);
    }
}

#[test]
fn the_canvas_carries_its_width_and_height() {
    assert_eq!(
        generate_geometry_svg(400, 300),
        "<svg width=\"400\" height=\"300\" xmlns=\"http://www.w3.org/2000/svg\">\n            <!-- TODO: 实现几何图形绘制 -->\n        </svg>"
    );
    assert!(generate_geometry_svg(-1, 0).starts_with("<svg width=\"-1\" height=\"0\" "));
}

#[test]
fn the_graph_picture_carries_the_expression() {
    assert_eq!(
        generate_function_graph("y = x^2"),
        "<svg width=\"400\" height=\"300\" xmlns=\"http://www.w3.org/2000/svg\">\n            <text x=\"10\" y=\"20\">函数: y = x^2</text>\n        </svg>"
    );
}
