//! Figures drawn as SVG.

use crate::decimal::{decimal, render_decimal};
use crate::text::{append, chars_of, string_of};
use vstd::prelude::*;

verus! {

#[derive(Debug, Clone)]
pub enum FigureType {
    Triangle,
    Circle,
    Rectangle,
    Polygon { sides: i32 },
    Function { expression: String },
    CoordinateSystem,
}

#[derive(Debug, Clone, Copy)]
pub enum LabelPosition {
    Above,
    Below,
    Left,
    Right,
    Center,
}

/// The canvas of a figure of the given width and height, with nothing drawn on it.
pub open spec fn canvas(width: int, height: int) -> Seq<char> {
    "<svg width=\""@ + decimal(width) + "\" height=\""@ + decimal(height)
        + "\" xmlns=\"http://www.w3.org/2000/svg\">\n            <!-- TODO: 实现几何图形绘制 -->\n        </svg>"@
}

/// Draws the canvas of a figure of the given width and height.
pub fn generate_geometry_svg(width: i32, height: i32) -> (out: String)
    ensures
        out@ == canvas(width as int, height as int),
{
    let mut out = chars_of("<svg width=\"");
    append(&mut out, &render_decimal(width as i64));
    append(&mut out, &chars_of("\" height=\""));
    append(&mut out, &render_decimal(height as i64));
    append(
        &mut out,
        &chars_of(
            "\" xmlns=\"http://www.w3.org/2000/svg\">\n            <!-- TODO: 实现几何图形绘制 -->\n        </svg>",
        ),
    );
    string_of(&out)
}

/// The picture that stands for the graph of a function: its expression, written out.
pub open spec fn graph_picture(expression: Seq<char>) -> Seq<char> {
    "<svg width=\"400\" height=\"300\" xmlns=\"http://www.w3.org/2000/svg\">\n            <text x=\"10\" y=\"20\">函数: "@
        + expression + "</text>\n        </svg>"@
}

/// Draws the picture that stands for the graph of the function `expression`.
pub fn generate_function_graph(expression: &str) -> (out: String)
    ensures
        out@ == graph_picture(expression@),
{
    String::from_str(
        "<svg width=\"400\" height=\"300\" xmlns=\"http://www.w3.org/2000/svg\">\n            <text x=\"10\" y=\"20\">函数: ",
    ).concat(expression).concat("</text>\n        </svg>")
}

} // verus!
