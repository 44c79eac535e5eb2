//! The words for difficulty codes and topic codes that a prompt is written with.

use crate::text::{chars_of, same_text};
use vstd::prelude::*;

verus! {

/// What the prompt says of a difficulty code. A code other than `basic`, `medium` and
/// `hard` reads as a medium question, without the detail.
pub open spec fn difficulty_description(code: Seq<char>) -> Seq<char> {
    if code == "basic"@ {
        "基础题：直接考查公式定理，计算量小，单一步骤可解"@
    } else if code == "medium"@ {
        "中档题：2-3个知识点结合，需要一定技巧，计算量适中"@
    } else if code == "hard"@ {
        "困难题：多知识点综合，需要构造、转化，计算量大或思维跳跃"@
    } else {
        "中档题"@
    }
}

/// The name under which the prompt speaks of a topic code. A code that the table does
/// not hold stands for itself.
pub open spec fn topic_name(code: Seq<char>) -> Seq<char> {
    if code == "functions"@ {
        "函数（函数性质、图像、应用）"@
    } else if code == "derivatives"@ {
        "导数（导数计算、单调性、极值、不等式证明）"@
    } else if code == "trigonometry"@ {
        "三角函数（三角恒等变换、图像性质）"@
    } else if code == "sequences"@ {
        "数列（等差/等比数列、求和、递推）"@
    } else if code == "geometry"@ {
        "立体几何（空间向量、位置关系）"@
    } else if code == "analytic-geometry"@ {
        "解析几何（直线、圆、圆锥曲线）"@
    } else if code == "probability"@ {
        "概率统计（概率计算、分布、统计）"@
    } else {
        code
    }
}

/// Whether `s` reads `literal`.
pub fn reads(s: &Vec<char>, literal: &str) -> (r: bool)
    ensures
        r == (s@ == literal@),
{
    let l = chars_of(literal);
    same_text(s, &l)
}

/// Looks a difficulty code up.
pub fn describe_difficulty(code: &Vec<char>) -> (out: Vec<char>)
    ensures
        out@ == difficulty_description(code@),
{
    if reads(code, "basic") {
        chars_of("基础题：直接考查公式定理，计算量小，单一步骤可解")
    } else if reads(code, "medium") {
        chars_of("中档题：2-3个知识点结合，需要一定技巧，计算量适中")
    } else if reads(code, "hard") {
        chars_of("困难题：多知识点综合，需要构造、转化，计算量大或思维跳跃")
    } else {
        chars_of("中档题")
    }
}

/// Looks a topic code up.
pub fn name_topic(code: &Vec<char>) -> (out: Vec<char>)
    ensures
        out@ == topic_name(code@),
{
    if reads(code, "functions") {
        chars_of("函数（函数性质、图像、应用）")
    } else if reads(code, "derivatives") {
        chars_of("导数（导数计算、单调性、极值、不等式证明）")
    } else if reads(code, "trigonometry") {
        chars_of("三角函数（三角恒等变换、图像性质）")
    } else if reads(code, "sequences") {
        chars_of("数列（等差/等比数列、求和、递推）")
    } else if reads(code, "geometry") {
        chars_of("立体几何（空间向量、位置关系）")
    } else if reads(code, "analytic-geometry") {
        chars_of("解析几何（直线、圆、圆锥曲线）")
    } else if reads(code, "probability") {
        chars_of("概率统计（概率计算、分布、统计）")
    } else {
        crate::text::copy_range(code, 0, code.len())
    }
}

} // verus!
