//! The marks by which a reply is taken apart.
//!
//! The prompt asks the model to write them and the parser looks for them, so both
//! take them from here.

use crate::text::chars_of;
use vstd::prelude::*;

verus! {

/// What opens the heading of each question.
pub open spec fn item_marker() -> Seq<char> {
    "【第"@
}

/// What closes the heading of each question.
pub open spec fn heading_end() -> Seq<char> {
    "题】"@
}

/// What a line that opens the statement begins with.
pub open spec fn statement_prefix() -> Seq<char> {
    "题目："@
}

/// What a line that opens the explanation begins with.
pub open spec fn explanation_prefix() -> Seq<char> {
    "解答："@
}

/// What a line that opens the answer begins with.
pub open spec fn answer_prefix() -> Seq<char> {
    "答案："@
}

/// What a line that parts two questions begins with.
pub open spec fn separator() -> Seq<char> {
    "---"@
}

/// What is written line by line in each of the marks.
pub proof fn lemma_marker_characters()
    ensures
        item_marker() == seq!['【', '第'],
        heading_end() == seq!['题', '】'],
        statement_prefix() == seq!['题', '目', '：'],
        explanation_prefix() == seq!['解', '答', '：'],
        answer_prefix() == seq!['答', '案', '：'],
        separator() == seq!['-', '-', '-'],
{
    reveal_strlit("【第");
    reveal_strlit("题】");
    reveal_strlit("题目：");
    reveal_strlit("解答：");
    reveal_strlit("答案：");
    reveal_strlit("---");
    assert(item_marker() =~= seq!['【', '第']);
    assert(heading_end() =~= seq!['题', '】']);
    assert(statement_prefix() =~= seq!['题', '目', '：']);
    assert(explanation_prefix() =~= seq!['解', '答', '：']);
    assert(answer_prefix() =~= seq!['答', '案', '：']);
    assert(separator() =~= seq!['-', '-', '-']);
}

pub fn item_marker_chars() -> (out: Vec<char>)
    ensures
        out@ == item_marker(),
{
    chars_of("【第")
}

pub fn heading_end_chars() -> (out: Vec<char>)
    ensures
        out@ == heading_end(),
{
    chars_of("题】")
}

pub fn statement_prefix_chars() -> (out: Vec<char>)
    ensures
        out@ == statement_prefix(),
{
    chars_of("题目：")
}

pub fn explanation_prefix_chars() -> (out: Vec<char>)
    ensures
        out@ == explanation_prefix(),
{
    chars_of("解答：")
}

pub fn answer_prefix_chars() -> (out: Vec<char>)
    ensures
        out@ == answer_prefix(),
{
    chars_of("答案：")
}

pub fn separator_chars() -> (out: Vec<char>)
    ensures
        out@ == separator(),
{
    chars_of("---")
}

} // verus!
