//! The instruction that asks the model for questions.

use crate::decimal::{decimal, render_decimal};
use crate::formula::delimiter;
use crate::markers::{
    answer_prefix, answer_prefix_chars, explanation_prefix, explanation_prefix_chars, heading_end,
    heading_end_chars, item_marker, item_marker_chars, separator, separator_chars,
    statement_prefix, statement_prefix_chars,
};
use crate::text::{append, chars_of, string_of};
use crate::vocabulary::{describe_difficulty, difficulty_description, name_topic, topic_name};
use vstd::prelude::*;

verus! {

/// The layout that the model is asked to answer in, written with the marks that the
/// parser looks for: a heading, the three sections, a separator, the next heading.
pub open spec fn layout() -> Seq<char> {
    item_marker() + "1"@ + heading_end() + "\n"@ + statement_prefix()
        + "（题目内容，使用LaTeX公式）\n\n"@ + explanation_prefix() + "（详细解题步骤）\n\n"@
        + answer_prefix() + "（最终答案）\n\n"@ + separator() + "\n\n"@ + item_marker() + "2"@
        + heading_end() + "\n...\n\n"@
}

/// The prompt for `count` questions on a topic at a difficulty. The topic is named
/// and the difficulty described as the vocabulary has them; the difficulty code
/// itself is written out as well, as it was given.
pub open spec fn prompt_text(topic: Seq<char>, difficulty: Seq<char>, count: int) -> Seq<char> {
    "你是高中数学特级教师，请为"@ + topic_name(topic) + "出"@ + decimal(count) + "道"@
        + difficulty_description(difficulty) + "。\n\n要求：\n1. 题目符合高考命题风格，难度为"@
        + difficulty
        + "\n2. 每道题都要有完整的题目描述\n3. 提供详细的解答过程和答案\n4. 使用LaTeX格式编写数学公式（用"@
        + delimiter() + "包裹）\n5. 题目要有创新性，不要照搬教材例题\n\n请按以下格式输出：\n\n"@
        + layout() + "以此类推，共"@ + decimal(count) + "道题。"@
}

/// The prompt depends on nothing but the topic, the difficulty and the count: the
/// same three give the same text.
pub proof fn lemma_prompt_is_deterministic(
    topic_a: Seq<char>,
    difficulty_a: Seq<char>,
    count_a: int,
    topic_b: Seq<char>,
    difficulty_b: Seq<char>,
    count_b: int,
)
    requires
        topic_a == topic_b,
        difficulty_a == difficulty_b,
        count_a == count_b,
    ensures
        prompt_text(topic_a, difficulty_a, count_a) == prompt_text(topic_b, difficulty_b, count_b),
{
}

/// Appends the characters of `literal` to `buf`.
fn put(buf: &mut Vec<char>, literal: &str)
    ensures
        final(buf)@ == old(buf)@ + literal@,
{
    let tail = chars_of(literal);
    append(buf, &tail);
}

/// Writes the layout out.
fn layout_chars() -> (out: Vec<char>)
    ensures
        out@ == layout(),
{
    let mut out = item_marker_chars();
    put(&mut out, "1");
    append(&mut out, &heading_end_chars());
    put(&mut out, "\n");
    append(&mut out, &statement_prefix_chars());
    put(&mut out, "（题目内容，使用LaTeX公式）\n\n");
    append(&mut out, &explanation_prefix_chars());
    put(&mut out, "（详细解题步骤）\n\n");
    append(&mut out, &answer_prefix_chars());
    put(&mut out, "（最终答案）\n\n");
    append(&mut out, &separator_chars());
    put(&mut out, "\n\n");
    append(&mut out, &item_marker_chars());
    put(&mut out, "2");
    append(&mut out, &heading_end_chars());
    put(&mut out, "\n...\n\n");
    out
}

/// Writes the prompt that asks for `count` questions on `topic` at `difficulty`.
/// No code is refused: an unknown topic is named by its code, an unknown difficulty
/// is described as a medium one.
pub fn build_question_prompt(topic: &str, difficulty: &str, count: i32) -> (out: String)
    ensures
        out@ == prompt_text(topic@, difficulty@, count as int),
{
    let topic_code = chars_of(topic);
    let difficulty_code = chars_of(difficulty);
    let number = render_decimal(count as i64);
    let mut dollar: Vec<char> = Vec::new();
    dollar.push('$');
    assert(dollar@ == delimiter());
    let mut out = chars_of("你是高中数学特级教师，请为");
    append(&mut out, &name_topic(&topic_code));
    put(&mut out, "出");
    append(&mut out, &number);
    put(&mut out, "道");
    append(&mut out, &describe_difficulty(&difficulty_code));
    put(&mut out, "。\n\n要求：\n1. 题目符合高考命题风格，难度为");
    append(&mut out, &difficulty_code);
    put(
        &mut out,
        "\n2. 每道题都要有完整的题目描述\n3. 提供详细的解答过程和答案\n4. 使用LaTeX格式编写数学公式（用",
    );
    append(&mut out, &dollar);
    put(&mut out, "包裹）\n5. 题目要有创新性，不要照搬教材例题\n\n请按以下格式输出：\n\n");
    append(&mut out, &layout_chars());
    put(&mut out, "以此类推，共");
    append(&mut out, &number);
    put(&mut out, "道题。");
    string_of(&out)
}

} // verus!
