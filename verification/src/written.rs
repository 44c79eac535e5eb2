//! Replies written block by block, each block with its three sections, and what the
//! parser makes of them.

use crate::commands::llm::QuestionText;
use crate::decimal::{digits, lemma_digits_shape};
use crate::markers::{
    answer_prefix, explanation_prefix, heading_end, item_marker, lemma_marker_characters,
    separator, statement_prefix,
};
use crate::parser::{
    after_line, after_lines, block_questions, blocks, is_block, is_idle, lines, no_sections,
    parsed, question_id, section_start, sections_of, Section, Sections,
};
use crate::parser_proofs::{
    lemma_after_lines_of_concat, lemma_idle_line, lemma_idle_lines, lemma_sections_of_lines,
    lemma_sections_stay_closed,
};
use crate::prompt::layout;
use crate::text::{occurs_at, pieces, trim_front, trimmed};
use crate::text_proofs::{
    all_blank, back_padding, free_of, front_padding, is_tight, lemma_concat_without_pair,
    lemma_pieces_of_joined, lemma_pieces_of_joined_at_pair, lemma_pieces_of_plain,
    lemma_pieces_of_text_without, lemma_trimmed_of_padded, lemma_trimmed_of_tight,
    lemma_trimmed_parts, lemma_without_first_character, without,
};
use vstd::prelude::*;

verus! {

/// A line feed.
pub open spec fn line_feed() -> Seq<char> {
    seq!['\n']
}

/// The lines of `ls`, one after the other with a line feed between each two.
pub open spec fn joined(ls: Seq<Seq<char>>) -> Seq<char>
    decreases ls.len(),
{
    if ls.len() == 0 {
        Seq::empty()
    } else if ls.len() == 1 {
        ls[0]
    } else {
        ls[0] + line_feed() + joined(ls.drop_first())
    }
}

/// Lines that hold no line feed, joined and cut into lines again, are the same lines.
pub proof fn lemma_lines_of_joined(ls: Seq<Seq<char>>)
    requires
        ls.len() > 0,
        forall|k: int| 0 <= k < ls.len() ==> free_of(#[trigger] ls[k], '\n'),
    ensures
        lines(joined(ls)) == ls,
    decreases ls.len(),
{
    if ls.len() == 1 {
        lemma_pieces_of_plain(ls[0], line_feed());
    } else {
        let rest = ls.drop_first();
        assert forall|k: int| 0 <= k < rest.len() implies free_of(#[trigger] rest[k], '\n') by {
            assert(rest[k] == ls[k + 1]);
        }
        lemma_lines_of_joined(rest);
        lemma_pieces_of_joined(ls[0], line_feed(), joined(rest));
        assert(seq![ls[0]] + rest == ls);
    }
}

/// Lines without the pair of characters `p`, which holds no line feed, are without
/// it when joined.
pub proof fn lemma_joined_without(ls: Seq<Seq<char>>, p: Seq<char>)
    requires
        p.len() == 2,
        p[0] != '\n',
        p[1] != '\n',
        forall|k: int| 0 <= k < ls.len() ==> without(#[trigger] ls[k], p),
    ensures
        without(joined(ls), p),
    decreases ls.len(),
{
    if ls.len() == 0 {
        assert forall|j: int| !occurs_at(joined(ls), p, j) by {}
    } else if ls.len() > 1 {
        let rest = ls.drop_first();
        assert forall|k: int| 0 <= k < rest.len() implies without(#[trigger] rest[k], p) by {
            assert(rest[k] == ls[k + 1]);
        }
        lemma_joined_without(rest, p);
        assert forall|j: int| !occurs_at(line_feed(), p, j) by {}
        lemma_concat_without_pair(ls[0], line_feed(), p);
        lemma_concat_without_pair(ls[0] + line_feed(), joined(rest), p);
    }
}

/// A line that begins with a tight prefix: trimmed, it still begins with the prefix,
/// and what follows the prefix, trimmed, is what was written after it, trimmed.
pub proof fn lemma_section_start(p: Seq<char>, f: Seq<char>)
    requires
        p.len() > 0,
        is_tight(p),
    ensures
        p.is_prefix_of(trimmed(p + f)),
        section_start(trimmed(p + f), p) == trimmed(f),
{
    lemma_trimmed_parts(f);
    let e = Seq::<char>::empty();
    let u = front_padding(f);
    let h = trimmed(f);
    let w = back_padding(trim_front(f));
    if h.len() > 0 {
        let core = p + u + h;
        assert(core.first() == p.first());
        assert(core.last() == h.last());
        assert(e + core + w == p + f);
        lemma_trimmed_of_padded(e, core, w);
        assert(core.subrange(0, p.len() as int) == p);
        assert(core.skip(p.len() as int) == u + h + e);
        lemma_trimmed_of_padded(u, h, e);
    } else {
        assert(all_blank(u + h + w));
        assert(e + p + (u + h + w) == p + f);
        lemma_trimmed_of_padded(e, p, u + h + w);
        assert(p.subrange(0, p.len() as int) == p);
        assert(p.skip(p.len() as int) == e);
        assert(trimmed(e) == e);
    }
}

/// The sections after the lines of `ls` and one more.
pub proof fn lemma_after_one_more_line(acc: Sections, ls: Seq<Seq<char>>, line: Seq<char>)
    ensures
        after_lines(acc, ls.push(line)) == after_line(after_lines(acc, ls), line),
{
    assert(ls.push(line).drop_last() == ls);
}

/// A line that is written as the statement prefix and a text opens the statement
/// with that text, trimmed.
pub proof fn lemma_statement_line(acc: Sections, f: Seq<char>)
    ensures
        after_line(acc, statement_prefix() + f) == (Sections {
            statement: trimmed(f),
            cursor: Some(Section::Statement),
            ..acc
        }),
{
    lemma_marker_characters();
    lemma_section_start(statement_prefix(), f);
}

/// A line that is written as the explanation prefix and a text opens the explanation
/// with that text, trimmed.
pub proof fn lemma_explanation_line(acc: Sections, f: Seq<char>)
    ensures
        after_line(acc, explanation_prefix() + f) == (Sections {
            explanation: trimmed(f),
            cursor: Some(Section::Explanation),
            ..acc
        }),
{
    lemma_marker_characters();
    lemma_section_start(explanation_prefix(), f);
    let t = trimmed(explanation_prefix() + f);
    assert(t.subrange(0, 3)[0] == explanation_prefix()[0]);
    if statement_prefix().is_prefix_of(t) {
        assert(t.subrange(0, 3)[0] == statement_prefix()[0]);
    }
}

/// A line that is written as the answer prefix and a text opens the answer with that
/// text, trimmed.
pub proof fn lemma_answer_line(acc: Sections, f: Seq<char>)
    ensures
        after_line(acc, answer_prefix() + f) == (Sections {
            answer: trimmed(f),
            cursor: Some(Section::Answer),
            ..acc
        }),
{
    lemma_marker_characters();
    lemma_section_start(answer_prefix(), f);
    let t = trimmed(answer_prefix() + f);
    assert(t.subrange(0, 3)[0] == answer_prefix()[0]);
    if statement_prefix().is_prefix_of(t) {
        assert(t.subrange(0, 3)[0] == statement_prefix()[0]);
    }
    if explanation_prefix().is_prefix_of(t) {
        assert(t.subrange(0, 3)[0] == explanation_prefix()[0]);
    }
}

/// Whether `l` can be written as a line of a block: it holds no line feed and no item
/// marker.
pub open spec fn is_plain_line(l: Seq<char>) -> bool {
    free_of(l, '\n') && without(l, item_marker())
}

/// Whether `l` can be written as a line in front of the statement: a plain line that
/// opens neither the explanation nor the answer. Such a line is passed over, or
/// opens a statement that is lost when the statement line opens it anew.
pub open spec fn is_heading_line(l: Seq<char>) -> bool {
    &&& is_plain_line(l)
    &&& !explanation_prefix().is_prefix_of(trimmed(l))
    &&& !answer_prefix().is_prefix_of(trimmed(l))
}

/// Whether `l` can be written as a line behind a section: a plain line that is idle
/// once it is trimmed.
pub open spec fn is_gap_line(l: Seq<char>) -> bool {
    is_plain_line(l) && is_idle(trimmed(l))
}

/// Whether `f` can be written as a section: on one line, without an item marker, and
/// with more in it than white space.
pub open spec fn is_section_text(f: Seq<char>) -> bool {
    is_plain_line(f) && trimmed(f).len() > 0
}

/// One question as a reply may write it: the lines in front of the statement, which
/// begin with what is left of the heading behind the item marker; then each section
/// on a line of its own behind its prefix, and the lines that follow it.
pub ghost struct Written {
    pub heading: Seq<Seq<char>>,
    pub statement: Seq<char>,
    pub behind_statement: Seq<Seq<char>>,
    pub explanation: Seq<char>,
    pub behind_explanation: Seq<Seq<char>>,
    pub answer: Seq<char>,
    pub behind_answer: Seq<Seq<char>>,
}

/// Whether `q` can be written so that the parser reads it back.
pub open spec fn is_writable(q: Written) -> bool {
    &&& forall|k: int| 0 <= k < q.heading.len() ==> is_heading_line(#[trigger] q.heading[k])
    &&& is_section_text(q.statement)
    &&& forall|k: int|
        0 <= k < q.behind_statement.len() ==> is_gap_line(#[trigger] q.behind_statement[k])
    &&& is_section_text(q.explanation)
    &&& forall|k: int|
        0 <= k < q.behind_explanation.len() ==> is_gap_line(#[trigger] q.behind_explanation[k])
    &&& is_section_text(q.answer)
    &&& forall|k: int|
        0 <= k < q.behind_answer.len() ==> is_gap_line(#[trigger] q.behind_answer[k])
}

/// The lines of the block of `q`.
pub open spec fn block_lines(q: Written) -> Seq<Seq<char>> {
    q.heading + seq![statement_prefix() + q.statement] + q.behind_statement + seq![
        explanation_prefix() + q.explanation,
    ] + q.behind_explanation + seq![answer_prefix() + q.answer] + q.behind_answer
}

/// The block of `q`: its lines, joined.
pub open spec fn block_text(q: Written) -> Seq<char> {
    joined(block_lines(q))
}

/// The reply that writes the questions of `qs`: for each the item marker and its block.
pub open spec fn reply_text(qs: Seq<Written>) -> Seq<char>
    decreases qs.len(),
{
    if qs.len() == 0 {
        Seq::empty()
    } else {
        item_marker() + block_text(qs.first()) + reply_text(qs.drop_first())
    }
}

/// A question in the layout that the prompt shows: the heading with the number of the
/// question, each section with an empty line behind it, and the separator with empty
/// lines around it at the end.
pub open spec fn laid_out(
    number: nat,
    statement: Seq<char>,
    explanation: Seq<char>,
    answer: Seq<char>,
) -> Written {
    Written {
        heading: seq![digits(number) + heading_end()],
        statement: statement,
        behind_statement: seq![Seq::empty()],
        explanation: explanation,
        behind_explanation: seq![Seq::empty()],
        answer: answer,
        behind_answer: seq![Seq::empty(), separator(), Seq::empty(), Seq::empty()],
    }
}

/// The question that the prompt shows to the model: the first one, laid out, with a
/// hint in the place of each section.
pub open spec fn shown_question() -> Written {
    laid_out(1, "（题目内容，使用LaTeX公式）"@, "（详细解题步骤）"@, "（最终答案）"@)
}

/// A question in the layout that the prompt shows can be written, whatever its
/// number, where its sections can.
pub proof fn lemma_laid_out_is_writable(
    number: nat,
    statement: Seq<char>,
    explanation: Seq<char>,
    answer: Seq<char>,
)
    requires
        is_section_text(statement),
        is_section_text(explanation),
        is_section_text(answer),
    ensures
        is_writable(laid_out(number, statement, explanation, answer)),
{
    lemma_marker_characters();
    lemma_digits_shape(number);
    let e = Seq::<char>::empty();
    let q = laid_out(number, statement, explanation, answer);
    let heading = digits(number) + heading_end();
    assert(trimmed(e) == e);
    lemma_trimmed_of_tight(separator());
    assert(separator().subrange(0, 3) == separator());
    assert(48 <= digits(number)[0] as int <= 57);
    assert(heading.first() == digits(number)[0]);
    assert(is_tight(heading));
    lemma_trimmed_of_tight(heading);
    lemma_without_first_character(e, item_marker());
    lemma_without_first_character(separator(), item_marker());
    assert(is_heading_line(heading)) by {
        assert forall|i: int| 0 <= i < digits(number).len() implies digits(number)[i] != '\n'
            && digits(number)[i] != '【' by {
            assert(48 <= digits(number)[i] as int <= 57);
        }
        lemma_without_first_character(heading, item_marker());
        if explanation_prefix().is_prefix_of(heading) {
            assert(heading.subrange(0, 3)[0] == explanation_prefix()[0]);
        }
        if answer_prefix().is_prefix_of(heading) {
            assert(heading.subrange(0, 3)[0] == answer_prefix()[0]);
        }
    }
}

/// What the parser gathers from the block of a writable question: each section as it
/// was written, trimmed.
pub proof fn lemma_sections_of_block(q: Written)
    requires
        is_writable(q),
    ensures
        trimmed(block_text(q)).len() > 0,
        without(block_text(q), item_marker()),
        sections_of(block_text(q)) == (Sections {
            statement: trimmed(q.statement),
            explanation: trimmed(q.explanation),
            answer: trimmed(q.answer),
            cursor: Some(Section::Answer),
        }),
{
    lemma_marker_characters();
    let ls = block_lines(q);
    let block = block_text(q);
    let m = item_marker();
    lemma_without_first_character(statement_prefix(), m);
    lemma_without_first_character(explanation_prefix(), m);
    lemma_without_first_character(answer_prefix(), m);
    lemma_concat_without_pair(statement_prefix(), q.statement, m);
    lemma_concat_without_pair(explanation_prefix(), q.explanation, m);
    lemma_concat_without_pair(answer_prefix(), q.answer, m);
    assert forall|k: int| 0 <= k < ls.len() implies free_of(#[trigger] ls[k], '\n') && without(
        ls[k],
        m,
    ) by {
        let a = q.heading.len() as int;
        let b = a + 1 + q.behind_statement.len();
        let c = b + 1 + q.behind_explanation.len();
        if k < a {
            assert(ls[k] == q.heading[k]);
        } else if k == a {
        } else if k < b {
            assert(ls[k] == q.behind_statement[k - a - 1]);
        } else if k == b {
        } else if k < c {
            assert(ls[k] == q.behind_explanation[k - b - 1]);
        } else if k == c {
        } else {
            assert(ls[k] == q.behind_answer[k - c - 1]);
        }
    }
    lemma_joined_without(ls, m);
    lemma_lines_of_joined(ls);
    lemma_sections_of_lines(block);

    let a0 = no_sections();
    let l1 = q.heading;
    let a1 = after_lines(a0, l1);
    lemma_sections_stay_closed(l1);
    let a2 = Sections {
        statement: trimmed(q.statement),
        cursor: Some(Section::Statement),
        ..a1
    };
    let a3 = Sections {
        explanation: trimmed(q.explanation),
        cursor: Some(Section::Explanation),
        ..a2
    };
    let a4 = Sections { answer: trimmed(q.answer), cursor: Some(Section::Answer), ..a3 };
    let l2 = l1.push(statement_prefix() + q.statement);
    lemma_after_one_more_line(a0, l1, statement_prefix() + q.statement);
    lemma_statement_line(a1, q.statement);
    assert(after_lines(a0, l2) == a2);
    let l3 = l2 + q.behind_statement;
    lemma_after_lines_of_concat(a0, l2, q.behind_statement);
    lemma_idle_lines(a2, q.behind_statement);
    assert(after_lines(a0, l3) == a2);
    let l4 = l3.push(explanation_prefix() + q.explanation);
    lemma_after_one_more_line(a0, l3, explanation_prefix() + q.explanation);
    lemma_explanation_line(a2, q.explanation);
    assert(after_lines(a0, l4) == a3);
    let l5 = l4 + q.behind_explanation;
    lemma_after_lines_of_concat(a0, l4, q.behind_explanation);
    lemma_idle_lines(a3, q.behind_explanation);
    assert(after_lines(a0, l5) == a3);
    let l6 = l5.push(answer_prefix() + q.answer);
    lemma_after_one_more_line(a0, l5, answer_prefix() + q.answer);
    lemma_answer_line(a3, q.answer);
    assert(after_lines(a0, l6) == a4);
    let l7 = l6 + q.behind_answer;
    lemma_after_lines_of_concat(a0, l6, q.behind_answer);
    lemma_idle_lines(a4, q.behind_answer);
    assert(after_lines(a0, l7) == a4);
    assert(l7 == ls);

    if trimmed(block).len() == 0 {
        let e = Seq::<char>::empty();
        lemma_pieces_of_plain(e, line_feed());
        let none = Seq::<Seq<char>>::empty();
        assert(lines(e) == none.push(e));
        lemma_after_one_more_line(a0, none, e);
        assert(trimmed(e) == e);
        lemma_idle_line(a0, e);
        assert(trimmed(block) == e);
        assert(sections_of(block) == a0);
    }
}

/// The blocks of the questions of `qs`, in order.
pub open spec fn block_texts(qs: Seq<Written>) -> Seq<Seq<char>> {
    Seq::new(qs.len(), |k: int| block_text(qs[k]))
}

/// A written reply, cut at the item marker behind its first, falls into its blocks.
proof fn lemma_pieces_behind_marker(qs: Seq<Written>)
    requires
        qs.len() > 0,
        forall|k: int| 0 <= k < qs.len() ==> is_writable(#[trigger] qs[k]),
    ensures
        pieces(block_text(qs.first()) + reply_text(qs.drop_first()), item_marker())
            == block_texts(qs),
    decreases qs.len(),
{
    lemma_marker_characters();
    let m = item_marker();
    let first = block_text(qs.first());
    let rest = qs.drop_first();
    lemma_sections_of_block(qs.first());
    if rest.len() == 0 {
        assert(first + reply_text(rest) == first);
        lemma_pieces_of_text_without(first, m);
        assert(block_texts(qs) == seq![first]);
    } else {
        assert forall|k: int| 0 <= k < rest.len() implies is_writable(#[trigger] rest[k]) by {
            assert(rest[k] == qs[k + 1]);
        }
        lemma_pieces_behind_marker(rest);
        let behind = block_text(rest.first()) + reply_text(rest.drop_first());
        assert(first + reply_text(rest) == first + m + behind);
        lemma_pieces_of_joined_at_pair(first, m, behind);
        assert(block_texts(qs) == seq![first] + block_texts(rest));
    }
}

/// A sequence of which every member passes a filter passes it whole.
proof fn lemma_filter_keeps_all(s: Seq<Seq<char>>, pred: spec_fn(Seq<char>) -> bool)
    requires
        forall|k: int| 0 <= k < s.len() ==> pred(#[trigger] s[k]),
    ensures
        s.filter(pred) == s,
    decreases s.len(),
{
    reveal(Seq::filter);
    if s.len() > 0 {
        let init = s.drop_last();
        assert forall|k: int| 0 <= k < init.len() implies pred(#[trigger] init[k]) by {
            assert(init[k] == s[k]);
        }
        lemma_filter_keeps_all(init, pred);
        assert(init.push(s.last()) == s);
    }
}

/// The blocks that the parser finds in a written reply are the blocks that were
/// written.
pub proof fn lemma_blocks_of_reply(qs: Seq<Written>)
    requires
        forall|k: int| 0 <= k < qs.len() ==> is_writable(#[trigger] qs[k]),
    ensures
        blocks(reply_text(qs)) == block_texts(qs),
{
    lemma_marker_characters();
    let m = item_marker();
    let e = Seq::<char>::empty();
    let none = Seq::<Seq<char>>::empty();
    assert(trimmed(e) == e);
    lemma_without_first_character(e, m);
    if qs.len() == 0 {
        lemma_pieces_of_text_without(e, m);
        assert(seq![e] == none.push(e));
        none.lemma_filter_push(e, is_block());
        assert(none.filter(is_block()) == none) by {
            reveal_with_fuel(Seq::filter, 1);
        }
        assert(block_texts(qs) == none);
    } else {
        let behind = block_text(qs.first()) + reply_text(qs.drop_first());
        lemma_pieces_behind_marker(qs);
        assert(reply_text(qs) == e + m + behind);
        lemma_pieces_of_joined_at_pair(e, m, behind);
        let bt = block_texts(qs);
        bt.lemma_filter_prepend(e, is_block());
        assert forall|k: int| 0 <= k < bt.len() implies is_block()(#[trigger] bt[k]) by {
            lemma_sections_of_block(qs[k]);
        }
        lemma_filter_keeps_all(bt, is_block());
        assert(none + bt == bt);
    }
}

/// The question that the parser makes of the written question `q` in block `ordinal`.
pub open spec fn read_back(
    q: Written,
    ordinal: nat,
    difficulty: Seq<char>,
    topic: Seq<char>,
    stamp: int,
) -> QuestionText {
    QuestionText {
        id: question_id(stamp, ordinal),
        content: trimmed(q.statement),
        answer: trimmed(q.answer),
        explanation: trimmed(q.explanation),
        difficulty: difficulty,
        question_type: crate::parser::essay(),
        knowledge_points: seq![topic],
        has_graph: false,
        latex_formulas: crate::formula::formulas(trimmed(q.statement)),
    }
}

/// The questions that the parser makes of the written questions `qs`, in order.
pub open spec fn read_back_all(
    qs: Seq<Written>,
    difficulty: Seq<char>,
    topic: Seq<char>,
    stamp: int,
) -> Seq<QuestionText> {
    Seq::new(qs.len(), |k: int| read_back(qs[k], k as nat, difficulty, topic, stamp))
}

/// Written blocks give one question each, in order, with the sections as written.
proof fn lemma_questions_of_blocks(
    qs: Seq<Written>,
    difficulty: Seq<char>,
    topic: Seq<char>,
    stamp: int,
)
    requires
        forall|k: int| 0 <= k < qs.len() ==> is_writable(#[trigger] qs[k]),
    ensures
        block_questions(block_texts(qs), difficulty, topic, stamp) == read_back_all(
            qs,
            difficulty,
            topic,
            stamp,
        ),
    decreases qs.len(),
{
    if qs.len() > 0 {
        let init = qs.drop_last();
        assert forall|k: int| 0 <= k < init.len() implies is_writable(#[trigger] init[k]) by {
            assert(init[k] == qs[k]);
        }
        lemma_questions_of_blocks(init, difficulty, topic, stamp);
        lemma_sections_of_block(qs.last());
        assert(block_texts(qs).drop_last() == block_texts(init));
        assert(block_texts(qs).last() == block_text(qs.last()));
        assert(read_back_all(qs, difficulty, topic, stamp) == read_back_all(
            init,
            difficulty,
            topic,
            stamp,
        ).push(read_back(qs.last(), (qs.len() - 1) as nat, difficulty, topic, stamp)));
    }
}

/// A reply that writes at least one question, each as a block with its three sections,
/// is read back question by question: as many questions as were written, in the order
/// in which they were written, each with the statement, the explanation and the
/// answer as written, the white space around them off.
pub proof fn lemma_written_reply_is_read_back(
    qs: Seq<Written>,
    difficulty: Seq<char>,
    topic: Seq<char>,
    stamp: int,
)
    requires
        qs.len() > 0,
        forall|k: int| 0 <= k < qs.len() ==> is_writable(#[trigger] qs[k]),
    ensures
        parsed(reply_text(qs), difficulty, topic, stamp) == read_back_all(
            qs,
            difficulty,
            topic,
            stamp,
        ),
{
    lemma_blocks_of_reply(qs);
    lemma_questions_of_blocks(qs, difficulty, topic, stamp);
}

/// The layout that the prompt shows begins with the item marker and a block that the
/// parser reads back: the first question, laid out, with the hints of the prompt as
/// its sections.
pub proof fn lemma_layout_shows_a_block()
    ensures
        is_writable(shown_question()),
        layout() == item_marker() + block_text(shown_question()) + item_marker() + "2"@
            + heading_end() + "\n...\n\n"@,
{
    lemma_marker_characters();
    reveal_strlit("（题目内容，使用LaTeX公式）");
    reveal_strlit("（详细解题步骤）");
    reveal_strlit("（最终答案）");
    reveal_strlit("（题目内容，使用LaTeX公式）\n\n");
    reveal_strlit("（详细解题步骤）\n\n");
    reveal_strlit("（最终答案）\n\n");
    reveal_strlit("\n\n");
    reveal_strlit("\n");
    reveal_strlit("1");
    let statement = "（题目内容，使用LaTeX公式）"@;
    let explanation = "（详细解题步骤）"@;
    let answer = "（最终答案）"@;
    assert(is_tight(statement) && is_tight(explanation) && is_tight(answer));
    lemma_without_first_character(statement, item_marker());
    lemma_without_first_character(explanation, item_marker());
    lemma_without_first_character(answer, item_marker());
    lemma_trimmed_of_tight(statement);
    lemma_trimmed_of_tight(explanation);
    lemma_trimmed_of_tight(answer);
    lemma_laid_out_is_writable(1, statement, explanation, answer);
    let q = shown_question();
    let ls = block_lines(q);
    let nl = line_feed();
    let e = Seq::<char>::empty();
    assert(digits(1) == "1"@);
    assert(ls == seq![
        "1"@ + heading_end(),
        statement_prefix() + statement,
        e,
        explanation_prefix() + explanation,
        e,
        answer_prefix() + answer,
        e,
        separator(),
        e,
        e,
    ]);
    assert(joined(ls) == ls[0] + nl + (ls[1] + nl + (ls[2] + nl + (ls[3] + nl + (ls[4] + nl + (ls[5]
        + nl + (ls[6] + nl + (ls[7] + nl + (ls[8] + nl + ls[9]))))))))) by {
        reveal_with_fuel(joined, 11);
        let l1 = ls.drop_first();
        let l2 = l1.drop_first();
        let l3 = l2.drop_first();
        let l4 = l3.drop_first();
        let l5 = l4.drop_first();
        let l6 = l5.drop_first();
        let l7 = l6.drop_first();
        let l8 = l7.drop_first();
        let l9 = l8.drop_first();
        assert(l9.len() == 1 && l9[0] == ls[9]);
        assert(l8[0] == ls[8] && l7[0] == ls[7] && l6[0] == ls[6] && l5[0] == ls[5]);
        assert(l4[0] == ls[4] && l3[0] == ls[3] && l2[0] == ls[2] && l1[0] == ls[1]);
    }
    assert("（题目内容，使用LaTeX公式）\n\n"@ == statement + nl + nl);
    assert("（详细解题步骤）\n\n"@ == explanation + nl + nl);
    assert("（最终答案）\n\n"@ == answer + nl + nl);
    assert("\n\n"@ == nl + nl);
    assert("\n"@ == nl);
    assert(layout() == item_marker() + joined(ls) + item_marker() + "2"@ + heading_end()
        + "\n...\n\n"@);
}

} // verus!
