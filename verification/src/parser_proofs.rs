//! What holds of the questions that a reply is taken apart into.

use crate::decimal::{decimal, digits, lemma_digits_injective};
use crate::markers::{
    answer_prefix, explanation_prefix, heading_end, item_marker, lemma_marker_characters,
    separator, statement_prefix,
};
use crate::parser::{
    after_line, after_lines, answer_placeholder, block_question, block_questions, blocks,
    explanation_placeholder, is_block, is_idle, lines, no_sections, parsed, question_id,
    sections_of, whole_reply_question, Section, Sections,
};
use crate::text::{first_match, lemma_pieces_len, pieces, trim_front, trimmed};
use crate::text_proofs::{
    all_blank, back_padding, front_padding, lemma_pieces_of_blank, lemma_pieces_of_concat,
    lemma_trimmed_ignores_padding, lemma_trimmed_parts,
};
use vstd::prelude::*;

verus! {

/// Whether a block gives a question: whether it gathers a statement.
pub open spec fn gives_question(block: Seq<char>) -> bool {
    sections_of(block).statement.len() > 0
}

/// The places, in `bs`, of the blocks that give a question, in ascending order.
pub open spec fn origins(bs: Seq<Seq<char>>) -> Seq<int>
    decreases bs.len(),
{
    if bs.len() == 0 {
        Seq::empty()
    } else if gives_question(bs.last()) {
        origins(bs.drop_last()).push(bs.len() - 1)
    } else {
        origins(bs.drop_last())
    }
}

/// The questions of a list of blocks are those of the blocks that give one, in the
/// order of the blocks: question `i` is the question of the block at `origins(bs)[i]`,
/// numbered by that place.
pub proof fn lemma_questions_follow_blocks(
    bs: Seq<Seq<char>>,
    difficulty: Seq<char>,
    topic: Seq<char>,
    stamp: int,
)
    ensures
        block_questions(bs, difficulty, topic, stamp).len() == origins(bs).len(),
        forall|i: int|
            0 <= i < origins(bs).len() ==> 0 <= #[trigger] origins(bs)[i] < bs.len(),
        forall|i: int, j: int|
            0 <= i < j < origins(bs).len() ==> #[trigger] origins(bs)[i] < #[trigger] origins(
                bs,
            )[j],
        forall|i: int|
            0 <= i < origins(bs).len() ==> block_question(
                bs[origins(bs)[i]],
                origins(bs)[i] as nat,
                difficulty,
                topic,
                stamp,
            ) == Some(#[trigger] block_questions(bs, difficulty, topic, stamp)[i]),
        forall|k: int|
            0 <= k < bs.len() && gives_question(#[trigger] bs[k]) ==> origins(bs).contains(k),
    decreases bs.len(),
{
    if bs.len() > 0 {
        let init = bs.drop_last();
        lemma_questions_follow_blocks(init, difficulty, topic, stamp);
        let os = origins(bs);
        let qs = block_questions(bs, difficulty, topic, stamp);
        assert forall|i: int| 0 <= i < os.len() implies block_question(
            bs[os[i]],
            os[i] as nat,
            difficulty,
            topic,
            stamp,
        ) == Some(#[trigger] qs[i]) by {
            if i < origins(init).len() {
                assert(bs[origins(init)[i]] == init[origins(init)[i]]);
            }
        }
        assert forall|k: int| 0 <= k < bs.len() && gives_question(
            #[trigger] bs[k],
        ) implies os.contains(k) by {
            if k < init.len() {
                assert(init[k] == bs[k]);
                let i = choose|i: int| 0 <= i < origins(init).len() && origins(init)[i] == k;
                assert(os[i] == k);
            } else {
                assert(os[os.len() - 1] == k);
            }
        }
    }
}

/// Two blocks of one reply are never given the same identifier.
pub proof fn lemma_question_ids_differ(stamp: int, a: nat, b: nat)
    requires
        a != b,
    ensures
        question_id(stamp, a) != question_id(stamp, b),
{
    let head = "q-"@ + decimal(stamp) + "-"@;
    if question_id(stamp, a) == question_id(stamp, b) {
        assert((head + digits(a)).skip(head.len() as int) == digits(a));
        assert((head + digits(b)).skip(head.len() as int) == digits(b));
        lemma_digits_injective(a, b);
    }
}

/// A reply always gives at least one question.
pub proof fn lemma_parsed_is_never_empty(
    text: Seq<char>,
    difficulty: Seq<char>,
    topic: Seq<char>,
    stamp: int,
)
    ensures
        parsed(text, difficulty, topic, stamp).len() >= 1,
{
}

/// The questions of one reply have identifiers that differ from one another.
pub proof fn lemma_ids_are_unique(
    text: Seq<char>,
    difficulty: Seq<char>,
    topic: Seq<char>,
    stamp: int,
    i: int,
    j: int,
)
    requires
        0 <= i < j < parsed(text, difficulty, topic, stamp).len(),
    ensures
        parsed(text, difficulty, topic, stamp)[i].id != parsed(text, difficulty, topic, stamp)[j].id,
{
    let bs = blocks(text);
    lemma_questions_follow_blocks(bs, difficulty, topic, stamp);
    let os = origins(bs);
    assert(os[i] < os[j]);
    lemma_question_ids_differ(stamp, os[i] as nat, os[j] as nat);
}

/// Every question of a reply that is not empty has a content that is not empty.
pub proof fn lemma_content_is_never_empty(
    text: Seq<char>,
    difficulty: Seq<char>,
    topic: Seq<char>,
    stamp: int,
    i: int,
)
    requires
        text.len() > 0,
        0 <= i < parsed(text, difficulty, topic, stamp).len(),
    ensures
        parsed(text, difficulty, topic, stamp)[i].content.len() > 0,
{
    let bs = blocks(text);
    lemma_questions_follow_blocks(bs, difficulty, topic, stamp);
    if block_questions(bs, difficulty, topic, stamp).len() > 0 {
        let o = origins(bs)[i];
        assert(block_question(bs[o], o as nat, difficulty, topic, stamp) == Some(
            block_questions(bs, difficulty, topic, stamp)[i],
        ));
    }
}

/// Every question carries the difficulty and the topic that were asked for, is an
/// essay question, and has no graph. Its formulas are those of its content.
pub proof fn lemma_questions_carry_the_request(
    text: Seq<char>,
    difficulty: Seq<char>,
    topic: Seq<char>,
    stamp: int,
    i: int,
)
    requires
        0 <= i < parsed(text, difficulty, topic, stamp).len(),
    ensures
        ({
            let q = parsed(text, difficulty, topic, stamp)[i];
            &&& q.difficulty == difficulty
            &&& q.knowledge_points == seq![topic]
            &&& q.question_type == crate::parser::essay()
            &&& !q.has_graph
            &&& q.latex_formulas == crate::formula::formulas(q.content)
        }),
{
    let bs = blocks(text);
    lemma_questions_follow_blocks(bs, difficulty, topic, stamp);
    if block_questions(bs, difficulty, topic, stamp).len() > 0 {
        let o = origins(bs)[i];
        assert(block_question(bs[o], o as nat, difficulty, topic, stamp) == Some(
            block_questions(bs, difficulty, topic, stamp)[i],
        ));
    }
}

/// Whether some line of a block opens the section with prefix `p`.
pub open spec fn has_section(block: Seq<char>, p: Seq<char>) -> bool {
    exists|k: int|
        0 <= k < lines(trimmed(block)).len() && p.is_prefix_of(
            trimmed(#[trigger] lines(trimmed(block))[k]),
        )
}

/// Lines of which none opens an explanation or an answer leave both empty, and
/// neither of the two open.
pub proof fn lemma_sections_stay_closed(ls: Seq<Seq<char>>)
    requires
        forall|k: int|
            0 <= k < ls.len() ==> !explanation_prefix().is_prefix_of(trimmed(#[trigger] ls[k]))
                && !answer_prefix().is_prefix_of(trimmed(ls[k])),
    ensures
        after_lines(no_sections(), ls).explanation.len() == 0,
        after_lines(no_sections(), ls).answer.len() == 0,
        after_lines(no_sections(), ls).cursor is None || after_lines(no_sections(), ls).cursor
            == Some(Section::Statement),
    decreases ls.len(),
{
    if ls.len() > 0 {
        let init = ls.drop_last();
        assert forall|k: int| 0 <= k < init.len() implies !explanation_prefix().is_prefix_of(
            trimmed(#[trigger] init[k]),
        ) && !answer_prefix().is_prefix_of(trimmed(init[k])) by {
            assert(init[k] == ls[k]);
        }
        lemma_sections_stay_closed(init);
        assert(ls.last() == ls[ls.len() - 1]);
    }
}

/// Lines of which none opens a statement gather no statement.
pub proof fn lemma_statement_stays_closed(ls: Seq<Seq<char>>)
    requires
        forall|k: int|
            0 <= k < ls.len() ==> !statement_prefix().is_prefix_of(trimmed(#[trigger] ls[k])),
    ensures
        after_lines(no_sections(), ls).statement.len() == 0,
        after_lines(no_sections(), ls).cursor != Some(Section::Statement),
    decreases ls.len(),
{
    if ls.len() > 0 {
        let init = ls.drop_last();
        assert forall|k: int| 0 <= k < init.len() implies !statement_prefix().is_prefix_of(
            trimmed(#[trigger] init[k]),
        ) by {
            assert(init[k] == ls[k]);
        }
        lemma_statement_stays_closed(init);
        assert(ls.last() == ls[ls.len() - 1]);
    }
}

/// A block gives a question only where one of its lines opens a statement.
pub proof fn lemma_no_statement_no_question(block: Seq<char>)
    requires
        !has_section(block, statement_prefix()),
    ensures
        !gives_question(block),
{
    lemma_statement_stays_closed(lines(trimmed(block)));
}

/// Blocks of which none gives a question give no questions.
pub proof fn lemma_no_questions(
    bs: Seq<Seq<char>>,
    difficulty: Seq<char>,
    topic: Seq<char>,
    stamp: int,
)
    requires
        forall|k: int| 0 <= k < bs.len() ==> !gives_question(#[trigger] bs[k]),
    ensures
        block_questions(bs, difficulty, topic, stamp).len() == 0,
    decreases bs.len(),
{
    if bs.len() > 0 {
        let init = bs.drop_last();
        assert forall|k: int| 0 <= k < init.len() implies !gives_question(#[trigger] init[k]) by {
            assert(init[k] == bs[k]);
        }
        lemma_no_questions(init, difficulty, topic, stamp);
        assert(bs.last() == bs[bs.len() - 1]);
    }
}

/// A reply of which no block has a line that opens a statement is handed back whole:
/// it gives one question, whose content and explanation are the reply. This holds
/// whatever else the reply holds: item markers, headings, answers, explanations.
pub proof fn lemma_reply_without_statement(
    text: Seq<char>,
    difficulty: Seq<char>,
    topic: Seq<char>,
    stamp: int,
)
    requires
        forall|k: int|
            0 <= k < blocks(text).len() ==> !has_section(
                #[trigger] blocks(text)[k],
                statement_prefix(),
            ),
    ensures
        parsed(text, difficulty, topic, stamp) == seq![
            whole_reply_question(text, difficulty, topic, stamp),
        ],
{
    let bs = blocks(text);
    assert forall|k: int| 0 <= k < bs.len() implies !gives_question(#[trigger] bs[k]) by {
        lemma_no_statement_no_question(bs[k]);
    }
    lemma_no_questions(bs, difficulty, topic, stamp);
}

/// A block in which no line opens an explanation or an answer gives, if it gives a
/// question, one whose explanation and answer are the placeholders.
pub proof fn lemma_missing_sections_read_as_placeholders(
    block: Seq<char>,
    ordinal: nat,
    difficulty: Seq<char>,
    topic: Seq<char>,
    stamp: int,
)
    requires
        !has_section(block, explanation_prefix()),
        !has_section(block, answer_prefix()),
    ensures
        match block_question(block, ordinal, difficulty, topic, stamp) {
            Some(q) => q.answer == answer_placeholder() && q.explanation
                == explanation_placeholder(),
            None => true,
        },
{
    lemma_sections_stay_closed(lines(trimmed(block)));
}

/// The question of a block of the reply stands among the questions of the reply. So
/// where block `k` of a reply gives a question and has no line that opens an
/// explanation or an answer, the reply has that question, with both placeholders.
pub proof fn lemma_block_question_is_parsed(
    text: Seq<char>,
    difficulty: Seq<char>,
    topic: Seq<char>,
    stamp: int,
    k: int,
)
    requires
        0 <= k < blocks(text).len(),
        gives_question(blocks(text)[k]),
    ensures
        block_question(blocks(text)[k], k as nat, difficulty, topic, stamp) matches Some(q)
            && parsed(text, difficulty, topic, stamp).contains(q) && (!has_section(
            blocks(text)[k],
            explanation_prefix(),
        ) && !has_section(blocks(text)[k], answer_prefix()) ==> q.answer == answer_placeholder()
            && q.explanation == explanation_placeholder()),
{
    let bs = blocks(text);
    lemma_questions_follow_blocks(bs, difficulty, topic, stamp);
    let i = choose|i: int| 0 <= i < origins(bs).len() && origins(bs)[i] == k;
    let qs = block_questions(bs, difficulty, topic, stamp);
    assert(block_question(bs[k], k as nat, difficulty, topic, stamp) == Some(qs[i]));
    assert(parsed(text, difficulty, topic, stamp)[i] == qs[i]);
    if !has_section(bs[k], explanation_prefix()) && !has_section(bs[k], answer_prefix()) {
        lemma_missing_sections_read_as_placeholders(bs[k], k as nat, difficulty, topic, stamp);
    }
}

/// Whether no line of `text` opens the section with prefix `p`.
pub open spec fn opens_nowhere(text: Seq<char>, p: Seq<char>) -> bool {
    forall|k: int|
        0 <= k < lines(text).len() ==> !p.is_prefix_of(trimmed(#[trigger] lines(text)[k]))
}

/// A reply without an item marker in which no line opens a section is handed back
/// whole: it gives one question, whose content and explanation are the reply.
pub proof fn lemma_reply_without_marker(
    text: Seq<char>,
    difficulty: Seq<char>,
    topic: Seq<char>,
    stamp: int,
)
    requires
        first_match(text, item_marker()) is None,
        opens_nowhere(text, statement_prefix()),
        opens_nowhere(text, explanation_prefix()),
        opens_nowhere(text, answer_prefix()),
    ensures
        parsed(text, difficulty, topic, stamp) == seq![
            whole_reply_question(text, difficulty, topic, stamp),
        ],
        parsed(text, difficulty, topic, stamp).len() == 1,
        parsed(text, difficulty, topic, stamp)[0].content == text,
        parsed(text, difficulty, topic, stamp)[0].explanation == text,
{
    lemma_marker_characters();
    let none = Seq::<Seq<char>>::empty();
    assert(pieces(text, item_marker()) == none.push(text));
    none.lemma_filter_push(text, is_block());
    assert(none.filter(is_block()) == none) by {
        reveal_with_fuel(Seq::filter, 1);
    }
    let bs = blocks(text);
    lemma_sections_of_lines(text);
    lemma_statement_stays_closed(lines(text));
    assert forall|k: int| 0 <= k < bs.len() implies !gives_question(#[trigger] bs[k]) by {
        assert(bs[k] == text);
    }
    lemma_no_questions(bs, difficulty, topic, stamp);
}

/// A line that is idle once it is trimmed changes nothing.
pub proof fn lemma_idle_line(acc: Sections, line: Seq<char>)
    requires
        is_idle(trimmed(line)),
    ensures
        after_line(acc, line) == acc,
{
    lemma_marker_characters();
    let t = trimmed(line);
    if t.len() > 0 {
        if separator().is_prefix_of(t) {
            assert(t.subrange(0, 3)[0] == separator()[0]);
        } else {
            assert(t.subrange(0, 2)[1] == heading_end()[1]);
        }
        if statement_prefix().is_prefix_of(t) {
            assert(t.subrange(0, 3)[0] == statement_prefix()[0]);
            assert(t.subrange(0, 3)[1] == statement_prefix()[1]);
        }
        if explanation_prefix().is_prefix_of(t) {
            assert(t.subrange(0, 3)[0] == explanation_prefix()[0]);
        }
        if answer_prefix().is_prefix_of(t) {
            assert(t.subrange(0, 3)[0] == answer_prefix()[0]);
        }
    }
}

/// Lines taken one run after another are lines taken in one go.
pub proof fn lemma_after_lines_of_concat(acc: Sections, a: Seq<Seq<char>>, b: Seq<Seq<char>>)
    ensures
        after_lines(acc, a + b) == after_lines(after_lines(acc, a), b),
    decreases b.len(),
{
    if b.len() == 0 {
        assert(a + b == a);
    } else {
        assert((a + b).drop_last() == a + b.drop_last());
        assert((a + b).last() == b.last());
        lemma_after_lines_of_concat(acc, a, b.drop_last());
    }
}

/// Lines that are all idle once they are trimmed change nothing.
pub proof fn lemma_idle_lines(acc: Sections, ls: Seq<Seq<char>>)
    requires
        forall|k: int| 0 <= k < ls.len() ==> is_idle(trimmed(#[trigger] ls[k])),
    ensures
        after_lines(acc, ls) == acc,
    decreases ls.len(),
{
    if ls.len() > 0 {
        let init = ls.drop_last();
        assert forall|k: int| 0 <= k < init.len() implies is_idle(trimmed(#[trigger] init[k])) by {
            assert(init[k] == ls[k]);
        }
        lemma_idle_lines(acc, init);
        assert(ls.last() == ls[ls.len() - 1]);
        lemma_idle_line(acc, ls.last());
    }
}

/// White space in front of a text does not change what its lines gather.
proof fn lemma_leading_white_space_does_not_count(acc: Sections, u: Seq<char>, y: Seq<char>)
    requires
        all_blank(u),
    ensures
        after_lines(acc, lines(u + y)) == after_lines(acc, lines(y)),
{
    let nl = seq!['\n'];
    let e = Seq::<char>::empty();
    lemma_pieces_of_concat(u, y, '\n');
    lemma_pieces_len(u, nl);
    lemma_pieces_len(y, nl);
    let pu = pieces(u, nl);
    let py = pieces(y, nl);
    let a = pu.drop_last();
    let m = pu.last() + py.first();
    let b = py.drop_first();
    assert(lines(u + y) == (a + seq![m]) + b);
    assert forall|k: int| 0 <= k < a.len() implies is_idle(trimmed(#[trigger] a[k])) by {
        lemma_pieces_of_blank(u, '\n', k);
        assert(a[k] == e + e + a[k]);
        lemma_trimmed_ignores_padding(e, e, a[k]);
        assert(trimmed(e) == e);
    }
    lemma_pieces_of_blank(u, '\n', pu.len() - 1);
    assert(m == pu.last() + py.first() + e);
    lemma_trimmed_ignores_padding(pu.last(), py.first(), e);
    lemma_after_lines_of_concat(acc, a + seq![m], b);
    lemma_after_lines_of_concat(acc, a, seq![m]);
    lemma_idle_lines(acc, a);
    let one = Seq::<Seq<char>>::empty();
    assert(seq![m] == one.push(m));
    assert(one.push(m).drop_last() == one);
    assert(seq![py.first()] == one.push(py.first()));
    assert(one.push(py.first()).drop_last() == one);
    assert(after_lines(acc, seq![m]) == after_line(acc, m)) by {
        reveal_with_fuel(after_lines, 2);
    }
    assert(after_lines(acc, seq![py.first()]) == after_line(acc, py.first())) by {
        reveal_with_fuel(after_lines, 2);
    }
    lemma_after_lines_of_concat(acc, seq![py.first()], b);
    assert(seq![py.first()] + b == py);
}

/// White space behind a text does not change what its lines gather.
proof fn lemma_trailing_white_space_does_not_count(acc: Sections, y: Seq<char>, w: Seq<char>)
    requires
        all_blank(w),
    ensures
        after_lines(acc, lines(y + w)) == after_lines(acc, lines(y)),
{
    let nl = seq!['\n'];
    let e = Seq::<char>::empty();
    lemma_pieces_of_concat(y, w, '\n');
    lemma_pieces_len(y, nl);
    lemma_pieces_len(w, nl);
    let py = pieces(y, nl);
    let pw = pieces(w, nl);
    let a = py.drop_last();
    let m = py.last() + pw.first();
    let b = pw.drop_first();
    assert(lines(y + w) == (a + seq![m]) + b);
    assert forall|k: int| 0 <= k < b.len() implies is_idle(trimmed(#[trigger] b[k])) by {
        lemma_pieces_of_blank(w, '\n', k + 1);
        assert(b[k] == e + e + b[k]);
        lemma_trimmed_ignores_padding(e, e, b[k]);
        assert(trimmed(e) == e);
    }
    lemma_pieces_of_blank(w, '\n', 0);
    assert(m == e + py.last() + pw.first());
    assert(py.last() == e + py.last() + e);
    lemma_trimmed_ignores_padding(e, py.last(), pw.first());
    lemma_trimmed_ignores_padding(e, py.last(), e);
    lemma_after_lines_of_concat(acc, a + seq![m], b);
    lemma_idle_lines(after_lines(acc, a + seq![m]), b);
    assert((a + seq![m]).drop_last() == a);
    assert((a + seq![m]).last() == m);
    assert(py.drop_last() == a);
}

/// What the lines of a text gather does not depend on the white space around the
/// text.
pub proof fn lemma_outer_white_space_does_not_count(
    acc: Sections,
    u: Seq<char>,
    x: Seq<char>,
    w: Seq<char>,
)
    requires
        all_blank(u),
        all_blank(w),
    ensures
        after_lines(acc, lines(u + x + w)) == after_lines(acc, lines(x)),
{
    assert(u + x + w == u + (x + w));
    lemma_leading_white_space_does_not_count(acc, u, x + w);
    lemma_trailing_white_space_does_not_count(acc, x, w);
}

/// The sections of a block are what its lines gather: that the block is trimmed
/// before it is cut into lines changes nothing.
pub proof fn lemma_sections_of_lines(block: Seq<char>)
    ensures
        sections_of(block) == after_lines(no_sections(), lines(block)),
{
    lemma_trimmed_parts(block);
    lemma_outer_white_space_does_not_count(
        no_sections(),
        front_padding(block),
        trimmed(block),
        back_padding(trim_front(block)),
    );
}

} // verus!
