//! A reply taken apart into questions.
//!
//! The reply is cut at the item marker into blocks, and each block is read line by
//! line: a line that begins with a section prefix opens that section, any other line
//! goes on with the section that is open, and is passed over while none is. A block
//! that gathers a statement gives a question. A reply in which no block does is handed
//! back whole, as one question.

use crate::clock::now_millis;
use crate::commands::llm::{question_texts, GenerateQuestionsRequest, Question, QuestionText};
use crate::decimal::{decimal, digits, render_decimal, render_digits};
use crate::formula::{formulas, scan_formulas};
use crate::markers::{
    answer_prefix, answer_prefix_chars, explanation_prefix, explanation_prefix_chars, heading_end,
    heading_end_chars, item_marker, item_marker_chars, separator, separator_chars,
    statement_prefix, statement_prefix_chars,
};
use crate::parser_proofs::{
    lemma_content_is_never_empty, lemma_ids_are_unique, lemma_questions_carry_the_request,
};
use crate::text::{
    append, chars_of, copy_range, pieces, split, starts_with, string_of, strings, strings_of,
    texts, trim, trimmed,
};
use vstd::prelude::*;

verus! {

/// The sections of a block.
#[derive(Clone, Copy, Debug)]
pub enum Section {
    Statement,
    Explanation,
    Answer,
}

/// What has been gathered of a block: the text of each section so far, and the
/// section that is open, which a line without a prefix goes on with.
pub ghost struct Sections {
    pub statement: Seq<char>,
    pub explanation: Seq<char>,
    pub answer: Seq<char>,
    pub cursor: Option<Section>,
}

/// Nothing gathered yet, and no section open.
pub open spec fn no_sections() -> Sections {
    Sections {
        statement: Seq::empty(),
        explanation: Seq::empty(),
        answer: Seq::empty(),
        cursor: None,
    }
}

/// The lines of `s`: what stands before, between and after its line feeds.
pub open spec fn lines(s: Seq<char>) -> Seq<Seq<char>> {
    pieces(s, seq!['\n'])
}

/// What a line with a section prefix `p` gives its section: what follows the prefix,
/// without the white space around it.
pub open spec fn section_start(line: Seq<char>, p: Seq<char>) -> Seq<char> {
    trimmed(line.skip(p.len() as int))
}

/// `section` with one more line: on a line of its own, unless it is the first.
pub open spec fn continued(section: Seq<char>, line: Seq<char>) -> Seq<char> {
    if section.len() > 0 {
        section.push('\n') + line
    } else {
        line
    }
}

/// Whether a line, its outer white space off, says nothing: it is empty, or begins
/// with the separator or with what is left of a heading.
pub open spec fn is_idle(line: Seq<char>) -> bool {
    line.len() == 0 || separator().is_prefix_of(line) || heading_end().is_prefix_of(line)
}

/// The sections after one more line. White space around the line does not count.
/// A line that begins with a section prefix opens that section anew with what
/// follows the prefix; an idle line changes nothing; any other line goes on with the
/// section that is open, and changes nothing while none is.
pub open spec fn after_line(acc: Sections, line: Seq<char>) -> Sections {
    let t = trimmed(line);
    if statement_prefix().is_prefix_of(t) {
        Sections {
            statement: section_start(t, statement_prefix()),
            cursor: Some(Section::Statement),
            ..acc
        }
    } else if explanation_prefix().is_prefix_of(t) {
        Sections {
            explanation: section_start(t, explanation_prefix()),
            cursor: Some(Section::Explanation),
            ..acc
        }
    } else if answer_prefix().is_prefix_of(t) {
        Sections {
            answer: section_start(t, answer_prefix()),
            cursor: Some(Section::Answer),
            ..acc
        }
    } else if is_idle(t) {
        acc
    } else {
        match acc.cursor {
            None => acc,
            Some(Section::Statement) => Sections {
                statement: continued(acc.statement, t),
                ..acc
            },
            Some(Section::Explanation) => Sections {
                explanation: continued(acc.explanation, t),
                ..acc
            },
            Some(Section::Answer) => Sections { answer: continued(acc.answer, t), ..acc },
        }
    }
}

/// The sections after the lines of `ls`, taken in order.
pub open spec fn after_lines(acc: Sections, ls: Seq<Seq<char>>) -> Sections
    decreases ls.len(),
{
    if ls.len() == 0 {
        acc
    } else {
        after_line(after_lines(acc, ls.drop_last()), ls.last())
    }
}

/// The sections of a block.
pub open spec fn sections_of(block: Seq<char>) -> Sections {
    after_lines(no_sections(), lines(trimmed(block)))
}

/// What stands for an answer that a block does not give.
pub open spec fn answer_placeholder() -> Seq<char> {
    "详见解答"@
}

/// What stands for an explanation that a block does not give, and for the answer of a
/// reply that is handed back whole: both point at the text above.
pub open spec fn explanation_placeholder() -> Seq<char> {
    "详见上述内容"@
}

/// The kind that every question is given.
pub open spec fn essay() -> Seq<char> {
    "essay"@
}

/// The identifier of the question of block `ordinal` in a reply read at `stamp`.
pub open spec fn question_id(stamp: int, ordinal: nat) -> Seq<char> {
    "q-"@ + decimal(stamp) + "-"@ + digits(ordinal)
}

/// `section`, or `placeholder` where the section is empty.
pub open spec fn or_placeholder(section: Seq<char>, placeholder: Seq<char>) -> Seq<char> {
    if section.len() == 0 {
        placeholder
    } else {
        section
    }
}

/// The question that block number `ordinal` gives, if it gives one: it does when it
/// has gathered a statement. What stands in front of the first section prefix, such
/// as the rest of a heading, is not gathered, so a block without a statement line
/// gives none.
pub open spec fn block_question(
    block: Seq<char>,
    ordinal: nat,
    difficulty: Seq<char>,
    topic: Seq<char>,
    stamp: int,
) -> Option<QuestionText> {
    let sections = sections_of(block);
    if sections.statement.len() > 0 {
        Some(
            QuestionText {
                id: question_id(stamp, ordinal),
                content: sections.statement,
                answer: or_placeholder(sections.answer, answer_placeholder()),
                explanation: or_placeholder(sections.explanation, explanation_placeholder()),
                difficulty: difficulty,
                question_type: essay(),
                knowledge_points: seq![topic],
                has_graph: false,
                latex_formulas: formulas(sections.statement),
            },
        )
    } else {
        None
    }
}

/// Whether a piece of the reply is a block: one that holds more than white space.
pub open spec fn is_block() -> spec_fn(Seq<char>) -> bool {
    |piece: Seq<char>| trimmed(piece).len() > 0
}

/// The blocks of a reply, in the order in which they stand.
pub open spec fn blocks(text: Seq<char>) -> Seq<Seq<char>> {
    pieces(text, item_marker()).filter(is_block())
}

/// The questions that the blocks of `bs` give, in order, each numbered by the place
/// of its block.
pub open spec fn block_questions(
    bs: Seq<Seq<char>>,
    difficulty: Seq<char>,
    topic: Seq<char>,
    stamp: int,
) -> Seq<QuestionText>
    decreases bs.len(),
{
    if bs.len() == 0 {
        Seq::empty()
    } else {
        let before = block_questions(bs.drop_last(), difficulty, topic, stamp);
        match block_question(bs.last(), (bs.len() - 1) as nat, difficulty, topic, stamp) {
            Some(q) => before.push(q),
            None => before,
        }
    }
}

/// The one question that stands for a reply in which no block gives a question: the
/// whole reply is its content and its explanation.
pub open spec fn whole_reply_question(
    text: Seq<char>,
    difficulty: Seq<char>,
    topic: Seq<char>,
    stamp: int,
) -> QuestionText {
    QuestionText {
        id: question_id(stamp, 0),
        content: text,
        answer: explanation_placeholder(),
        explanation: text,
        difficulty: difficulty,
        question_type: essay(),
        knowledge_points: seq![topic],
        has_graph: false,
        latex_formulas: formulas(text),
    }
}

/// The questions of a reply read at `stamp`: those of its blocks or, where they give
/// none, the reply as one question.
pub open spec fn parsed(
    text: Seq<char>,
    difficulty: Seq<char>,
    topic: Seq<char>,
    stamp: int,
) -> Seq<QuestionText> {
    let found = block_questions(blocks(text), difficulty, topic, stamp);
    if found.len() == 0 {
        seq![whole_reply_question(text, difficulty, topic, stamp)]
    } else {
        found
    }
}

/// What holds of the questions of every reply to a request for `topic` at
/// `difficulty`: there is at least one; no two have the same identifier; each
/// carries the difficulty and the topic as they were asked for, has no graph, and
/// lists the formulas of its content; and none has an empty content, unless the reply
/// itself is empty.
pub open spec fn is_sound(
    questions: Seq<Question>,
    text: Seq<char>,
    difficulty: Seq<char>,
    topic: Seq<char>,
) -> bool {
    &&& questions.len() >= 1
    &&& forall|i: int, j: int|
        0 <= i < j < questions.len() ==> questions[i].id@ != questions[j].id@
    &&& forall|i: int|
        0 <= i < questions.len() ==> {
            &&& (#[trigger] questions[i]).difficulty@ == difficulty
            &&& strings(questions[i].knowledge_points@) == seq![topic]
            &&& !questions[i].has_graph
            &&& strings(questions[i].latex_formulas@) == formulas(questions[i].content@)
            &&& (text.len() > 0 ==> questions[i].content@.len() > 0)
        }
}

/// The marks, written out once for a whole reply.
struct Marks {
    item: Vec<char>,
    heading_end: Vec<char>,
    statement: Vec<char>,
    explanation: Vec<char>,
    answer: Vec<char>,
    separator: Vec<char>,
    line_feed: Vec<char>,
}

impl Marks {
    spec fn wf(&self) -> bool {
        &&& self.item@ == item_marker()
        &&& self.heading_end@ == heading_end()
        &&& self.statement@ == statement_prefix()
        &&& self.explanation@ == explanation_prefix()
        &&& self.answer@ == answer_prefix()
        &&& self.separator@ == separator()
        &&& self.line_feed@ == seq!['\n']
    }

    fn new() -> (marks: Marks)
        ensures
            marks.wf(),
    {
        let mut line_feed: Vec<char> = Vec::new();
        line_feed.push('\n');
        Marks {
            item: item_marker_chars(),
            heading_end: heading_end_chars(),
            statement: statement_prefix_chars(),
            explanation: explanation_prefix_chars(),
            answer: answer_prefix_chars(),
            separator: separator_chars(),
            line_feed,
        }
    }
}

/// The sections of a block as they are gathered.
struct Gathered {
    statement: Vec<char>,
    explanation: Vec<char>,
    answer: Vec<char>,
    cursor: Option<Section>,
}

impl View for Gathered {
    type V = Sections;

    closed spec fn view(&self) -> Sections {
        Sections {
            statement: self.statement@,
            explanation: self.explanation@,
            answer: self.answer@,
            cursor: self.cursor,
        }
    }
}

/// What follows the prefix `p` on the line `t`, trimmed.
fn start_section(t: &Vec<char>, p: &Vec<char>) -> (out: Vec<char>)
    requires
        p@.is_prefix_of(t@),
    ensures
        out@ == section_start(t@, p@),
{
    let rest = copy_range(t, p.len(), t.len());
    assert(rest@ == t@.skip(p@.len() as int));
    trim(&rest)
}

/// Adds a line to a section.
fn continue_section(section: &mut Vec<char>, line: &Vec<char>)
    ensures
        final(section)@ == continued(old(section)@, line@),
{
    if section.len() > 0 {
        section.push('\n');
    }
    append(section, line);
    assert(Seq::<char>::empty() + line@ == line@);
}

/// Takes one more line into the sections.
fn take_line(acc: &mut Gathered, line: &Vec<char>, marks: &Marks)
    requires
        marks.wf(),
    ensures
        final(acc)@ == after_line(old(acc)@, line@),
{
    let t = trim(line);
    if starts_with(&t, &marks.statement) {
        acc.statement = start_section(&t, &marks.statement);
        acc.cursor = Some(Section::Statement);
    } else if starts_with(&t, &marks.explanation) {
        acc.explanation = start_section(&t, &marks.explanation);
        acc.cursor = Some(Section::Explanation);
    } else if starts_with(&t, &marks.answer) {
        acc.answer = start_section(&t, &marks.answer);
        acc.cursor = Some(Section::Answer);
    } else if t.len() == 0 || starts_with(&t, &marks.separator) || starts_with(
        &t,
        &marks.heading_end,
    ) {
    } else {
        match acc.cursor {
            None => {},
            Some(Section::Statement) => continue_section(&mut acc.statement, &t),
            Some(Section::Explanation) => continue_section(&mut acc.explanation, &t),
            Some(Section::Answer) => continue_section(&mut acc.answer, &t),
        }
    }
}

/// Gathers the sections of a block from its text, the outer white space already off.
fn gather(body: &Vec<char>, marks: &Marks) -> (acc: Gathered)
    requires
        marks.wf(),
    ensures
        acc@ == after_lines(no_sections(), lines(body@)),
{
    let ls = split(body, &marks.line_feed);
    let mut acc = Gathered {
        statement: Vec::new(),
        explanation: Vec::new(),
        answer: Vec::new(),
        cursor: None,
    };
    let mut k: usize = 0;
    assert(texts(ls@).take(0) == Seq::<Seq<char>>::empty());
    while k < ls.len()
        invariant
            marks.wf(),
            k <= ls.len(),
            acc@ == after_lines(no_sections(), texts(ls@).take(k as int)),
        decreases ls.len() - k,
    {
        proof {
            let upto = texts(ls@).take(k + 1);
            assert(upto.drop_last() == texts(ls@).take(k as int));
            assert(upto.last() == ls@[k as int]@);
        }
        take_line(&mut acc, &ls[k], marks);
        k += 1;
    }
    assert(texts(ls@).take(ls.len() as int) == texts(ls@));
    acc
}

/// Writes the identifier of a question.
fn write_id(stamp: i64, ordinal: usize) -> (out: String)
    ensures
        out@ == question_id(stamp as int, ordinal as nat),
{
    let mut id = chars_of("q-");
    append(&mut id, &render_decimal(stamp));
    append(&mut id, &chars_of("-"));
    append(&mut id, &render_digits(ordinal as u64));
    string_of(&id)
}

/// A section as a string, or the placeholder where the section is empty.
fn section_or(section: &Vec<char>, placeholder: &str) -> (out: String)
    ensures
        out@ == or_placeholder(section@, placeholder@),
{
    if section.len() == 0 {
        String::from_str(placeholder)
    } else {
        string_of(section)
    }
}

/// The topic of a request as the one knowledge point of a question.
fn knowledge_points_of(params: &GenerateQuestionsRequest) -> (out: Vec<String>)
    ensures
        strings(out@) == seq![params.topic@],
{
    let mut out: Vec<String> = Vec::new();
    out.push(params.topic.clone());
    assert(strings(out@) == seq![params.topic@]);
    out
}

/// The question of a block, if it gives one. `body` is the block without its outer
/// white space.
fn question_of_block(
    body: &Vec<char>,
    ordinal: usize,
    params: &GenerateQuestionsRequest,
    stamp: i64,
    marks: &Marks,
) -> (out: Option<Question>)
    requires
        marks.wf(),
    ensures
        forall|block: Seq<char>|
            trimmed(block) == body@ ==> #[trigger] block_question(
                block,
                ordinal as nat,
                params.difficulty@,
                params.topic@,
                stamp as int,
            ) == match out {
                Some(q) => Some(q@),
                None => None::<QuestionText>,
            },
{
    let acc = gather(body, marks);
    if acc.statement.len() > 0 {
        let latex_formulas = strings_of(&scan_formulas(&acc.statement));
        Some(
            Question {
                id: write_id(stamp, ordinal),
                content: string_of(&acc.statement),
                answer: section_or(&acc.answer, "详见解答"),
                explanation: section_or(&acc.explanation, "详见上述内容"),
                difficulty: params.difficulty.clone(),
                question_type: String::from_str("essay"),
                knowledge_points: knowledge_points_of(params),
                has_graph: false,
                latex_formulas,
            },
        )
    } else {
        None
    }
}

/// The question that stands for a whole reply.
fn question_of_reply(text: &Vec<char>, params: &GenerateQuestionsRequest, stamp: i64) -> (out:
    Question)
    ensures
        out@ == whole_reply_question(text@, params.difficulty@, params.topic@, stamp as int),
{
    Question {
        id: write_id(stamp, 0),
        content: string_of(text),
        answer: String::from_str("详见上述内容"),
        explanation: string_of(text),
        difficulty: params.difficulty.clone(),
        question_type: String::from_str("essay"),
        knowledge_points: knowledge_points_of(params),
        has_graph: false,
        latex_formulas: strings_of(&scan_formulas(text)),
    }
}

/// Takes the reply `content` apart into questions, each stamped with `stamp`.
///
/// Every question carries the difficulty and the topic of `params` as they are. There
/// is always at least one question: a reply whose blocks give none is handed back as
/// one question whose content and explanation are the whole reply.
pub fn parse_questions_at(content: &str, params: &GenerateQuestionsRequest, stamp: i64) -> (out:
    Vec<Question>)
    ensures
        question_texts(out@) == parsed(
            content@,
            params.difficulty@,
            params.topic@,
            stamp as int,
        ),
        is_sound(out@, content@, params.difficulty@, params.topic@),
{
    let marks = Marks::new();
    let text = chars_of(content);
    let cut = split(&text, &marks.item);
    let mut out: Vec<Question> = Vec::new();
    let mut ordinal: usize = 0;
    let mut k: usize = 0;
    let ghost difficulty = params.difficulty@;
    let ghost topic = params.topic@;
    proof {
        assert(texts(cut@).take(0) == Seq::<Seq<char>>::empty());
        reveal_with_fuel(Seq::filter, 1);
        assert(question_texts(out@) == Seq::<QuestionText>::empty());
    }
    while k < cut.len()
        invariant
            marks.wf(),
            k <= cut.len(),
            difficulty == params.difficulty@,
            topic == params.topic@,
            ordinal == texts(cut@).take(k as int).filter(is_block()).len(),
            ordinal <= k,
            question_texts(out@) == block_questions(
                texts(cut@).take(k as int).filter(is_block()),
                difficulty,
                topic,
                stamp as int,
            ),
        decreases cut.len() - k,
    {
        let body = trim(&cut[k]);
        let ghost before = texts(cut@).take(k as int);
        let ghost piece = cut@[k as int]@;
        proof {
            assert(texts(cut@).take(k + 1) == before.push(piece));
            before.lemma_filter_push(piece, is_block());
        }
        if body.len() > 0 {
            let ghost bs = before.filter(is_block()).push(piece);
            proof {
                assert(bs.drop_last() == before.filter(is_block()));
                assert(bs.last() == piece);
            }
            match question_of_block(&body, ordinal, params, stamp, &marks) {
                Some(q) => {
                    proof {
                        assert(block_question(piece, ordinal as nat, difficulty, topic, stamp as int)
                            == Some(q@));
                        assert(question_texts(out@.push(q)) == question_texts(out@).push(q@));
                    }
                    out.push(q);
                },
                None => {
                    proof {
                        assert(block_question(piece, ordinal as nat, difficulty, topic, stamp as int)
                            is None);
                    }
                },
            }
            ordinal += 1;
        }
        k += 1;
    }
    assert(texts(cut@).take(cut.len() as int) == texts(cut@));
    if out.len() == 0 {
        let q = question_of_reply(&text, params, stamp);
        assert(question_texts(out@.push(q)) == seq![q@]);
        out.push(q);
    }
    proof {
        let all = parsed(content@, difficulty, topic, stamp as int);
        assert forall|i: int, j: int| 0 <= i < j < out@.len() implies out@[i].id@
            != out@[j].id@ by {
            lemma_ids_are_unique(content@, difficulty, topic, stamp as int, i, j);
            assert(all[i] == out@[i]@ && all[j] == out@[j]@);
        }
        assert forall|i: int| 0 <= i < out@.len() implies {
            &&& (#[trigger] out@[i]).difficulty@ == difficulty
            &&& strings(out@[i].knowledge_points@) == seq![topic]
            &&& !out@[i].has_graph
            &&& strings(out@[i].latex_formulas@) == formulas(out@[i].content@)
            &&& (content@.len() > 0 ==> out@[i].content@.len() > 0)
        } by {
            assert(all[i] == out@[i]@);
            lemma_questions_carry_the_request(content@, difficulty, topic, stamp as int, i);
            if content@.len() > 0 {
                lemma_content_is_never_empty(content@, difficulty, topic, stamp as int, i);
            }
        }
    }
    out
}

/// Takes the reply `content` apart into questions, stamped with the time of the call.
///
/// What the questions are but for the stamp in their identifiers is settled by the
/// reply and the request: see `parsed`.
pub fn parse_questions(content: &str, params: &GenerateQuestionsRequest) -> (out: Vec<Question>)
    ensures
        exists|stamp: i64|
            question_texts(out@) == #[trigger] parsed(
                content@,
                params.difficulty@,
                params.topic@,
                stamp as int,
            ),
        is_sound(out@, content@, params.difficulty@, params.topic@),
{
    let stamp = now_millis();
    parse_questions_at(content, params, stamp)
}

} // verus!
