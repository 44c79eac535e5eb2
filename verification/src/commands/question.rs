//! Questions asked for by topic, and questions adapted from a given one.

use crate::commands::{carried, ApiResponse};
use crate::decimal::{decimal, render_decimal};
use crate::text::{append, chars_of, string_of};
use crate::utils::AppError;
use vstd::prelude::*;

verus! {

#[derive(Debug)]
pub struct GenerateQuestionsRequest {
    pub topic: String,
    pub difficulty: String,
    pub question_types: Vec<String>,
    pub count: i32,
    pub require_graph: bool,
    pub require_latex: bool,
}

#[derive(Debug)]
pub struct GeneratedQuestion {
    pub id: String,
    pub content: String,
    pub answer: String,
    pub explanation: String,
    pub difficulty: String,
    pub question_type: String,
    pub has_graph: bool,
    pub graph_data: Option<String>,
}

#[derive(Debug)]
pub struct GenerateQuestionsResponse {
    pub questions: Vec<GeneratedQuestion>,
    pub topic_analysis: String,
}

#[derive(Debug)]
pub struct AdaptQuestionRequest {
    pub original_question: String,
    pub adaptation_type: String,
    pub specific_requirements: Option<String>,
}

#[derive(Debug)]
pub struct AdaptQuestionResponse {
    pub analysis: String,
    pub adapted_questions: Vec<GeneratedQuestion>,
    pub adaptation_suggestions: Vec<String>,
}

/// The sentence that says what was asked for: how many questions, how difficult, on
/// what.
pub open spec fn topic_analysis(count: int, difficulty: Seq<char>, topic: Seq<char>) -> Seq<
    char,
> {
    "已为您生成 "@ + decimal(count) + " 道 "@ + difficulty + " 难度的 "@ + topic + " 题目"@
}

/// Answers a request for questions: no question yet, and the sentence that says what
/// was asked for.
pub fn generate_questions(request: GenerateQuestionsRequest) -> (response: Result<
    ApiResponse<GenerateQuestionsResponse>,
    AppError,
>)
    ensures
        carried(response) matches Some(generated) && generated.questions@.len() == 0
            && generated.topic_analysis@ == topic_analysis(
            request.count as int,
            request.difficulty@,
            request.topic@,
        ),
{
    let mut analysis = chars_of("已为您生成 ");
    append(&mut analysis, &render_decimal(request.count as i64));
    append(&mut analysis, &chars_of(" 道 "));
    append(&mut analysis, &chars_of(request.difficulty.as_str()));
    append(&mut analysis, &chars_of(" 难度的 "));
    append(&mut analysis, &chars_of(request.topic.as_str()));
    append(&mut analysis, &chars_of(" 题目"));
    let generated = GenerateQuestionsResponse {
        questions: Vec::new(),
        topic_analysis: string_of(&analysis),
    };
    Ok(ApiResponse::success(generated))
}

/// The ways of adapting a question that are always suggested.
pub open spec fn suggestions() -> Seq<Seq<char>> {
    seq!["加入参数讨论"@, "结合不等式"@, "改变情境"@]
}

/// Answers a request to adapt a question: an analysis of the question, no adapted
/// question yet, and the suggestions.
pub fn adapt_question(request: AdaptQuestionRequest) -> (response: Result<
    ApiResponse<AdaptQuestionResponse>,
    AppError,
>)
    ensures
        carried(response) matches Some(adapted) && adapted.analysis@
            == "原题是一道基础函数题，考查导数应用"@ && adapted.adapted_questions@.len() == 0
            && crate::text::strings(adapted.adaptation_suggestions@) == suggestions(),
{
    let mut adaptation_suggestions: Vec<String> = Vec::new();
    adaptation_suggestions.push(String::from_str("加入参数讨论"));
    adaptation_suggestions.push(String::from_str("结合不等式"));
    adaptation_suggestions.push(String::from_str("改变情境"));
    assert(crate::text::strings(adaptation_suggestions@) == suggestions());
    let adapted = AdaptQuestionResponse {
        analysis: String::from_str("原题是一道基础函数题，考查导数应用"),
        adapted_questions: Vec::new(),
        adaptation_suggestions,
    };
    Ok(ApiResponse::success(adapted))
}

} // verus!
