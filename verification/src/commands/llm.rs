//! Questions from a language model: what is asked for and what comes back.

use crate::clock::now_millis;
use crate::commands::ApiResponse;
use crate::parser::{parse_questions_at, parsed};
use crate::prompt::{build_question_prompt, prompt_text};
use crate::text::{chars_of, copy_range, string_of};
use vstd::prelude::*;

verus! {

/// A request for questions: where to ask, and what for.
#[derive(Debug)]
pub struct GenerateQuestionsRequest {
    pub api_key: String,
    pub api_base: String,
    pub model: String,
    pub topic: String,
    pub difficulty: String,
    pub count: i32,
}

/// One question as it is handed to the caller.
#[derive(Debug)]
pub struct Question {
    pub id: String,
    pub content: String,
    pub answer: String,
    pub explanation: String,
    pub difficulty: String,
    pub question_type: String,
    pub knowledge_points: Vec<String>,
    pub has_graph: bool,
    pub latex_formulas: Vec<String>,
}

/// What a `Question` holds, as text.
pub ghost struct QuestionText {
    pub id: Seq<char>,
    pub content: Seq<char>,
    pub answer: Seq<char>,
    pub explanation: Seq<char>,
    pub difficulty: Seq<char>,
    pub question_type: Seq<char>,
    pub knowledge_points: Seq<Seq<char>>,
    pub has_graph: bool,
    pub latex_formulas: Seq<Seq<char>>,
}

impl View for Question {
    type V = QuestionText;

    open spec fn view(&self) -> QuestionText {
        QuestionText {
            id: self.id@,
            content: self.content@,
            answer: self.answer@,
            explanation: self.explanation@,
            difficulty: self.difficulty@,
            question_type: self.question_type@,
            knowledge_points: crate::text::strings(self.knowledge_points@),
            has_graph: self.has_graph,
            latex_formulas: crate::text::strings(self.latex_formulas@),
        }
    }
}

/// What each of the questions of `v` holds.
pub open spec fn question_texts(v: Seq<Question>) -> Seq<QuestionText> {
    Seq::new(v.len(), |i: int| v[i]@)
}

/// A request to try the connection to the model.
#[derive(Debug)]
pub struct TestConnectionRequest {
    pub api_key: String,
    pub api_base: String,
}

/// What came of trying the connection.
#[derive(Debug)]
pub struct TestConnectionResponse {
    pub success: bool,
    pub message: String,
}

/// One turn of the conversation that is sent to the model.
#[derive(Debug)]
pub struct Message {
    pub role: String,
    pub content: String,
}

/// `s` without the characters `c` at its end.
pub open spec fn without_trailing(s: Seq<char>, c: char) -> Seq<char>
    decreases s.len(),
{
    if s.len() > 0 && s.last() == c {
        without_trailing(s.drop_last(), c)
    } else {
        s
    }
}

/// The address of `path` under the base address `api_base`, whose trailing slashes
/// do not count.
pub open spec fn endpoint(api_base: Seq<char>, path: Seq<char>) -> Seq<char> {
    without_trailing(api_base, '/') + path
}

/// Writes the address of `path` under `api_base`.
fn write_endpoint(api_base: &str, path: &str) -> (out: String)
    ensures
        out@ == endpoint(api_base@, path@),
{
    let base = chars_of(api_base);
    let mut end: usize = base.len();
    assert(base@.take(end as int) == base@);
    while end > 0 && base[end - 1] == '/'
        invariant
            end <= base.len(),
            without_trailing(base@, '/') == without_trailing(base@.take(end as int), '/'),
        decreases end,
    {
        assert(base@.take(end as int).drop_last() == base@.take(end - 1));
        end -= 1;
    }
    let stem = copy_range(&base, 0, end);
    assert(stem@ == base@.take(end as int));
    string_of(&stem).concat(path)
}

/// The address to which a request for a completion goes.
pub fn completions_url(api_base: &str) -> (out: String)
    ensures
        out@ == endpoint(api_base@, "/chat/completions"@),
{
    write_endpoint(api_base, "/chat/completions")
}

/// The address at which the models are listed, which a trial of the connection asks
/// for.
pub fn models_url(api_base: &str) -> (out: String)
    ensures
        out@ == endpoint(api_base@, "/models"@),
{
    write_endpoint(api_base, "/models")
}

/// The value of the header that carries the key.
pub fn authorization(api_key: &str) -> (out: String)
    ensures
        out@ == "Bearer "@ + api_key@,
{
    String::from_str("Bearer ").concat(api_key)
}

/// The conversation that asks for the questions of `request`: the system sets the
/// scene, the user gives the prompt.
pub fn chat_messages(request: &GenerateQuestionsRequest) -> (out: Vec<Message>)
    ensures
        out@.len() == 2,
        out@[0].role@ == "system"@,
        out@[0].content@ == "你是高中数学特级教师，擅长出题和解题。"@,
        out@[1].role@ == "user"@,
        out@[1].content@ == prompt_text(
            request.topic@,
            request.difficulty@,
            request.count as int,
        ),
{
    let mut out: Vec<Message> = Vec::new();
    out.push(
        Message {
            role: String::from_str("system"),
            content: String::from_str("你是高中数学特级教师，擅长出题和解题。"),
        },
    );
    out.push(
        Message {
            role: String::from_str("user"),
            content: build_question_prompt(
                request.topic.as_str(),
                request.difficulty.as_str(),
                request.count,
            ),
        },
    );
    out
}

/// What came of asking the model for a completion.
#[derive(Debug)]
pub enum CompletionReply {
    /// The model answered; `choices` holds the text of each choice that it gave.
    Completed { choices: Vec<String> },
    /// The answer could not be read; `detail` says why.
    Unreadable { detail: String },
    /// The service refused with `status` and said `body`.
    Refused { status: String, body: String },
    /// The service could not be reached; `detail` says why.
    Unreachable { detail: String },
}

/// Whether `response` carries no data but the reason `reason`.
pub open spec fn fails_with<T>(response: ApiResponse<T>, reason: Seq<char>) -> bool {
    &&& !response.success
    &&& response.data is None
    &&& response.error matches Some(message)
    &&& message@ == reason
}

/// Whether `response` carries the questions of the reply `text` read at `stamp`.
pub open spec fn carries_questions(
    response: ApiResponse<Vec<Question>>,
    text: Seq<char>,
    request: GenerateQuestionsRequest,
    stamp: int,
) -> bool {
    &&& response.success
    &&& response.error is None
    &&& response.data matches Some(questions)
    &&& question_texts(questions@) == parsed(text, request.difficulty@, request.topic@, stamp)
}

/// Whether `response` is the answer to `request` after the model replied `reply` at
/// `stamp`: the questions of the first choice; or, for want of one, the reason.
pub open spec fn answers_generation(
    response: ApiResponse<Vec<Question>>,
    request: GenerateQuestionsRequest,
    reply: CompletionReply,
    stamp: int,
) -> bool {
    match reply {
        CompletionReply::Completed { choices } => if choices@.len() > 0 {
            carries_questions(response, choices@[0]@, request, stamp)
        } else {
            fails_with(response, "API返回数据为空"@)
        },
        CompletionReply::Unreadable { detail } => fails_with(
            response,
            "解析API响应失败: "@ + detail@,
        ),
        CompletionReply::Refused { status, body } => fails_with(
            response,
            "API请求失败 ("@ + status@ + "): "@ + body@,
        ),
        CompletionReply::Unreachable { detail } => fails_with(response, "网络错误: "@ + detail@),
    }
}

/// Answers a request for questions from what the model replied, the questions
/// stamped with `stamp`.
pub fn llm_generate_questions_at(
    request: &GenerateQuestionsRequest,
    reply: CompletionReply,
    stamp: i64,
) -> (response: ApiResponse<Vec<Question>>)
    ensures
        answers_generation(response, *request, reply, stamp as int),
{
    match reply {
        CompletionReply::Completed { choices } => {
            if choices.len() > 0 {
                ApiResponse::success(parse_questions_at(choices[0].as_str(), request, stamp))
            } else {
                ApiResponse::error(String::from_str("API返回数据为空"))
            }
        },
        CompletionReply::Unreadable { detail } => ApiResponse::error(
            String::from_str("解析API响应失败: ").concat(detail.as_str()),
        ),
        CompletionReply::Refused { status, body } => ApiResponse::error(
            String::from_str("API请求失败 (").concat(status.as_str()).concat("): ").concat(
                body.as_str(),
            ),
        ),
        CompletionReply::Unreachable { detail } => ApiResponse::error(
            String::from_str("网络错误: ").concat(detail.as_str()),
        ),
    }
}

/// Answers a request for questions from what the model replied, the questions
/// stamped with the time of the call.
pub fn llm_generate_questions(request: &GenerateQuestionsRequest, reply: CompletionReply) -> (response:
    ApiResponse<Vec<Question>>)
    ensures
        exists|stamp: i64| #[trigger] answers_generation(response, *request, reply, stamp as int),
{
    let stamp = now_millis();
    llm_generate_questions_at(request, reply, stamp)
}

/// What came of trying the connection to the model.
#[derive(Debug)]
pub enum ConnectionReply {
    /// The service answered the trial.
    Accepted,
    /// The service refused with `status` and said `body`.
    Refused { status: String, body: String },
    /// The service could not be reached; `detail` says why.
    Unreachable { detail: String },
}

/// What a trial of the connection is reported as.
pub open spec fn connection_message(reply: ConnectionReply) -> Seq<char> {
    match reply {
        ConnectionReply::Accepted => "连接成功"@,
        ConnectionReply::Refused { status, body } => "API返回错误 ("@ + status@ + "): "@ + body@,
        ConnectionReply::Unreachable { detail } => "连接失败: "@ + detail@,
    }
}

/// Reports a trial of the connection. The report itself always succeeds; whether the
/// connection does is what it carries.
pub fn llm_test_connection(reply: ConnectionReply) -> (response: ApiResponse<
    TestConnectionResponse,
>)
    ensures
        response.success,
        response.error is None,
        response.data matches Some(trial) && trial.success == (reply is Accepted)
            && trial.message@ == connection_message(reply),
{
    let trial = match reply {
        ConnectionReply::Accepted => TestConnectionResponse {
            success: true,
            message: String::from_str("连接成功"),
        },
        ConnectionReply::Refused { status, body } => TestConnectionResponse {
            success: false,
            message: String::from_str("API返回错误 (").concat(status.as_str()).concat(
                "): ",
            ).concat(body.as_str()),
        },
        ConnectionReply::Unreachable { detail } => TestConnectionResponse {
            success: false,
            message: String::from_str("连接失败: ").concat(detail.as_str()),
        },
    };
    ApiResponse::success(trial)
}

} // verus!
