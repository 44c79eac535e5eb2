use ai4edu::commands::chat::{
    create_conversation, create_conversation_as, delete_conversation, get_conversation_history,
    get_conversation_history_at, send_message, send_message_as, DeleteConversationRequest,
    GetHistoryRequest, SendMessageRequest,
};
use ai4edu::commands::export::{
    export_to_docx, export_to_pptx, ExportToDocxRequest, ExportToPptxRequest,
};
use ai4edu::commands::llm::{
    authorization, chat_messages, completions_url, llm_generate_questions,
    llm_generate_questions_at, llm_test_connection, models_url, CompletionReply, ConnectionReply,
    GenerateQuestionsRequest,
};
use ai4edu::commands::ppt::{generate_ppt, generate_ppt_as, GeneratePptRequest, SlideRequest};
use ai4edu::commands::question::{adapt_question, generate_questions, AdaptQuestionRequest};
use ai4edu::commands::settings::{get_settings, update_settings, UpdateSettingsRequest};
use ai4edu::commands::ApiResponse;
use ai4edu::models::chat::MessageRole;
use ai4edu::prompt::build_question_prompt;
use ai4edu::utils::error::format_error;
use ai4edu::utils::AppError;

fn llm_request() -> GenerateQuestionsRequest {
    GenerateQuestionsRequest {
        api_key: "SECRET-REDACTED".to_string(),
        api_base: "https://api.example.com/v1/".to_string(),
        model: "gpt-4".to_string(),
        topic: "functions".to_string(),
        difficulty: "basic".to_string(),
        count: 3,
    }
}

#[test]
fn a_successful_response_carries_its_data() {
    let response = ApiResponse::success(7);
    assert!(response.success);
    assert_eq!(response.data, Some(7));
    assert_eq!(response.error, None);
}

#[test]
fn a_failed_response_carries_its_reason() {
    let response: ApiResponse<i32> = ApiResponse::error("坏了".to_string());
    assert!(!response.success);
    assert_eq!(response.data, None);
    assert_eq!(response.error, Some("坏了".to_string()));
}

#[test]
fn endpoints_drop_trailing_slashes() {
    assert_eq!(
        completions_url("https://api.example.com/v1"),
        "https://api.example.com/v1/chat/completions"
    );
    assert_eq!(
        completions_url("https://api.example.com/v1///"),
        "https://api.example.com/v1/chat/completions"
    );
    assert_eq!(completions_url(""), "/chat/completions");
    assert_eq!(completions_url("///"), "/chat/completions");
    assert_eq!(models_url("http://localhost:8000/"), "http://localhost:8000/models");
    assert_eq!(models_url("a/b"), "a/b/models");
}

#[test]
fn the_key_is_sent_as_a_bearer_token() {
    assert_eq!(authorization("SECRET-REDACTED"), "Bearer SECRET-REDACTED");
    assert_eq!(authorization(""), "Bearer ");
}

#[test]
fn the_conversation_sets_the_scene_and_gives_the_prompt() {
    let messages = chat_messages(&llm_request());
    assert_eq!(messages.len(), 2);
    assert_eq!(messages[0].role, "system");
    assert_eq!(messages[0].content, "你是高中数学特级教师，擅长出题和解题。");
    assert_eq!(messages[1].role, "user");
    assert_eq!(messages[1].content, build_question_prompt("functions", "basic", 3));
}

#[test]
fn a_completed_reply_is_parsed_from_its_first_choice() {
    let reply = CompletionReply::Completed {
        choices: vec![
            "【第1题】\n题目：甲\n答案：一".to_string(),
            "【第1题】\n题目：乙".to_string(),
        ],
    };
    let response = llm_generate_questions_at(&llm_request(), reply, 9);
    assert!(response.success);
    assert_eq!(response.error, None);
    let questions = response.data.unwrap();
    assert_eq!(questions.len(), 1);
    assert_eq!(questions[0].id, "q-9-0");
    assert_eq!(questions[0].content, "甲");
    assert_eq!(questions[0].answer, "一");
    assert_eq!(questions[0].difficulty, "basic");
    assert_eq!(questions[0].knowledge_points, vec!["functions".to_string()]);
}

#[test]
fn a_reply_without_choices_fails() {
    let response =
        llm_generate_questions_at(&llm_request(), CompletionReply::Completed { choices: vec![] }, 0);
    assert!(!response.success);
    assert!(response.data.is_none());
    assert_eq!(response.error, Some("API返回数据为空".to_string()));
}

#[test]
fn failures_of_the_service_are_reported_with_their_detail() {
    let unreadable = llm_generate_questions_at(
        &llm_request(),
        CompletionReply::Unreadable { detail: "expected value at line 1".to_string() },
        0,
    );
    assert!(!unreadable.success);
    assert!(unreadable.data.is_none());
    assert_eq!(
        unreadable.error,
        Some("解析API响应失败: expected value at line 1".to_string())
    );
    let refused = llm_generate_questions_at(
        &llm_request(),
        CompletionReply::Refused {
            status: "401 Unauthorized".to_string(),
            body: "{\"error\":\"bad key\"}".to_string(),
        },
        0,
    );
    assert!(!refused.success);
    assert_eq!(
        refused.error,
        Some("API请求失败 (401 Unauthorized): {\"error\":\"bad key\"}".to_string())
    );
    let unreachable = llm_generate_questions_at(
        &llm_request(),
        CompletionReply::Unreachable { detail: "connection refused".to_string() },
        0,
    );
    assert!(!unreachable.success);
    assert_eq!(unreachable.error, Some("网络错误: connection refused".to_string()));
}

#[test]
fn a_completed_reply_is_stamped_with_the_time_of_the_call() {
    let reply = CompletionReply::Completed { choices: vec!["题目：甲".to_string()] };
    let response = llm_generate_questions(&llm_request(), reply);
    let questions = response.data.unwrap();
    assert_eq!(questions.len(), 1);
    assert!(questions[0].id.starts_with("q-"));
    assert!(questions[0].id.ends_with("-0"));
    assert_eq!(questions[0].content, "甲");
}

#[test]
fn a_trial_of_the_connection_is_always_reported() {
    let accepted = llm_test_connection(ConnectionReply::Accepted);
    assert!(accepted.success);
    let trial = accepted.data.unwrap();
    assert!(trial.success);
    assert_eq!(trial.message, "连接成功");

    let refused = llm_test_connection(ConnectionReply::Refused {
        status: "403 Forbidden".to_string(),
        body: "no".to_string(),
    });
    assert!(refused.success);
    assert_eq!(refused.error, None);
    let trial = refused.data.unwrap();
    assert!(!trial.success);
    assert_eq!(trial.message, "API返回错误 (403 Forbidden): no");

    let unreachable =
        llm_test_connection(ConnectionReply::Unreachable { detail: "timed out".to_string() });
    assert!(unreachable.success);
    let trial = unreachable.data.unwrap();
    assert!(!trial.success);
    assert_eq!(trial.message, "连接失败: timed out");
}

fn message_request() -> SendMessageRequest {
    SendMessageRequest {
        conversation_id: None,
        content: "你好".to_string(),
        message_type: None,
    }
}

#[test]
fn a_message_is_acknowledged() {
    let response = send_message_as(message_request(), "m-1".to_string()).unwrap();
    assert!(response.success);
    let sent = response.data.unwrap();
    assert_eq!(sent.message_id, "m-1");
    assert_eq!(sent.content, "收到您的消息，正在处理...");
    assert!(sent.choices.is_none());
    assert!(!sent.require_input);
}

#[test]
fn a_message_gets_a_fresh_identifier() {
    let first = send_message(message_request()).unwrap().data.unwrap();
    let second = send_message(message_request()).unwrap().data.unwrap();
    assert_eq!(first.content, "收到您的消息，正在处理...");
    assert_eq!(first.message_id.len(), 36);
    assert_ne!(first.message_id, second.message_id);
}

#[test]
fn a_history_is_a_new_conversation_by_the_identifier_asked_for() {
    let response = get_conversation_history_at(
        GetHistoryRequest { conversation_id: "c-1".to_string() },
        "2024-01-01T00:00:00+08:00".to_string(),
        "2024-01-02T00:00:00+08:00".to_string(),
    )
    .unwrap();
    assert!(response.success);
    let conversation = response.data.unwrap();
    assert_eq!(conversation.id, "c-1");
    assert_eq!(conversation.title, "新对话");
    assert!(conversation.messages.is_empty());
    assert_eq!(conversation.created_at, "2024-01-01T00:00:00+08:00");
    assert_eq!(conversation.updated_at, "2024-01-02T00:00:00+08:00");

    let dated = get_conversation_history(GetHistoryRequest { conversation_id: "c-2".to_string() })
        .unwrap()
        .data
        .unwrap();
    assert_eq!(dated.id, "c-2");
    assert_eq!(dated.title, "新对话");
    assert!(dated.created_at.contains('T'));
}

#[test]
fn conversations_are_made_and_deleted() {
    let made = create_conversation_as("c-9".to_string()).unwrap();
    assert_eq!(made.data, Some("c-9".to_string()));
    let fresh = create_conversation().unwrap();
    assert!(fresh.success);
    assert_eq!(fresh.data.unwrap().len(), 36);
    let deleted =
        delete_conversation(DeleteConversationRequest { conversation_id: "c-9".to_string() })
            .unwrap();
    assert!(deleted.success);
    assert_eq!(deleted.data, Some(true));
}

#[test]
fn exports_name_their_file() {
    let docx = export_to_docx(ExportToDocxRequest {
        content: "内容".to_string(),
        title: "标题".to_string(),
        file_name: "试卷.docx".to_string(),
        include_answers: true,
        include_explanations: false,
    })
    .unwrap()
    .data
    .unwrap();
    assert_eq!(docx.file_path, "/exports/试卷.docx");
    assert_eq!(docx.file_size, 0);
    assert!(docx.success);
    let pptx = export_to_pptx(ExportToPptxRequest {
        slides: vec![serde_json::Value::Null],
        file_name: "deck.pptx".to_string(),
        template: "plain".to_string(),
    })
    .unwrap()
    .data
    .unwrap();
    assert_eq!(pptx.file_path, "/exports/deck.pptx");
    assert_eq!(pptx.file_size, 0);
    assert!(pptx.success);
}

fn slide() -> SlideRequest {
    SlideRequest {
        slide_type: "question".to_string(),
        content: "题".to_string(),
        question_data: None,
    }
}

#[test]
fn a_deck_counts_its_slides() {
    let request = GeneratePptRequest {
        title: "讲评".to_string(),
        slides: vec![slide(), slide(), slide()],
        template: "plain".to_string(),
    };
    let deck = generate_ppt_as(request, "p-1".to_string()).unwrap().data.unwrap();
    assert_eq!(deck.ppt_id, "p-1");
    assert_eq!(deck.slide_count, 3);
    assert!(deck.preview_data.is_empty());
    assert_eq!(deck.file_path, "/path/to/generated.pptx");
    let empty = GeneratePptRequest {
        title: String::new(),
        slides: vec![],
        template: String::new(),
    };
    let deck = generate_ppt(empty).unwrap().data.unwrap();
    assert_eq!(deck.slide_count, 0);
    assert_eq!(deck.ppt_id.len(), 36);
}

#[test]
fn a_request_for_questions_is_answered_with_what_was_asked() {
    let request = ai4edu::commands::question::GenerateQuestionsRequest {
        topic: "导数".to_string(),
        difficulty: "hard".to_string(),
        question_types: vec!["essay".to_string()],
        count: 5,
        require_graph: false,
        require_latex: true,
    };
    let generated = generate_questions(request).unwrap().data.unwrap();
    assert!(generated.questions.is_empty());
    assert_eq!(generated.topic_analysis, "已为您生成 5 道 hard 难度的 导数 题目");
}

#[test]
fn a_request_to_adapt_is_answered_with_the_suggestions() {
    let adapted = adapt_question(AdaptQuestionRequest {
        original_question: "求导".to_string(),
        adaptation_type: "variant".to_string(),
        specific_requirements: None,
    })
    .unwrap()
    .data
    .unwrap();
    assert_eq!(adapted.analysis, "原题是一道基础函数题，考查导数应用");
    assert!(adapted.adapted_questions.is_empty());
    assert_eq!(
        adapted.adaptation_suggestions,
        vec!["加入参数讨论".to_string(), "结合不等式".to_string(), "改变情境".to_string()]
    );
}

#[test]
fn the_settings_start_as_they_are_written() {
    let settings = get_settings().unwrap().data.unwrap();
    assert_eq!(settings.api_key, None);
    assert_eq!(settings.api_base, Some("https://api.openai.com/v1".to_string()));
    assert_eq!(settings.model, "gpt-4");
    assert_eq!(settings.theme, "light");
    assert_eq!(settings.language, "zh-CN");
    assert!(settings.auto_save);
    assert_eq!(settings.subject, "数学");
    assert_eq!(settings.grade, "高中");
    let updated = update_settings(UpdateSettingsRequest {
        api_key: None,
        api_base: None,
        model: Some("gpt-4o".to_string()),
        theme: None,
        auto_save: Some(false),
    })
    .unwrap();
    assert_eq!(updated.data, Some(true));
}

#[test]
fn failures_are_told_to_the_user() {
    assert_eq!(format_error(AppError::Database("locked".to_string())), "数据库操作失败，请稍后重试");
    assert_eq!(format_error(AppError::Io("denied".to_string())), "文件操作失败，请检查权限");
    assert_eq!(format_error(AppError::Json("eof".to_string())), "操作失败，请稍后重试");
    assert_eq!(format_error(AppError::Api("超时".to_string())), "API调用失败: 超时");
    assert_eq!(format_error(AppError::Config("缺少密钥".to_string())), "配置错误: 缺少密钥");
    assert_eq!(format_error(AppError::NotFound("对话".to_string())), "未找到: 对话");
    assert_eq!(format_error(AppError::Unknown("x".to_string())), "操作失败，请稍后重试");
}

#[test]
fn failures_are_written_with_their_kind() {
    assert_eq!(AppError::Database("locked".to_string()).message(), "数据库错误: locked");
    assert_eq!(AppError::Io("denied".to_string()).message(), "IO错误: denied");
    assert_eq!(AppError::Json("eof".to_string()).message(), "JSON错误: eof");
    assert_eq!(AppError::Api("超时".to_string()).message(), "API错误: 超时");
    assert_eq!(AppError::Config("缺少密钥".to_string()).message(), "配置错误: 缺少密钥");
    assert_eq!(AppError::NotFound("对话".to_string()).message(), "未找到: 对话");
    assert_eq!(AppError::Unknown("x".to_string()).message(), "未知错误: x");
}

#[test]
fn roles_are_written_in_lower_case_and_read_back() {
    for (role, name) in [
        (MessageRole::User, "user"),
        (MessageRole::Assistant, "assistant"),
        (MessageRole::System, "system"),
    ] {
        assert_eq!(role.name(), name);
        assert!(matches!(
            (MessageRole::from_name(name), role),
            (Some(MessageRole::User), MessageRole::User)
                | (Some(MessageRole::Assistant), MessageRole::Assistant)
                | (Some(MessageRole::System), MessageRole::System)
        ));
    }
    assert!(MessageRole::from_name("User").is_none());
    assert!(MessageRole::from_name("").is_none());
}
