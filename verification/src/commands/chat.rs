//! Conversations: messages sent, histories read, conversations made and deleted.

use crate::clock::local_time_text;
use crate::commands::{carried, ApiResponse};
use crate::ids::new_id;
use crate::utils::AppError;
use vstd::prelude::*;

verus! {

#[derive(Debug)]
pub struct SendMessageRequest {
    pub conversation_id: Option<String>,
    pub content: String,
    pub message_type: Option<String>,
}

#[derive(Debug)]
pub struct SendMessageResponse {
    pub message_id: String,
    pub content: String,
    pub choices: Option<Vec<ChoiceOption>>,
    pub require_input: bool,
}

#[derive(Debug)]
pub struct ChoiceOption {
    pub id: String,
    pub label: String,
    pub description: Option<String>,
    pub icon: Option<String>,
}

#[derive(Debug)]
pub struct GetHistoryRequest {
    pub conversation_id: String,
}

#[derive(Debug)]
pub struct Conversation {
    pub id: String,
    pub title: String,
    pub messages: Vec<Message>,
    pub created_at: String,
    pub updated_at: String,
}

#[derive(Debug)]
pub struct Message {
    pub id: String,
    pub role: String,
    pub content: String,
    pub choices: Option<Vec<ChoiceOption>>,
    pub metadata: Option<serde_json::Value>,
    pub created_at: String,
}

#[derive(Debug)]
pub struct DeleteConversationRequest {
    pub conversation_id: String,
}

/// Whether `response` acknowledges a message: it succeeds, says that the message is
/// being worked on, offers no choices and asks for no input.
pub open spec fn acknowledges(
    response: Result<ApiResponse<SendMessageResponse>, AppError>,
) -> bool {
    &&& carried(response) matches Some(sent)
    &&& sent.content@ == "收到您的消息，正在处理..."@
    &&& sent.choices is None
    &&& !sent.require_input
}

/// Acknowledges a message under the identifier `message_id`.
pub fn send_message_as(request: SendMessageRequest, message_id: String) -> (response: Result<
    ApiResponse<SendMessageResponse>,
    AppError,
>)
    ensures
        acknowledges(response),
        carried(response)->Some_0.message_id == message_id,
{
    let sent = SendMessageResponse {
        message_id,
        content: String::from_str("收到您的消息，正在处理..."),
        choices: None,
        require_input: false,
    };
    Ok(ApiResponse::success(sent))
}

/// Acknowledges a message under a fresh identifier.
pub fn send_message(request: SendMessageRequest) -> (response: Result<
    ApiResponse<SendMessageResponse>,
    AppError,
>)
    ensures
        acknowledges(response),
{
    let message_id = new_id();
    send_message_as(request, message_id)
}

/// Whether `response` is the history of the conversation `id`: a new conversation by
/// that identifier, without messages.
pub open spec fn is_history_of(
    response: Result<ApiResponse<Conversation>, AppError>,
    id: String,
) -> bool {
    &&& carried(response) matches Some(conversation)
    &&& conversation.id == id
    &&& conversation.title@ == "新对话"@
    &&& conversation.messages@.len() == 0
}

/// The history of a conversation, dated as given.
pub fn get_conversation_history_at(
    request: GetHistoryRequest,
    created_at: String,
    updated_at: String,
) -> (response: Result<ApiResponse<Conversation>, AppError>)
    ensures
        is_history_of(response, request.conversation_id),
        carried(response)->Some_0.created_at == created_at,
        carried(response)->Some_0.updated_at == updated_at,
{
    let conversation = Conversation {
        id: request.conversation_id,
        title: String::from_str("新对话"),
        messages: Vec::new(),
        created_at,
        updated_at,
    };
    Ok(ApiResponse::success(conversation))
}

/// The history of a conversation, dated with the time of the call.
pub fn get_conversation_history(request: GetHistoryRequest) -> (response: Result<
    ApiResponse<Conversation>,
    AppError,
>)
    ensures
        is_history_of(response, request.conversation_id),
{
    let created_at = local_time_text();
    let updated_at = local_time_text();
    get_conversation_history_at(request, created_at, updated_at)
}

/// Answers with the identifier of a new conversation.
pub fn create_conversation_as(conversation_id: String) -> (response: Result<
    ApiResponse<String>,
    AppError,
>)
    ensures
        carried(response) == Some(conversation_id),
{
    Ok(ApiResponse::success(conversation_id))
}

/// Answers with a fresh identifier for a new conversation.
pub fn create_conversation() -> (response: Result<ApiResponse<String>, AppError>)
    ensures
        carried(response) is Some,
{
    create_conversation_as(new_id())
}

/// Confirms that a conversation is deleted.
pub fn delete_conversation(request: DeleteConversationRequest) -> (response: Result<
    ApiResponse<bool>,
    AppError,
>)
    ensures
        carried(response) == Some(true),
{
    Ok(ApiResponse::success(true))
}

} // verus!
