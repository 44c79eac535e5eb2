//! The settings of the application.

use crate::commands::{carried, ApiResponse};
use crate::utils::AppError;
use vstd::prelude::*;

verus! {

#[derive(Debug)]
pub struct Settings {
    pub api_key: Option<String>,
    pub api_base: Option<String>,
    pub model: String,
    pub theme: String,
    pub language: String,
    pub auto_save: bool,
    pub subject: String,
    pub grade: String,
}

#[derive(Debug)]
pub struct UpdateSettingsRequest {
    pub api_key: Option<String>,
    pub api_base: Option<String>,
    pub model: Option<String>,
    pub theme: Option<String>,
    pub auto_save: Option<bool>,
}

/// Whether `settings` are the settings that the application starts with.
pub open spec fn is_initial(settings: Settings) -> bool {
    &&& settings.api_key is None
    &&& settings.api_base matches Some(base)
    &&& base@ == "https://api.openai.com/v1"@
    &&& settings.model@ == "gpt-4"@
    &&& settings.theme@ == "light"@
    &&& settings.language@ == "zh-CN"@
    &&& settings.auto_save
    &&& settings.subject@ == "数学"@
    &&& settings.grade@ == "高中"@
}

/// Answers with the settings that the application starts with.
pub fn get_settings() -> (response: Result<ApiResponse<Settings>, AppError>)
    ensures
        carried(response) matches Some(settings) && is_initial(settings),
{
    let settings = Settings {
        api_key: None,
        api_base: Some(String::from_str("https://api.openai.com/v1")),
        model: String::from_str("gpt-4"),
        theme: String::from_str("light"),
        language: String::from_str("zh-CN"),
        auto_save: true,
        subject: String::from_str("数学"),
        grade: String::from_str("高中"),
    };
    Ok(ApiResponse::success(settings))
}

/// Confirms a change of settings.
pub fn update_settings(request: UpdateSettingsRequest) -> (response: Result<
    ApiResponse<bool>,
    AppError,
>)
    ensures
        carried(response) == Some(true),
{
    Ok(ApiResponse::success(true))
}

} // verus!
