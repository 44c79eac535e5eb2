//! What the rest of the crate shares: the error type, and helpers for formulas.

pub mod error;
pub mod geometry;
pub mod latex;

use vstd::prelude::*;

verus! {

/// What can go wrong in the application. Each failure carries its message as text;
/// for a failure of the database, of the file system or of JSON handling that is the
/// message of the error that the library in question raised.
#[derive(Debug)]
pub enum AppError {
    Database(String),
    Io(String),
    Json(String),
    Api(String),
    Config(String),
    NotFound(String),
    Unknown(String),
}

/// What the kind of a failure is called in front of its message.
pub open spec fn error_label(err: AppError) -> Seq<char> {
    match err {
        AppError::Database(_) => "数据库错误: "@,
        AppError::Io(_) => "IO错误: "@,
        AppError::Json(_) => "JSON错误: "@,
        AppError::Api(_) => "API错误: "@,
        AppError::Config(_) => "配置错误: "@,
        AppError::NotFound(_) => "未找到: "@,
        AppError::Unknown(_) => "未知错误: "@,
    }
}

/// The message that a failure carries.
pub open spec fn error_detail(err: AppError) -> Seq<char> {
    match err {
        AppError::Database(m) => m@,
        AppError::Io(m) => m@,
        AppError::Json(m) => m@,
        AppError::Api(m) => m@,
        AppError::Config(m) => m@,
        AppError::NotFound(m) => m@,
        AppError::Unknown(m) => m@,
    }
}

impl AppError {
    /// The failure in words: its kind, then its message.
    pub fn message(&self) -> (out: String)
        ensures
            out@ == error_label(*self) + error_detail(*self),
    {
        match self {
            AppError::Database(m) => String::from_str("数据库错误: ").concat(m.as_str()),
            AppError::Io(m) => String::from_str("IO错误: ").concat(m.as_str()),
            AppError::Json(m) => String::from_str("JSON错误: ").concat(m.as_str()),
            AppError::Api(m) => String::from_str("API错误: ").concat(m.as_str()),
            AppError::Config(m) => String::from_str("配置错误: ").concat(m.as_str()),
            AppError::NotFound(m) => String::from_str("未找到: ").concat(m.as_str()),
            AppError::Unknown(m) => String::from_str("未知错误: ").concat(m.as_str()),
        }
    }
}

} // verus!
