//! Failures as they are shown to a user.

use crate::utils::AppError;
use vstd::prelude::*;

verus! {

/// What a user is told of a failure. A failure of the interface, of the
/// configuration or of a lookup is told with its message; the others are told in
/// general words, without it.
pub open spec fn friendly_text(err: AppError) -> Seq<char> {
    match err {
        AppError::Database(_) => "数据库操作失败，请稍后重试"@,
        AppError::Io(_) => "文件操作失败，请检查权限"@,
        AppError::Api(m) => "API调用失败: "@ + m@,
        AppError::Config(m) => "配置错误: "@ + m@,
        AppError::NotFound(m) => "未找到: "@ + m@,
        _ => "操作失败，请稍后重试"@,
    }
}

/// Turns a failure into what a user is told of it.
pub fn format_error(err: AppError) -> (out: String)
    ensures
        out@ == friendly_text(err),
{
    match err {
        AppError::Database(_) => String::from_str("数据库操作失败，请稍后重试"),
        AppError::Io(_) => String::from_str("文件操作失败，请检查权限"),
        AppError::Api(m) => String::from_str("API调用失败: ").concat(m.as_str()),
        AppError::Config(m) => String::from_str("配置错误: ").concat(m.as_str()),
        AppError::NotFound(m) => String::from_str("未找到: ").concat(m.as_str()),
        _ => String::from_str("操作失败，请稍后重试"),
    }
}

} // verus!
