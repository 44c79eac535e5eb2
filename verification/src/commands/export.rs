//! Exports to document files.

use crate::commands::{carried, ApiResponse};
use crate::utils::AppError;
use vstd::prelude::*;

verus! {

#[derive(Debug)]
pub struct ExportToDocxRequest {
    pub content: String,
    pub title: String,
    pub file_name: String,
    pub include_answers: bool,
    pub include_explanations: bool,
}

#[derive(Debug)]
pub struct ExportResponse {
    pub file_path: String,
    pub file_size: i64,
    pub success: bool,
}

#[derive(Debug)]
pub struct ExportToPptxRequest {
    pub slides: Vec<serde_json::Value>,
    pub file_name: String,
    pub template: String,
}

/// Where an export under the name `file_name` is put.
pub open spec fn export_path(file_name: Seq<char>) -> Seq<char> {
    "/exports/"@ + file_name
}

/// Whether `response` reports an export under `file_name`: it succeeds and names the
/// path of the file, of which nothing has been written yet.
pub open spec fn reports_export(
    response: Result<ApiResponse<ExportResponse>, AppError>,
    file_name: Seq<char>,
) -> bool {
    &&& carried(response) matches Some(export)
    &&& export.file_path@ == export_path(file_name)
    &&& export.file_size == 0
    &&& export.success
}

/// Reports the export under `file_name`.
fn report_export(file_name: &String) -> (response: Result<ApiResponse<ExportResponse>, AppError>)
    ensures
        reports_export(response, file_name@),
{
    let export = ExportResponse {
        file_path: String::from_str("/exports/").concat(file_name.as_str()),
        file_size: 0,
        success: true,
    };
    Ok(ApiResponse::success(export))
}

/// Answers a request for a Word document.
pub fn export_to_docx(request: ExportToDocxRequest) -> (response: Result<
    ApiResponse<ExportResponse>,
    AppError,
>)
    ensures
        reports_export(response, request.file_name@),
{
    report_export(&request.file_name)
}

/// Answers a request for a slide deck.
pub fn export_to_pptx(request: ExportToPptxRequest) -> (response: Result<
    ApiResponse<ExportResponse>,
    AppError,
>)
    ensures
        reports_export(response, request.file_name@),
{
    report_export(&request.file_name)
}

} // verus!
