//! Slide decks.

use crate::commands::{carried, ApiResponse};
use crate::ids::new_id;
use crate::utils::AppError;
use vstd::prelude::*;

verus! {

#[derive(Debug)]
pub struct GeneratePptRequest {
    pub title: String,
    pub slides: Vec<SlideRequest>,
    pub template: String,
}

#[derive(Debug)]
pub struct SlideRequest {
    pub slide_type: String,
    pub content: String,
    pub question_data: Option<serde_json::Value>,
}

#[derive(Debug)]
pub struct GeneratePptResponse {
    pub ppt_id: String,
    pub slide_count: i32,
    pub preview_data: Vec<SlidePreview>,
    pub file_path: String,
}

#[derive(Debug)]
pub struct SlidePreview {
    pub slide_number: i32,
    pub title: String,
    pub content_type: String,
    pub thumbnail: Option<String>,
}

/// A count as a 32-bit signed number: the count itself where it fits, else what is
/// left of it when it wraps around.
pub open spec fn wrapped_count(n: nat) -> int {
    let low = n % 0x1_0000_0000;
    if low < 0x8000_0000 {
        low as int
    } else {
        low - 0x1_0000_0000
    }
}

/// Wraps a count into 32 bits.
fn wrap_count(n: usize) -> (out: i32)
    ensures
        out == wrapped_count(n as nat),
{
    let low: u64 = (n as u64) % 0x1_0000_0000;
    if low < 0x8000_0000 {
        low as i32
    } else {
        (low as i64 - 0x1_0000_0000) as i32
    }
}

/// Whether `response` reports the deck that `slides` slides were asked for: it
/// succeeds, counts the slides, previews none and names the file.
pub open spec fn reports_deck(
    response: Result<ApiResponse<GeneratePptResponse>, AppError>,
    slides: nat,
) -> bool {
    &&& carried(response) matches Some(deck)
    &&& deck.slide_count == wrapped_count(slides)
    &&& deck.preview_data@.len() == 0
    &&& deck.file_path@ == "/path/to/generated.pptx"@
}

/// Answers a request for a deck under the identifier `ppt_id`.
pub fn generate_ppt_as(request: GeneratePptRequest, ppt_id: String) -> (response: Result<
    ApiResponse<GeneratePptResponse>,
    AppError,
>)
    ensures
        reports_deck(response, request.slides@.len()),
        carried(response)->Some_0.ppt_id == ppt_id,
{
    let deck = GeneratePptResponse {
        ppt_id,
        slide_count: wrap_count(request.slides.len()),
        preview_data: Vec::new(),
        file_path: String::from_str("/path/to/generated.pptx"),
    };
    Ok(ApiResponse::success(deck))
}

/// Answers a request for a deck under a fresh identifier.
pub fn generate_ppt(request: GeneratePptRequest) -> (response: Result<
    ApiResponse<GeneratePptResponse>,
    AppError,
>)
    ensures
        reports_deck(response, request.slides@.len()),
{
    let ppt_id = new_id();
    generate_ppt_as(request, ppt_id)
}

} // verus!
