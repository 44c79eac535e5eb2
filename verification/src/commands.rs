//! What the application answers to each command of its interface.
//!
//! Every function here is the part of a command that computes: it takes the request,
//! and what the outside world gave, as plain values and returns the response.

pub mod chat;
pub mod export;
pub mod llm;
pub mod ppt;
pub mod question;
pub mod settings;

use crate::utils::AppError;
use vstd::prelude::*;

verus! {

/// The envelope of every response: either the data, or the reason why there is none.
#[derive(Debug)]
pub struct ApiResponse<T> {
    pub success: bool,
    pub data: Option<T>,
    pub error: Option<String>,
}

impl<T> ApiResponse<T> {
    /// A response that carries `data`.
    pub fn success(data: T) -> (response: Self)
        ensures
            response.success,
            response.data == Some(data),
            response.error is None,
    {
        ApiResponse { success: true, data: Some(data), error: None }
    }

    /// A response that carries the reason `msg` and no data.
    pub fn error(msg: String) -> (response: Self)
        ensures
            !response.success,
            response.data is None,
            response.error == Some(msg),
    {
        ApiResponse { success: false, data: None, error: Some(msg) }
    }
}

/// What a response carries, where it is one that succeeded: its data.
pub open spec fn carried<T>(response: Result<ApiResponse<T>, AppError>) -> Option<T> {
    match response {
        Ok(envelope) => if envelope.success && envelope.error is None {
            envelope.data
        } else {
            None
        },
        Err(_) => None,
    }
}

} // verus!
