//! The user of the application.

use vstd::prelude::*;

verus! {

#[derive(Debug, Clone)]
pub struct UserProfile {
    pub id: String,
    pub name: Option<String>,
    pub subject: Subject,
    pub grade: Grade,
    pub created_at: String,
}

#[derive(Debug, Clone, Copy)]
pub enum Subject {
    Math,
    Physics,
    Chemistry,
    Biology,
    Chinese,
    English,
    History,
    Geography,
    Politics,
    Other,
}

#[derive(Debug, Clone, Copy)]
pub enum Grade {
    Elementary,
    Middle,
    High,
}

} // verus!
