//! Questions and sets of questions as they are kept.

use vstd::prelude::*;

verus! {

#[derive(Debug, Clone)]
pub struct Question {
    pub id: String,
    pub content: String,
    pub answer: String,
    pub explanation: String,
    pub difficulty: Difficulty,
    pub question_type: QuestionType,
    pub knowledge_points: Vec<String>,
    pub has_graph: bool,
    pub graph_data: Option<String>,
    pub latex_formulas: Vec<String>,
}

#[derive(Debug, Clone, Copy)]
pub enum Difficulty {
    Basic,
    Medium,
    Hard,
    VeryHard,
}

#[derive(Debug, Clone, Copy)]
pub enum QuestionType {
    SingleChoice,
    MultipleChoice,
    FillBlank,
    Essay,
}

#[derive(Debug, Clone)]
pub struct QuestionSet {
    pub id: String,
    pub title: String,
    pub questions: Vec<Question>,
    pub topic: String,
    pub created_at: String,
}

} // verus!
