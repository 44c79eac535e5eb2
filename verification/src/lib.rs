pub mod clock;
pub mod commands;
pub mod decimal;
pub mod formula;
pub mod ids;
pub mod json;
pub mod markers;
pub mod models;
pub mod parser;
pub mod parser_proofs;
pub mod prompt;
pub mod text;
pub mod text_proofs;
pub mod utils;
pub mod vocabulary;
pub mod written;
