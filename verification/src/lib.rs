pub mod cli;
pub mod llm;
pub mod text;
