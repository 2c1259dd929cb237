pub mod bulk_operations;
pub mod error;
pub mod json;
pub mod jsonl;
pub mod text;
