pub mod config;
pub mod json;
pub mod llm;
pub mod persona;
pub mod session;
pub mod stable_order;
pub mod text;
pub mod tools;
