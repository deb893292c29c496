pub mod chat_loop;
pub mod client;
pub mod process;
pub mod sentiment;
