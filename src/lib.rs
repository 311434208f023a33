pub mod command;
pub mod pipeline;
pub mod request;
