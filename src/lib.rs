pub mod authorization;
pub mod headers;
pub mod text;
pub mod typed;
