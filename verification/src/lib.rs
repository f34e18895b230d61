pub mod checks;
pub mod config;
pub mod invocation;
pub mod support;
pub mod text;
