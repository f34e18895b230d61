pub mod fetch;
pub mod outcome;
pub mod panel;
pub mod workflows;
pub mod yaml;
