pub mod catalog;
pub mod counts;
pub mod parser;
pub mod render;
pub mod report;
pub mod session;
