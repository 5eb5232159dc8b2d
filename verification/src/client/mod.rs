pub mod errors;

pub mod options;
pub mod flow;
