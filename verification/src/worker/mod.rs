pub mod errors;
pub mod session;
