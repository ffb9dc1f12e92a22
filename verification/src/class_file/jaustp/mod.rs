pub mod jaustp_summary;
pub mod parse_method_descriptor;
pub mod print_code;
pub mod signature;

pub use jaustp_summary::jaustp_summary;
pub use jaustp_summary::Options as JavapOptions;
