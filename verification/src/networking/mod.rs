pub mod buffer;
pub mod hazel_message;
