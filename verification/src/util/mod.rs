pub mod buffer;
pub mod bytes;
pub mod hazel;
pub mod inner;
pub mod keys;
pub mod structs;
pub mod text;
pub mod util;
pub mod vector;
