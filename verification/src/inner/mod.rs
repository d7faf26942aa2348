pub mod data;
pub mod inner;
pub mod objects;
pub mod protocol;
pub mod rooms;
pub mod structs;
