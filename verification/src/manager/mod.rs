pub mod states;
pub mod user;
