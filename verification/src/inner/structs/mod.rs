pub mod player;
