pub mod game_data;
