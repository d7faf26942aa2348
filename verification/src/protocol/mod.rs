pub mod game_data;
pub mod packet;
pub mod reliable_packets;
