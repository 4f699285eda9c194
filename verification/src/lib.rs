pub mod seek_index;
pub mod player;
pub mod music;
