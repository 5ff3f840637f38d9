pub mod animation;
pub mod ascii;
pub mod color;
pub mod terminal;
