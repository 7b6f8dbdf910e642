pub mod board;
pub mod game;
pub mod random;
pub mod shapes;
