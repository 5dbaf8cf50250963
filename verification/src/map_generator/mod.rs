pub mod automata;
pub mod empty;
pub mod life;
pub mod rect;
pub mod spawns;
pub mod drunkard;
pub mod rooms;
