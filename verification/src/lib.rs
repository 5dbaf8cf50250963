pub mod geometry;
pub mod inventory;
pub mod inventory_ui;
pub mod map;
pub mod map_generator;
pub mod rng;
pub mod combat;
pub mod plugin;
