pub mod actor;
pub mod damage;
pub mod item;
pub mod fov;
pub mod stats;
pub mod acting;
pub mod actors;
pub mod events;
pub mod moving;
pub mod quality;
