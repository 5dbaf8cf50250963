pub mod action_cost;
pub mod action_points;
pub mod attributes;
pub mod block;
pub mod damage;
pub mod events;
pub mod evasion;
pub mod formula;
pub mod hit_points;
pub mod protection;
pub mod rate;
pub mod resistance;
pub mod stats_computed;
pub mod systems;
pub mod bundles;
