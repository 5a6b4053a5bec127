//! A verified engine for the board game Risk: a fixed world map of 42
//! territories grouped into 6 continents, per-region ownership and troop
//! state, dice-resolved combat between adjacent regions, and the
//! continent-bonus reinforcement (draft) calculation.

pub mod battle;
pub mod dice;
pub mod draft;
pub mod map;
pub mod world;

pub use battle::BattleError;
pub use battle::BattleResult;
pub use map::init;
pub use world::Continent;
pub use world::Coord;
pub use world::Game;
pub use world::Region;
pub use world::RegionId;
