//! The colony economy: resources, buildings, contracts, research and trade.

pub mod resources;
pub mod buildings;
pub mod tech;
pub mod transfer;
pub mod contracts;
pub mod trade;
pub mod dyson_swarm;
