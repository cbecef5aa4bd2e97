//! Sunscatter: the rules of the colony economy, the tech tree, contracts,
//! trade fleets and the vessel editor's staging, with their contracts proved.

pub mod text;
pub mod parts;
pub mod colony;
pub mod editor;
