//! Actions the editor UI hands back to the game.

use vstd::prelude::*;

verus! {

/// Editor UI action that should be handled by the game.
#[derive(Debug, Clone)]
pub enum EditorAction {
    /// Nothing to do.
    NoAction,
    Launch,
    SaveBlueprint(String),
    LoadBlueprint(String),
    DeleteBlueprint(String),
    NewVessel,
    ExitToFlight,
}

} // verus!
