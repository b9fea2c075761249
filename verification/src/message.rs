//! What the parts of the game tell each other.

use vstd::prelude::*;
use crate::handle::ActorHandle;
use crate::handle::ItemHandle;
use crate::options::MatchOptions;
use crate::scalar::Scalar;

verus! {

/// A request queued for the main loop, which serves requests in the order in
/// which they were queued.
#[derive(Copy, Clone, Debug, PartialEq, Eq, Structural)]
pub enum Message {
    /// The actor stands close enough to the item to take it.
    PickUpItem { actor: ActorHandle, item: ItemHandle },
    /// The actor is gone for good and wants a new life.
    RespawnActor { actor: ActorHandle },
    StartNewGame { options: MatchOptions },
    SaveGame,
    LoadGame,
    QuitGame,
    EndMatch,
    SetMusicVolume { volume: Scalar },
}

} // verus!
