//! A flashcard study session: cards, their presentation order, the reveal and
//! scoring state machine, and the widgets that draw the current card.

use vstd::prelude::*;

pub mod game;
pub mod layout;
pub mod toolkit;
pub mod ui;

verus! {

/// A card pinned to one face: the front while the flag is set, the back
/// otherwise. The flag says which face is pinned; it is not the flip state of
/// a session, where a card that has been revealed shows its back.
pub struct Pin<T>(pub T, pub bool);

} // verus!
