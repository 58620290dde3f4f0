//! Core logic of a three-reel fruit slot game.
//!
//! Three vertical lanes of fruit icons scroll downward in a closed loop.
//! The player stops each lane independently; when a lane stops, the fruit
//! nearest the center line is recorded and the lane is snapped so that
//! fruit sits exactly centered. When all three recorded fruits are equal,
//! a win cue fires; otherwise a miss cue. A restart sets all lanes moving
//! again and clears the records.
//!
//! Rendering, input and audio playback live outside this crate; it holds
//! the state machine, the scroll arithmetic and the match rule, each with
//! a proved contract.

pub mod kind;
pub mod layout;
pub mod scroll;
pub mod state;

pub use kind::ItemKind;
pub use state::Audio;
pub use state::ItemEq;
pub use state::ItemMoveFlag;
