//! Rhythm-locked attack scheduling on a pair of concentric rings.
//!
//! A player token sits at a position made of two ring coordinates. Attacks are
//! boolean patterns over that grid; each is warned first and struck
//! afterwards, one command per beat. The game is advanced frame by frame from
//! the key presses and one reading of an outside clock, and answers with its
//! new state and a list of cues for sound and picture.

pub mod audio;
pub mod chance;
pub mod command;
pub mod game;
pub mod level;
pub mod playfield;
pub mod queue;
pub mod state;
pub mod step;
