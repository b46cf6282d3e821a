//! The playback core of a music player: songs and their identity, the play
//! queue with its repeat and shuffle rules, the observable player state, and
//! the coordinator that turns requests into an ordered stream of effects for
//! the media backend, the controllers and the interface.

pub mod backend;
pub mod controller;
pub mod cover_cache;
pub mod digest;
pub mod effect;
pub mod inhibit_controller;
pub mod mpris_controller;
pub mod playback;
pub mod player;
pub mod playlist;
pub mod queue;
pub mod search;
pub mod shuffle;
pub mod song;
pub mod sort;
pub mod state;
pub mod utils;
pub mod window;
