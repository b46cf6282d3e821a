//! The observers that follow the player: a remote-control bridge, a guard
//! against suspending, a waveform generator. Each takes the same four
//! calls.

use crate::effect::{Effect, EffectView};
use crate::playback::{PlaybackState, RepeatMode};
use crate::song::Song;
use vstd::prelude::*;

verus! {

/// What a controller is told. A controller may be told the same thing
/// twice, and has to return at once. `notify` tells a position that comes
/// from a seek from one that comes from the progress of playback.
pub trait Controller {
    fn set_playback_state(&self, state: &PlaybackState);

    fn set_song(&self, song: &Song);

    fn set_position(&self, position: u64, notify: bool);

    fn set_repeat_mode(&self, repeat: RepeatMode);
}

/// Whether an effect is a call on the controllers.
pub open spec fn is_controller_call(effect: EffectView) -> bool {
    effect is SetPlaybackState || effect is SetSong || effect is SetPosition
        || effect is SetRepeatMode
}

/// Makes on `controller` the call that `effect` stands for, if it stands
/// for one. Returns whether it did.
pub fn deliver<C: Controller + ?Sized>(controller: &C, effect: &Effect) -> (delivered: bool)
    ensures
        delivered == is_controller_call(effect@),
{
    match effect {
        Effect::SetPlaybackState(state) => {
            controller.set_playback_state(state);
            true
        },
        Effect::SetSong(song) => {
            controller.set_song(song);
            true
        },
        Effect::SetPosition(position, notify) => {
            controller.set_position(*position, *notify);
            true
        },
        Effect::SetRepeatMode(repeat) => {
            controller.set_repeat_mode(*repeat);
            true
        },
        _ => false,
    }
}

} // verus!
