//! The effects that the player asks its surroundings to carry out, in
//! order: telling the observers of the player state, calling the
//! controllers, commanding the media backend.

use crate::backend::{BackendCommand, BackendCommandView};
use crate::playback::{PlaybackState, RepeatMode};
use crate::song::{Song, SongView};
use crate::state::Property;
use vstd::prelude::*;

verus! {

/// One thing to do. `Notify` is for those who observe the player state.
/// `SetPlaybackState`, `SetSong`, `SetPosition` and `SetRepeatMode` are the
/// four calls that every controller takes; each is made on every controller,
/// in the order in which the controllers were registered. `Backend` is for
/// the media backend. `Present` asks the application to show itself, and
/// `ClearCoverCache` to forget the covers it keeps.
#[derive(Debug)]
pub enum Effect {
    Notify(Property),
    SetPlaybackState(PlaybackState),
    SetSong(Song),
    SetPosition(u64, bool),
    SetRepeatMode(RepeatMode),
    Backend(BackendCommand),
    Present,
    ClearCoverCache,
}

pub enum EffectView {
    Notify(Property),
    SetPlaybackState(PlaybackState),
    SetSong(SongView),
    SetPosition(u64, bool),
    SetRepeatMode(RepeatMode),
    Backend(BackendCommandView),
    Present,
    ClearCoverCache,
}

impl View for Effect {
    type V = EffectView;

    open spec fn view(&self) -> EffectView {
        match *self {
            Effect::Notify(property) => EffectView::Notify(property),
            Effect::SetPlaybackState(state) => EffectView::SetPlaybackState(state),
            Effect::SetSong(song) => EffectView::SetSong(song@),
            Effect::SetPosition(position, notify) => EffectView::SetPosition(position, notify),
            Effect::SetRepeatMode(mode) => EffectView::SetRepeatMode(mode),
            Effect::Backend(command) => EffectView::Backend(command@),
            Effect::Present => EffectView::Present,
            Effect::ClearCoverCache => EffectView::ClearCoverCache,
        }
    }
}

/// The views of a list of effects.
pub open spec fn effects_view(effects: Seq<Effect>) -> Seq<EffectView> {
    effects.map_values(|e: Effect| e@)
}

/// The effects that tell the observers of each of `properties`.
pub open spec fn notify(properties: Seq<Property>) -> Seq<EffectView> {
    properties.map_values(|p: Property| EffectView::Notify(p))
}

/// Appends one effect.
pub fn emit(effects: &mut Vec<Effect>, effect: Effect)
    ensures
        effects_view(final(effects)@) == effects_view(old(effects)@).push(effect@),
{
    effects.push(effect);
    assert(effects_view(effects@) =~= effects_view(old(effects)@).push(effect@));
}

/// Appends the effects that tell the observers of each of `told`.
pub fn emit_notifications(effects: &mut Vec<Effect>, told: &Vec<Property>)
    ensures
        effects_view(final(effects)@) == effects_view(old(effects)@) + notify(told@),
{
    let mut i: usize = 0;
    while i < told.len()
        invariant
            i <= told.len(),
            effects_view(effects@) == effects_view(old(effects)@) + notify(told@.take(i as int)),
        decreases told.len() - i,
    {
        let ghost before = effects_view(effects@);
        emit(effects, Effect::Notify(told[i]));
        assert(notify(told@.take(i + 1)) =~= notify(told@.take(i as int)).push(
            EffectView::Notify(told@[i as int]),
        ));
        assert(effects_view(effects@) =~= effects_view(old(effects)@) + notify(told@.take(i + 1)));
        i += 1;
    }
    assert(told@.take(i as int) =~= told@);
}

} // verus!
