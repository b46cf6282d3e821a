//! What the player asks of the media backend, and where a relative seek
//! lands.

use crate::playback::{PlaybackState, ReplayGainMode, SeekDirection};
use crate::song::text_view;
use vstd::prelude::*;

verus! {

/// A command for the media backend. Positions count in seconds, the volume
/// in hundredths of full volume.
#[derive(Debug)]
pub enum BackendCommand {
    SetUri(Option<String>),
    Play,
    Pause,
    Stop,
    Seek(u64),
    SetVolume(u32),
    SetReplayGain(ReplayGainMode),
}

pub enum BackendCommandView {
    SetUri(Option<Seq<char>>),
    Play,
    Pause,
    Stop,
    Seek(u64),
    SetVolume(u32),
    SetReplayGain(ReplayGainMode),
}

impl View for BackendCommand {
    type V = BackendCommandView;

    open spec fn view(&self) -> BackendCommandView {
        match *self {
            BackendCommand::SetUri(uri) => BackendCommandView::SetUri(text_view(uri)),
            BackendCommand::Play => BackendCommandView::Play,
            BackendCommand::Pause => BackendCommandView::Pause,
            BackendCommand::Stop => BackendCommandView::Stop,
            BackendCommand::Seek(position) => BackendCommandView::Seek(position),
            BackendCommand::SetVolume(volume) => BackendCommandView::SetVolume(volume),
            BackendCommand::SetReplayGain(mode) => BackendCommandView::SetReplayGain(mode),
        }
    }
}

/// The command that brings the backend into a playback state.
pub open spec fn spec_command_for(state: PlaybackState) -> BackendCommandView {
    match state {
        PlaybackState::Playing => BackendCommandView::Play,
        PlaybackState::Paused => BackendCommandView::Pause,
        PlaybackState::Stopped => BackendCommandView::Stop,
    }
}

pub fn command_for(state: PlaybackState) -> (res: BackendCommand)
    ensures
        res@ == spec_command_for(state),
{
    match state {
        PlaybackState::Playing => BackendCommand::Play,
        PlaybackState::Paused => BackendCommand::Pause,
        PlaybackState::Stopped => BackendCommand::Stop,
    }
}

/// Where a seek by `offset` seconds from `position` lands in a song of
/// `duration` seconds. Backwards it stops at the start. Forwards it stops at
/// the end; in a song whose length is not known (0) there is no seeking
/// forwards.
pub open spec fn spec_seek_destination(
    position: u64,
    duration: u64,
    offset: u64,
    direction: SeekDirection,
) -> Option<u64> {
    match direction {
        SeekDirection::Backwards => if position >= offset {
            Some((position - offset) as u64)
        } else {
            Some(0u64)
        },
        SeekDirection::Forward => if duration == 0 {
            None
        } else if position + offset <= duration {
            Some((position + offset) as u64)
        } else {
            Some(duration)
        },
    }
}

pub fn seek_destination(position: u64, duration: u64, offset: u64, direction: SeekDirection) -> (res:
    Option<u64>)
    ensures
        res == spec_seek_destination(position, duration, offset, direction),
{
    match direction {
        SeekDirection::Backwards => if position >= offset {
            Some(position - offset)
        } else {
            Some(0)
        },
        SeekDirection::Forward => if duration == 0 {
            None
        } else if position <= duration && offset <= duration - position {
            Some(position + offset)
        } else {
            Some(duration)
        },
    }
}

/// What the backend puts into its pipeline for a loudness normalisation:
/// whether the normalising filter is used at all, and whether it goes by
/// the album rather than by the track.
pub open spec fn spec_replaygain_filter(mode: ReplayGainMode) -> (bool, bool) {
    match mode {
        ReplayGainMode::Album => (true, true),
        ReplayGainMode::Track => (true, false),
        ReplayGainMode::Off => (false, true),
    }
}

pub fn replaygain_filter(mode: ReplayGainMode) -> (res: (bool, bool))
    ensures
        res == spec_replaygain_filter(mode),
{
    match mode {
        ReplayGainMode::Album => (true, true),
        ReplayGainMode::Track => (true, false),
        ReplayGainMode::Off => (false, true),
    }
}

/// Where an absolute seek lands: at the position asked for, or at the end
/// of the song where that lies beyond it.
pub open spec fn spec_clamp_position(position: u64, duration: u64) -> u64 {
    if position <= duration {
        position
    } else {
        duration
    }
}

pub fn clamp_position(position: u64, duration: u64) -> (res: u64)
    ensures
        res == spec_clamp_position(position, duration),
{
    if position <= duration {
        position
    } else {
        duration
    }
}

/// A seek never leaves the song: backwards it lands between the start and
/// where it began, forwards between where it began and the end, provided it
/// began inside the song.
pub proof fn lemma_seek_stays_inside(
    position: u64,
    duration: u64,
    offset: u64,
    direction: SeekDirection,
)
    ensures
        match spec_seek_destination(position, duration, offset, direction) {
            Some(to) => match direction {
                SeekDirection::Backwards => 0 <= to <= position,
                SeekDirection::Forward => to <= duration && (position <= duration ==> position
                    <= to),
            },
            None => direction == SeekDirection::Forward && duration == 0,
        },
{
}

} // verus!
