//! What the remote-control bridge shows of the player, and what it asks of
//! the player in return.

use crate::playback::{PlaybackAction, PlaybackState, RepeatMode};
use crate::song::{text_or, text_view, Song, SongView};
use vstd::prelude::*;

verus! {

/// The playback status as remote controls know it.
#[derive(Clone, Copy, Debug, PartialEq, Eq, Structural)]
pub enum PlaybackStatus {
    Playing,
    Paused,
    Stopped,
}

/// The loop status as remote controls know it.
#[derive(Clone, Copy, Debug, PartialEq, Eq, Structural)]
pub enum LoopStatus {
    Off,
    Track,
    Playlist,
}

pub open spec fn spec_playback_status(state: PlaybackState) -> PlaybackStatus {
    match state {
        PlaybackState::Playing => PlaybackStatus::Playing,
        PlaybackState::Paused => PlaybackStatus::Paused,
        PlaybackState::Stopped => PlaybackStatus::Stopped,
    }
}

/// The status shown for a playback state.
pub fn playback_status(state: &PlaybackState) -> (res: PlaybackStatus)
    ensures
        res == spec_playback_status(*state),
{
    match state {
        PlaybackState::Playing => PlaybackStatus::Playing,
        PlaybackState::Paused => PlaybackStatus::Paused,
        PlaybackState::Stopped => PlaybackStatus::Stopped,
    }
}

pub open spec fn spec_loop_status(repeat: RepeatMode) -> LoopStatus {
    match repeat {
        RepeatMode::Consecutive => LoopStatus::Off,
        RepeatMode::RepeatOne => LoopStatus::Track,
        RepeatMode::RepeatAll => LoopStatus::Playlist,
    }
}

/// The loop status shown for a repeat mode.
pub fn loop_status(repeat: RepeatMode) -> (res: LoopStatus)
    ensures
        res == spec_loop_status(repeat),
{
    match repeat {
        RepeatMode::Consecutive => LoopStatus::Off,
        RepeatMode::RepeatOne => LoopStatus::Track,
        RepeatMode::RepeatAll => LoopStatus::Playlist,
    }
}

pub open spec fn spec_repeat_mode(status: LoopStatus) -> RepeatMode {
    match status {
        LoopStatus::Off => RepeatMode::Consecutive,
        LoopStatus::Track => RepeatMode::RepeatOne,
        LoopStatus::Playlist => RepeatMode::RepeatAll,
    }
}

/// The repeat mode that a remote control asks for with a loop status.
pub fn repeat_mode(status: LoopStatus) -> (res: RepeatMode)
    ensures
        res == spec_repeat_mode(status),
{
    match status {
        LoopStatus::Off => RepeatMode::Consecutive,
        LoopStatus::Track => RepeatMode::RepeatOne,
        LoopStatus::Playlist => RepeatMode::RepeatAll,
    }
}

/// A repeat mode shown as a loop status and asked for again is the same
/// mode, and the other way round.
pub proof fn lemma_loop_status_round_trip(repeat: RepeatMode, status: LoopStatus)
    ensures
        spec_repeat_mode(spec_loop_status(repeat)) == repeat,
        spec_loop_status(spec_repeat_mode(status)) == status,
{
}

/// What a remote control asks for when it can do nothing but toggle: to
/// play where the bridge shows a pause, to stop where it shows a stop, and
/// to pause otherwise.
pub open spec fn spec_play_pause(shown: PlaybackStatus) -> PlaybackAction {
    match shown {
        PlaybackStatus::Paused => PlaybackAction::Play,
        PlaybackStatus::Stopped => PlaybackAction::Stop,
        PlaybackStatus::Playing => PlaybackAction::Pause,
    }
}

pub fn play_pause(shown: PlaybackStatus) -> (res: PlaybackAction)
    ensures
        res == spec_play_pause(shown),
{
    match shown {
        PlaybackStatus::Paused => PlaybackAction::Play,
        PlaybackStatus::Stopped => PlaybackAction::Stop,
        PlaybackStatus::Playing => PlaybackAction::Pause,
    }
}

/// What a remote control asks for by each of its requests.
#[derive(Clone, Copy, Debug, PartialEq, Eq, Structural)]
pub enum Request {
    PlayPause(PlaybackStatus),
    Play,
    Stop,
    Pause,
    Previous,
    Next,
    Raise,
    SetLoopStatus(LoopStatus),
    Seek(i64),
}

pub open spec fn spec_action_for(request: Request) -> PlaybackAction {
    match request {
        Request::PlayPause(shown) => spec_play_pause(shown),
        Request::Play => PlaybackAction::Play,
        Request::Stop => PlaybackAction::Stop,
        Request::Pause => PlaybackAction::Pause,
        Request::Previous => PlaybackAction::SkipPrevious,
        Request::Next => PlaybackAction::SkipNext,
        Request::Raise => PlaybackAction::Raise,
        Request::SetLoopStatus(status) => PlaybackAction::Repeat(spec_repeat_mode(status)),
        Request::Seek(offset) => PlaybackAction::Seek(offset),
    }
}

/// The message that is sent to the player for a request of a remote
/// control. A seek is an offset in seconds.
pub fn action_for(request: Request) -> (res: PlaybackAction)
    ensures
        res == spec_action_for(request),
{
    match request {
        Request::PlayPause(shown) => play_pause(shown),
        Request::Play => PlaybackAction::Play,
        Request::Stop => PlaybackAction::Stop,
        Request::Pause => PlaybackAction::Pause,
        Request::Previous => PlaybackAction::SkipPrevious,
        Request::Next => PlaybackAction::SkipNext,
        Request::Raise => PlaybackAction::Raise,
        Request::SetLoopStatus(status) => PlaybackAction::Repeat(repeat_mode(status)),
        Request::Seek(offset) => PlaybackAction::Seek(offset),
    }
}

/// What the bridge shows of a song. The length counts in seconds.
#[derive(Debug)]
pub struct Metadata {
    pub artist: Vec<String>,
    pub title: String,
    pub album: String,
    pub length: i64,
    pub art_url: Option<String>,
}

pub struct MetadataView {
    pub artist: Seq<Seq<char>>,
    pub title: Seq<char>,
    pub album: Seq<char>,
    pub length: i64,
    pub art_url: Option<Seq<char>>,
}

impl View for Metadata {
    type V = MetadataView;

    open spec fn view(&self) -> MetadataView {
        MetadataView {
            artist: self.artist@.map_values(|a: String| a@),
            title: self.title@,
            album: self.album@,
            length: self.length,
            art_url: text_view(self.art_url),
        }
    }
}

/// What is shown of `song`: its one artist, its title, its album, each in
/// the given wording where the song does not have it, its length, and the
/// location of its cover.
pub open spec fn spec_metadata(
    song: SongView,
    unknown_artist: Seq<char>,
    unknown_album: Seq<char>,
    unknown_title: Seq<char>,
    art_url: Option<Seq<char>>,
) -> MetadataView {
    MetadataView {
        artist: seq![text_or(song.data.artist, unknown_artist)],
        title: text_or(song.data.title, unknown_title),
        album: text_or(song.data.album, unknown_album),
        length: song.data.duration as i64,
        art_url,
    }
}

/// Puts together what the bridge shows of a song. `art_url` is the
/// location of the cached cover, where that is a file that exists.
pub fn metadata(
    song: &Song,
    unknown_artist: &str,
    unknown_album: &str,
    unknown_title: &str,
    art_url: Option<String>,
) -> (res: Metadata)
    ensures
        res@ == spec_metadata(
            song@,
            unknown_artist@,
            unknown_album@,
            unknown_title@,
            text_view(art_url),
        ),
{
    let mut artist: Vec<String> = Vec::new();
    artist.push(song.artist(unknown_artist));
    let res = Metadata {
        artist,
        title: song.title(unknown_title),
        album: song.album(unknown_album),
        length: #[verifier::truncate]
        (song.duration() as i64),
        art_url,
    };
    assert(res@.artist =~= seq![text_or(song@.data.artist, unknown_artist@)]);
    res
}

/// The position that the bridge shows, in seconds.
pub fn position_time(position: u64) -> (res: i64)
    ensures
        res == position as i64,
{
    #[verifier::truncate]
    (position as i64)
}

} // verus!
