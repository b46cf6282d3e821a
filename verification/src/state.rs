//! The observable record of what is playing: playback state, position,
//! current song and volume. Every setter reports which properties' observers
//! are to be told of a change.

use crate::playback::PlaybackState;
use crate::queue::song_view;
use crate::song::{text_or, text_view, Song, SongView};
use vstd::prelude::*;

verus! {

/// The properties of the player state that observers can follow.
#[derive(Clone, Copy, Debug, PartialEq, Eq, Structural)]
pub enum Property {
    Playing,
    Position,
    Song,
    Title,
    Artist,
    Album,
    Duration,
    Cover,
    Volume,
}

/// What is announced whenever a current song is set: the song, what is
/// derived from it, and the position, in this order.
pub open spec fn song_properties() -> Seq<Property> {
    seq![
        Property::Song,
        Property::Title,
        Property::Artist,
        Property::Album,
        Property::Duration,
        Property::Cover,
        Property::Position,
    ]
}

/// The player state. The volume counts in hundredths of full volume, which
/// is as finely as two volumes are told apart.
#[derive(Debug)]
pub struct PlayerState {
    playback_state: PlaybackState,
    position: u64,
    current_song: Option<Song>,
    volume: u32,
}

pub struct PlayerStateView {
    pub playback_state: PlaybackState,
    pub position: u64,
    pub current_song: Option<SongView>,
    pub volume: u32,
}

impl PlayerStateView {
    /// Without a current song the player is stopped.
    pub open spec fn wf(self) -> bool {
        self.current_song is None ==> self.playback_state == PlaybackState::Stopped
    }

    /// The state a player starts in: stopped at position 0, no song, full
    /// volume.
    pub open spec fn initial() -> PlayerStateView {
        PlayerStateView {
            playback_state: PlaybackState::Stopped,
            position: 0,
            current_song: None,
            volume: 100,
        }
    }

    pub open spec fn playing(self) -> bool {
        self.playback_state == PlaybackState::Playing
    }

    pub open spec fn duration(self) -> u64 {
        match self.current_song {
            Some(song) => song.data.duration,
            None => 0,
        }
    }

    /// The state once `playback_state` has been set.
    pub open spec fn with_playback_state(self, playback_state: PlaybackState) -> PlayerStateView {
        PlayerStateView { playback_state, ..self }
    }

    /// What setting `playback_state` announces: the change, if it is one.
    pub open spec fn playback_state_properties(self, playback_state: PlaybackState) -> Seq<
        Property,
    > {
        if self.playback_state != playback_state {
            seq![Property::Playing]
        } else {
            seq![]
        }
    }

    /// The state once `song` has been made the current song: the position
    /// is back at 0, whatever it was and whatever the song was.
    pub open spec fn with_current_song(self, song: Option<SongView>) -> PlayerStateView {
        PlayerStateView { current_song: song, position: 0, ..self }
    }

    /// The state once `volume` has been set.
    pub open spec fn with_volume(self, volume: u32) -> PlayerStateView {
        PlayerStateView { volume, ..self }
    }

    /// What setting `volume` announces: the change, if it is one.
    pub open spec fn volume_properties(self, volume: u32) -> Seq<Property> {
        if self.volume != volume {
            seq![Property::Volume]
        } else {
            seq![]
        }
    }
}

impl View for PlayerState {
    type V = PlayerStateView;

    closed spec fn view(&self) -> PlayerStateView {
        PlayerStateView {
            playback_state: self.playback_state,
            position: self.position,
            current_song: song_view(self.current_song),
            volume: self.volume,
        }
    }
}

impl Default for PlayerState {
    fn default() -> (res: Self)
        ensures
            res@ == PlayerStateView::initial(),
    {
        PlayerState::new()
    }
}

impl PlayerState {
    pub fn new() -> (res: PlayerState)
        ensures
            res@ == PlayerStateView::initial(),
    {
        PlayerState {
            playback_state: PlaybackState::Stopped,
            position: 0,
            current_song: None,
            volume: 100,
        }
    }

    /// The title of the current song, in the caller's wording where the
    /// song has none.
    pub fn title(&self, unknown: &str) -> (res: Option<String>)
        ensures
            text_view(res) == match self@.current_song {
                Some(song) => Some(text_or(song.data.title, unknown@)),
                None => None,
            },
    {
        match &self.current_song {
            Some(song) => Some(song.title(unknown)),
            None => None,
        }
    }

    pub fn artist(&self, unknown: &str) -> (res: Option<String>)
        ensures
            text_view(res) == match self@.current_song {
                Some(song) => Some(text_or(song.data.artist, unknown@)),
                None => None,
            },
    {
        match &self.current_song {
            Some(song) => Some(song.artist(unknown)),
            None => None,
        }
    }

    pub fn album(&self, unknown: &str) -> (res: Option<String>)
        ensures
            text_view(res) == match self@.current_song {
                Some(song) => Some(text_or(song.data.album, unknown@)),
                None => None,
            },
    {
        match &self.current_song {
            Some(song) => Some(song.album(unknown)),
            None => None,
        }
    }

    /// The length of the current song in seconds, 0 where there is none.
    pub fn duration(&self) -> (res: u64)
        ensures
            res == self@.duration(),
    {
        match &self.current_song {
            Some(song) => song.duration(),
            None => 0,
        }
    }

    /// The identifier of the current song's cover.
    pub fn cover(&self) -> (res: Option<String>)
        ensures
            text_view(res) == match self@.current_song {
                Some(song) => song.data.cover_uuid,
                None => None,
            },
    {
        match &self.current_song {
            Some(song) => song.cover_uuid(),
            None => None,
        }
    }

    pub fn has_current_song(&self) -> (res: bool)
        ensures
            res == (self@.current_song is Some),
    {
        self.current_song.is_some()
    }

    pub fn playing(&self) -> (res: bool)
        ensures
            res == self@.playing(),
    {
        match self.playback_state {
            PlaybackState::Playing => true,
            _ => false,
        }
    }

    pub fn playback_state(&self) -> (res: PlaybackState)
        ensures
            res == self@.playback_state,
    {
        self.playback_state
    }

    /// Sets the playback state. Observers are told only where the state
    /// differs from the one before.
    pub fn set_playback_state(&mut self, playback_state: &PlaybackState) -> (told: Vec<Property>)
        ensures
            final(self)@ == old(self)@.with_playback_state(*playback_state),
            told@ == old(self)@.playback_state_properties(*playback_state),
    {
        let old_state = self.playback_state;
        self.playback_state = *playback_state;
        let mut told: Vec<Property> = Vec::new();
        if old_state != *playback_state {
            told.push(Property::Playing);
        }
        assert(told@ =~= old(self)@.playback_state_properties(*playback_state));
        told
    }

    pub fn current_song(&self) -> (res: Option<Song>)
        ensures
            song_view(res) == self@.current_song,
    {
        match &self.current_song {
            Some(song) => Some(song.clone()),
            None => None,
        }
    }

    /// Makes `song` the current song and puts the position back to 0.
    /// Observers are told every time, also where the song is the one that
    /// was current already.
    pub fn set_current_song(&mut self, song: Option<Song>) -> (told: Vec<Property>)
        ensures
            final(self)@ == old(self)@.with_current_song(song_view(song)),
            final(self)@.position == 0,
            told@ == song_properties(),
    {
        self.current_song = song;
        self.position = 0;
        let mut told: Vec<Property> = Vec::new();
        told.push(Property::Song);
        told.push(Property::Title);
        told.push(Property::Artist);
        told.push(Property::Album);
        told.push(Property::Duration);
        told.push(Property::Cover);
        told.push(Property::Position);
        assert(told@ =~= song_properties());
        told
    }

    pub fn position(&self) -> (res: u64)
        ensures
            res == self@.position,
    {
        self.position
    }

    /// Sets the position. Observers of the position are told every time.
    pub fn set_position(&mut self, position: u64) -> (told: Vec<Property>)
        ensures
            final(self)@ == (PlayerStateView { position, ..old(self)@ }),
            told@ == seq![Property::Position],
    {
        self.position = position;
        let mut told: Vec<Property> = Vec::new();
        told.push(Property::Position);
        assert(told@ =~= seq![Property::Position]);
        told
    }

    pub fn volume(&self) -> (res: u32)
        ensures
            res == self@.volume,
    {
        self.volume
    }

    /// Sets the volume. Observers are told only where the volume differs
    /// from the one before, so that a volume that comes back from the
    /// backend unchanged starts no new round of updates.
    pub fn set_volume(&mut self, volume: u32) -> (told: Vec<Property>)
        ensures
            final(self)@ == old(self)@.with_volume(volume),
            told@ == old(self)@.volume_properties(volume),
    {
        let old_volume = self.volume;
        self.volume = volume;
        let mut told: Vec<Property> = Vec::new();
        if old_volume != volume {
            told.push(Property::Volume);
        }
        assert(told@ =~= old(self)@.volume_properties(volume));
        told
    }
}

/// Setting a current song puts the position at 0 whatever it was before,
/// and setting the same song twice does so twice.
pub proof fn lemma_current_song_resets_position(state: PlayerStateView, song: Option<SongView>)
    ensures
        state.with_current_song(song).position == 0,
        state.with_current_song(song).current_song == song,
        state.with_current_song(song).with_current_song(song) == state.with_current_song(song),
        state.with_current_song(song).playback_state == state.playback_state,
        state.with_current_song(song).volume == state.volume,
{
}

/// Setting the playback state a second time to the same value changes
/// nothing and tells no one.
pub proof fn lemma_playback_state_idempotent(state: PlayerStateView, playback_state: PlaybackState)
    ensures
        state.with_playback_state(playback_state).with_playback_state(playback_state)
            == state.with_playback_state(playback_state),
        state.with_playback_state(playback_state).playback_state_properties(playback_state)
            == Seq::<Property>::empty(),
{
}

} // verus!
