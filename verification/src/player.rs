//! The coordinator: the one writer of the queue and of the player state.
//! Every request is answered with the effects that carry it out, in the
//! order in which they are to happen.

use crate::backend::{
    clamp_position, command_for, seek_destination, spec_clamp_position, spec_command_for,
    spec_seek_destination, BackendCommand, BackendCommandView,
};
use crate::effect::{effects_view, emit, emit_notifications, notify, Effect, EffectView};
use crate::playback::{PlaybackAction, PlaybackState, RepeatMode, ReplayGainMode, SeekDirection};
use crate::queue::{songs_view, with_playing, with_selected, Queue, QueueView};
use crate::song::{is_invalid, same_song, Song, SongView};
use crate::state::{song_properties, PlayerState, PlayerStateView, Property};
use vstd::prelude::*;

verus! {

/// What the player holds: the queue and the player state.
pub struct PlayerView {
    pub queue: QueueView,
    pub state: PlayerStateView,
}

/// The outcome of a request: the player afterwards, and the effects that
/// the request calls for.
pub struct Step {
    pub player: PlayerView,
    pub effects: Seq<EffectView>,
}

impl PlayerView {
    /// No two songs of the queue are the same song.
    pub open spec fn distinct(self) -> bool {
        forall|i: int, j: int|
            0 <= i < j < self.queue.songs.len() ==> !same_song(
                (#[trigger] self.queue.songs[i]).data,
                (#[trigger] self.queue.songs[j]).data,
            )
    }

    /// The queue and the state are each in order and agree with each other:
    /// the song that the state calls current is the one that the queue
    /// points at, and it is the one song of the queue that is marked as
    /// playing.
    pub open spec fn wf(self) -> bool {
        &&& self.queue.wf()
        &&& self.state.wf()
        &&& self.distinct()
        &&& match self.state.current_song {
            Some(song) => self.queue.current is Some && self.queue.current_song()->0.data
                == song.data,
            None => self.queue.current is None,
        }
        &&& forall|j: int|
            0 <= j < self.queue.songs.len() ==> ((#[trigger] self.queue.songs[j]).playing <==> (
            self.queue.current is Some && self.queue.place(self.queue.current->0) == j))
    }

    /// A player with an empty queue and nothing playing.
    pub open spec fn initial() -> PlayerView {
        PlayerView {
            queue: QueueView {
                songs: Seq::empty(),
                shuffle: None,
                repeat_mode: RepeatMode::Consecutive,
                current: None,
            },
            state: PlayerStateView::initial(),
        }
    }

    /// A request that changes nothing and calls for nothing.
    pub open spec fn idle(self) -> Step {
        Step { player: self, effects: Seq::empty() }
    }

    /// Taking on a playback state while a song is current: the state is
    /// recorded, then every controller is told, and only then is the
    /// backend commanded.
    pub open spec fn announce(self, state: PlaybackState) -> Step {
        Step {
            player: PlayerView { state: self.state.with_playback_state(state), ..self },
            effects: notify(self.state.playback_state_properties(state)) + seq![
                EffectView::SetPlaybackState(state),
                EffectView::Backend(spec_command_for(state)),
            ],
        }
    }

    /// The player with the queue pointing at `current`.
    pub open spec fn pointed_at(self, current: Option<u32>) -> PlayerView {
        PlayerView { queue: QueueView { current, ..self.queue }, ..self }
    }

    /// The player with the playing mark of the queue's current song set as
    /// given.
    pub open spec fn marked(self, playing: bool) -> PlayerView {
        match self.queue.current {
            Some(c) => PlayerView {
                queue: QueueView {
                    songs: self.queue.songs.update(
                        self.queue.place(c),
                        with_playing(self.queue.songs[self.queue.place(c)], playing),
                    ),
                    ..self.queue
                },
                ..self
            },
            None => self,
        }
    }

    /// The player once the song that the queue points at has been marked as
    /// playing and made the current song of the state.
    pub open spec fn adopted(self) -> PlayerView {
        let marked = self.marked(true);
        PlayerView {
            state: marked.state.with_current_song(marked.queue.current_song()),
            ..marked
        }
    }

    /// The player at the end of playback: no song is current and the state
    /// is stopped.
    pub open spec fn ended(self) -> PlayerView {
        PlayerView {
            queue: QueueView { current: None, ..self.queue },
            state: self.state.with_current_song(None).with_playback_state(PlaybackState::Stopped),
        }
    }

    /// A request for a playback state. With a current song the state is
    /// taken on. Without one the next song of the queue is fetched first:
    /// the controllers learn of the song, the backend is pointed at it, it
    /// becomes the current song, and then the state is taken on. Where the
    /// queue has no song to give, the backend's location is cleared and the
    /// player is stopped.
    pub open spec fn set_playback_state(self, state: PlaybackState) -> Step {
        if self.state.current_song is Some {
            self.announce(state)
        } else {
            match self.queue.next_index() {
                Some(i) => {
                    let pointed = self.pointed_at(Some(i));
                    let song = pointed.queue.current_song()->0;
                    let last = pointed.adopted().announce(state);
                    Step {
                        player: last.player,
                        effects: seq![
                            EffectView::SetSong(song),
                            EffectView::Backend(BackendCommandView::SetUri(Some(song.data.uri))),
                        ] + notify(song_properties()) + last.effects,
                    }
                },
                None => Step {
                    player: self.ended(),
                    effects: seq![EffectView::Backend(BackendCommandView::SetUri(None))] + notify(
                        song_properties(),
                    ) + notify(self.state.playback_state_properties(PlaybackState::Stopped))
                        + seq![EffectView::SetPlaybackState(PlaybackState::Stopped)],
                },
            }
        }
    }

    /// The play button: a pause while playing, a start otherwise; nothing
    /// on an empty queue.
    pub open spec fn toggle_play(self) -> Step {
        if self.queue.songs.len() == 0 {
            self.idle()
        } else if self.state.playing() {
            self.set_playback_state(PlaybackState::Paused)
        } else {
            self.set_playback_state(PlaybackState::Playing)
        }
    }

    pub open spec fn play(self) -> Step {
        if self.state.playing() {
            self.idle()
        } else {
            self.set_playback_state(PlaybackState::Playing)
        }
    }

    pub open spec fn pause(self) -> Step {
        if self.state.playing() {
            self.set_playback_state(PlaybackState::Paused)
        } else {
            self.idle()
        }
    }

    /// A player in the middle of a change of song: the queue and the state
    /// are each in order, and no song is marked as playing.
    pub open spec fn quiet(self) -> bool {
        &&& self.queue.wf()
        &&& self.state.wf()
        &&& self.distinct()
        &&& forall|j: int| 0 <= j < self.queue.songs.len() ==> !(#[trigger] self.queue.songs[j]).playing
    }

    /// Changing to the song that the queue points at. If the player was
    /// playing it is paused first and resumes last, so that no controller
    /// hears of playing while another song than the one it was told of is
    /// current. In between the controllers learn of the song, the backend is
    /// pointed at it and sought to its start, and the song becomes the
    /// current one.
    pub open spec fn swap_in(self) -> Step {
        let was_playing = self.state.playing();
        let paused = if was_playing {
            self.announce(PlaybackState::Paused)
        } else {
            self.idle()
        };
        let song = self.queue.current_song()->0;
        let adopted = paused.player.adopted();
        let resumed = if was_playing {
            adopted.announce(PlaybackState::Playing)
        } else {
            adopted.idle()
        };
        Step {
            player: resumed.player,
            effects: paused.effects + seq![
                EffectView::SetSong(song),
                EffectView::Backend(BackendCommandView::SetUri(Some(song.data.uri))),
                EffectView::Backend(BackendCommandView::Seek(0)),
            ] + notify(song_properties()) + resumed.effects,
        }
    }

    /// The end of playback: the backend's location is cleared, no song is
    /// current any more, and the player is stopped. The controllers hear of
    /// the stop, then the backend.
    pub open spec fn end_of_playback(self) -> Step {
        Step {
            player: self.ended(),
            effects: seq![EffectView::Backend(BackendCommandView::SetUri(None))] + notify(
                song_properties(),
            ) + notify(self.state.playback_state_properties(PlaybackState::Stopped)) + seq![
                EffectView::SetPlaybackState(PlaybackState::Stopped),
                EffectView::Backend(BackendCommandView::Stop),
            ],
        }
    }

    /// Skipping to the next song of the queue, or ending playback where the
    /// queue has none. Nothing happens on an empty queue.
    pub open spec fn skip_next(self) -> Step {
        if self.queue.songs.len() == 0 {
            self.idle()
        } else {
            let unmarked = self.marked(false);
            match unmarked.queue.next_index() {
                Some(i) => unmarked.pointed_at(Some(i)).swap_in(),
                None => unmarked.end_of_playback(),
            }
        }
    }

    /// Skipping back. Ten seconds or more into a song the song starts over:
    /// the backend seeks to the start and nothing else happens. Earlier
    /// than that the song before it is changed to, if there is one.
    pub open spec fn skip_previous(self) -> Step {
        if self.queue.songs.len() == 0 {
            self.idle()
        } else if self.state.current_song is Some && self.state.position >= 10 {
            Step {
                player: self,
                effects: seq![EffectView::Backend(BackendCommandView::Seek(0))],
            }
        } else {
            match self.queue.current {
                Some(c) => if c > 0 {
                    self.marked(false).pointed_at(Some((c - 1) as u32)).swap_in()
                } else {
                    self.idle()
                },
                None => self.idle(),
            }
        }
    }

    /// Skipping to the song at `pos`. Nothing happens on an empty queue or
    /// where that song is current already; a position past the end of the
    /// queue ends playback.
    pub open spec fn skip_to(self, pos: u32) -> Step {
        if self.queue.songs.len() == 0 || self.queue.current == Some(pos) {
            self.idle()
        } else if pos < self.queue.songs.len() {
            self.marked(false).pointed_at(Some(pos)).swap_in()
        } else {
            self.marked(false).end_of_playback()
        }
    }

    /// A seek by `offset` seconds: the backend is sent to where the seek
    /// lands, if it lands anywhere. The position of the state follows when
    /// the backend reports it.
    pub open spec fn seek(self, offset: u64, direction: SeekDirection) -> Step {
        match spec_seek_destination(
            self.state.position,
            self.state.duration(),
            offset,
            direction,
        ) {
            Some(to) => Step {
                player: self,
                effects: seq![EffectView::Backend(BackendCommandView::Seek(to))],
            },
            None => self.idle(),
        }
    }

    /// A seek by a signed offset: backwards where it is negative.
    pub open spec fn seek_offset(self, offset: i64) -> Step {
        if offset < 0 {
            self.seek((-offset) as u64, SeekDirection::Backwards)
        } else {
            self.seek(offset as u64, SeekDirection::Forward)
        }
    }

    /// A seek to a position, which is held inside the song.
    pub open spec fn seek_position_abs(self, position: u64) -> Step {
        Step {
            player: self,
            effects: seq![
                EffectView::Backend(
                    BackendCommandView::Seek(spec_clamp_position(position, self.state.duration())),
                ),
            ],
        }
    }

    /// The backend reports a position: it is recorded and handed on to the
    /// controllers, with the word whether it comes from a seek.
    pub open spec fn update_position(self, position: u64, notify_seek: bool) -> Step {
        Step {
            player: PlayerView { state: PlayerStateView { position, ..self.state }, ..self },
            effects: seq![
                EffectView::Notify(Property::Position),
                EffectView::SetPosition(position, notify_seek),
            ],
        }
    }

    /// The backend reports a volume: it is recorded.
    pub open spec fn update_volume(self, volume: u32) -> Step {
        Step {
            player: PlayerView { state: self.state.with_volume(volume), ..self },
            effects: notify(self.state.volume_properties(volume)),
        }
    }

    /// Setting the repeat mode, and telling the controllers of it.
    pub open spec fn with_repeat_mode(self, mode: RepeatMode) -> Step {
        Step {
            player: PlayerView { queue: QueueView { repeat_mode: mode, ..self.queue }, ..self },
            effects: seq![EffectView::SetRepeatMode(mode)],
        }
    }

    /// A repeat mode set from outside: nothing happens where it is the
    /// mode that the queue has already.
    pub open spec fn update_repeat_mode(self, mode: RepeatMode) -> Step {
        if mode != self.queue.repeat_mode {
            self.with_repeat_mode(mode)
        } else {
            self.idle()
        }
    }

    /// Emptying the queue: the player is stopped, no song is current, the
    /// queue is cleared, and the covers are to be forgotten.
    pub open spec fn clear_queue(self) -> Step {
        let stopped = self.set_playback_state(PlaybackState::Stopped);
        Step {
            player: PlayerView {
                queue: QueueView {
                    songs: Seq::empty(),
                    shuffle: if self.queue.shuffle is Some {
                        Some(Seq::empty())
                    } else {
                        None
                    },
                    current: None,
                    repeat_mode: self.queue.repeat_mode,
                },
                state: stopped.player.state.with_current_song(None),
            },
            effects: stopped.effects + notify(song_properties()) + seq![
                EffectView::ClearCoverCache,
            ],
        }
    }

    /// What a message asks for.
    pub open spec fn process_action(self, action: PlaybackAction) -> Step {
        match action {
            PlaybackAction::Play => self.set_playback_state(PlaybackState::Playing),
            PlaybackAction::Pause => self.set_playback_state(PlaybackState::Paused),
            PlaybackAction::Stop => self.set_playback_state(PlaybackState::Stopped),
            PlaybackAction::SkipPrevious => self.skip_previous(),
            PlaybackAction::SkipNext => self.skip_next(),
            PlaybackAction::UpdatePosition(position, notify_seek) => self.update_position(
                position,
                notify_seek,
            ),
            PlaybackAction::VolumeChanged(volume) => self.update_volume(volume),
            PlaybackAction::PlayNext => self.skip_next(),
            PlaybackAction::Raise => Step { player: self, effects: seq![EffectView::Present] },
            PlaybackAction::Repeat(mode) => self.update_repeat_mode(mode),
            PlaybackAction::Seek(offset) => self.seek_offset(offset),
        }
    }

    /// Whether the queue points at the song stored at `place`.
    pub open spec fn current_is(self, place: int) -> bool {
        self.queue.current is Some && self.queue.place(self.queue.current->0) == place
    }

    /// Taking the song stored at `place` out of the queue. If it is the
    /// current song the player moves on first, as for a skip to the next
    /// song. If it is the current song even then, because the queue repeats
    /// it, playback ends. Then the song leaves the queue.
    pub open spec fn removed_at(self, place: int, post: PlayerView, effects: Seq<EffectView>) -> bool {
        let moved = if self.current_is(place) {
            self.skip_next()
        } else {
            self.idle()
        };
        let ended = if moved.player.current_is(place) {
            moved.player.marked(false).end_of_playback()
        } else {
            moved.player.idle()
        };
        &&& ended.player.queue.removed_at(place, post.queue)
        &&& post.state == ended.player.state
        &&& effects == moved.effects + ended.effects
    }

    /// Whether a song may join the queue: it does not stand for an
    /// unreadable file, and the queue does not hold it already.
    pub open spec fn accepts(self, song: SongView) -> bool {
        !is_invalid(song.data) && !self.queue.holds(song.data)
    }

    /// The player with `song` at the end of its queue, not marked as
    /// playing.
    pub open spec fn with_song(self, song: SongView) -> PlayerView {
        PlayerView {
            queue: QueueView { songs: self.queue.songs.push(with_playing(song, false)), ..self.queue },
            ..self
        }
    }

    /// The player once each song of `batch` has asked to join the queue, in
    /// order.
    pub open spec fn with_songs(self, batch: Seq<SongView>) -> PlayerView
        decreases batch.len(),
    {
        if batch.len() == 0 {
            self
        } else {
            let before = self.with_songs(batch.drop_last());
            if before.accepts(batch.last()) {
                before.with_song(batch.last())
            } else {
                before
            }
        }
    }

    /// Setting the selection mark of the song presented at `index`.
    pub open spec fn selected_at(self, index: u32) -> PlayerView {
        if index < self.queue.songs.len() {
            PlayerView {
                queue: QueueView {
                    songs: self.queue.songs.update(
                        self.queue.place(index),
                        with_selected(
                            self.queue.songs[self.queue.place(index)],
                            !self.queue.songs[self.queue.place(index)].selected,
                        ),
                    ),
                    ..self.queue
                },
                ..self
            }
        } else {
            self
        }
    }

    /// Switching shuffling on or off with `shuffled_queue` as the queue's
    /// new order. A player that rests on the first song goes to the song
    /// that is first in the new order.
    pub open spec fn shuffled_as(self, shuffled_queue: QueueView) -> Step {
        let reordered = PlayerView { queue: shuffled_queue, ..self };
        if self.queue.current == Some(0u32) && !self.state.playing() {
            reordered.skip_to(0)
        } else {
            reordered.idle()
        }
    }

    /// What handing in a batch of songs, as they were read, leads to. The
    /// songs join the queue as `with_songs` says. If the queue was empty the
    /// player goes to its first song; if moreover a single song joined, it
    /// is played at once.
    pub open spec fn queue_songs(self, batch: Seq<SongView>) -> Step {
        let filled = self.with_songs(batch);
        let added = filled.queue.songs.len() - self.queue.songs.len();
        if added == 0 {
            self.idle()
        } else if self.queue.songs.len() == 0 {
            let first = filled.skip_to(0);
            if added == 1 {
                let started = first.player.play();
                Step { player: started.player, effects: first.effects + started.effects }
            } else {
                first
            }
        } else {
            filled.idle()
        }
    }

    /// What the user is to be told of a batch that was handed in.
    pub open spec fn imported(self, batch: Seq<SongView>) -> Imported {
        let filled = self.with_songs(batch);
        let added = filled.queue.songs.len() - self.queue.songs.len();
        if batch.len() == 0 {
            Imported::NoAvailableSong
        } else if added == 0 {
            if forall|j: int| 0 <= j < batch.len() ==> is_invalid((#[trigger] batch[j]).data) {
                Imported::NoSongsFound
            } else {
                Imported::NothingNew
            }
        } else if added == 1 {
            if self.queue.songs.len() == 0 {
                Imported::Started
            } else {
                Imported::AddedOne((filled.queue.songs.len() - 1) as u32)
            }
        } else {
            Imported::AddedMany(added as u32)
        }
    }
}

/// What became of a batch of songs that was handed in.
#[derive(Clone, Copy, Debug, PartialEq, Eq, Structural)]
pub enum Imported {
    /// The batch was empty.
    NoAvailableSong,
    /// No song of the batch could be read.
    NoSongsFound,
    /// Every song of the batch that could be read is in the queue already.
    NothingNew,
    /// One song joined an empty queue and is being played.
    Started,
    /// One song joined the queue, at this position.
    AddedOne(u32),
    /// This many songs joined the queue.
    AddedMany(u32),
}

/// The player.
#[derive(Debug)]
pub struct AudioPlayer {
    queue: Queue,
    state: PlayerState,
}

impl View for AudioPlayer {
    type V = PlayerView;

    closed spec fn view(&self) -> PlayerView {
        PlayerView { queue: self.queue@, state: self.state@ }
    }
}

impl AudioPlayer {
    pub open spec fn wf(&self) -> bool {
        self@.wf()
    }

    pub fn new() -> (res: AudioPlayer)
        ensures
            res.wf(),
            res@ == PlayerView::initial(),
    {
        AudioPlayer { queue: Queue::new(), state: PlayerState::new() }
    }

    pub fn queue(&self) -> (res: &Queue)
        ensures
            res@ == self@.queue,
    {
        &self.queue
    }

    pub fn state(&self) -> (res: &PlayerState)
        ensures
            res@ == self@.state,
    {
        &self.state
    }

    fn announce(&mut self, state: PlaybackState, effects: &mut Vec<Effect>)
        ensures
            final(self)@ == old(self)@.announce(state).player,
            effects_view(final(effects)@) == effects_view(old(effects)@) + old(self)@.announce(
                state,
            ).effects,
    {
        let told = self.state.set_playback_state(&state);
        emit_notifications(effects, &told);
        emit(effects, Effect::SetPlaybackState(state));
        emit(effects, Effect::Backend(command_for(state)));
        assert(effects_view(effects@) =~= effects_view(old(effects)@) + old(self)@.announce(
            state,
        ).effects);
    }

    /// Marks the song that the queue points at as playing and makes it the
    /// current song of the state.
    fn adopt(&mut self, effects: &mut Vec<Effect>)
        requires
            old(self)@.queue.wf(),
            old(self)@.queue.current is Some,
        ensures
            final(self)@ == old(self)@.adopted(),
            effects_view(final(effects)@) == effects_view(old(effects)@) + notify(
                song_properties(),
            ),
    {
        let current = self.queue.current_song_index().unwrap();
        self.queue.set_playing_at(current, true);
        let song = self.queue.current_song();
        let told = self.state.set_current_song(song);
        emit_notifications(effects, &told);
    }

    fn apply_playback_state(&mut self, state: PlaybackState, effects: &mut Vec<Effect>)
        requires
            old(self).wf(),
        ensures
            final(self).wf(),
            final(self)@ == old(self)@.set_playback_state(state).player,
            effects_view(final(effects)@) == effects_view(old(effects)@)
                + old(self)@.set_playback_state(state).effects,
    {
        if self.state.has_current_song() {
            self.announce(state, effects);
        } else {
            match self.queue.next_song() {
                Some(song) => {
                    let uri = song.uri();
                    emit(effects, Effect::SetSong(song));
                    emit(effects, Effect::Backend(BackendCommand::SetUri(Some(uri))));
                    self.adopt(effects);
                    self.announce(state, effects);
                },
                None => {
                    emit(effects, Effect::Backend(BackendCommand::SetUri(None)));
                    let told = self.state.set_current_song(None);
                    emit_notifications(effects, &told);
                    let told = self.state.set_playback_state(&PlaybackState::Stopped);
                    emit_notifications(effects, &told);
                    emit(effects, Effect::SetPlaybackState(PlaybackState::Stopped));
                },
            }
            assert(effects_view(effects@) =~= effects_view(old(effects)@)
                + old(self)@.set_playback_state(state).effects);
        }
    }

    /// Asks for a playback state.
    pub fn set_playback_state(&mut self, state: PlaybackState) -> (effects: Vec<Effect>)
        requires
            old(self).wf(),
        ensures
            final(self).wf(),
            final(self)@ == old(self)@.set_playback_state(state).player,
            effects_view(effects@) == old(self)@.set_playback_state(state).effects,
    {
        let mut effects: Vec<Effect> = Vec::new();
        self.apply_playback_state(state, &mut effects);
        assert(effects_view(Seq::<Effect>::empty()) =~= Seq::<EffectView>::empty());
        effects
    }

    pub fn toggle_play(&mut self) -> (effects: Vec<Effect>)
        requires
            old(self).wf(),
        ensures
            final(self).wf(),
            final(self)@ == old(self)@.toggle_play().player,
            effects_view(effects@) == old(self)@.toggle_play().effects,
    {
        if self.queue.is_empty() {
            no_effects()
        } else if self.state.playing() {
            self.set_playback_state(PlaybackState::Paused)
        } else {
            self.set_playback_state(PlaybackState::Playing)
        }
    }

    pub fn play(&mut self) -> (effects: Vec<Effect>)
        requires
            old(self).wf(),
        ensures
            final(self).wf(),
            final(self)@ == old(self)@.play().player,
            effects_view(effects@) == old(self)@.play().effects,
    {
        if !self.state.playing() {
            self.set_playback_state(PlaybackState::Playing)
        } else {
            no_effects()
        }
    }

    pub fn pause(&mut self) -> (effects: Vec<Effect>)
        requires
            old(self).wf(),
        ensures
            final(self).wf(),
            final(self)@ == old(self)@.pause().player,
            effects_view(effects@) == old(self)@.pause().effects,
    {
        if self.state.playing() {
            self.set_playback_state(PlaybackState::Paused)
        } else {
            no_effects()
        }
    }

    pub fn stop(&mut self) -> (effects: Vec<Effect>)
        requires
            old(self).wf(),
        ensures
            final(self).wf(),
            final(self)@ == old(self)@.set_playback_state(PlaybackState::Stopped).player,
            effects_view(effects@) == old(self)@.set_playback_state(
                PlaybackState::Stopped,
            ).effects,
    {
        self.set_playback_state(PlaybackState::Stopped)
    }

    /// Takes the playing mark off the song that the queue points at.
    fn unmark(&mut self)
        requires
            old(self).wf(),
        ensures
            final(self)@ == old(self)@.marked(false),
            final(self)@.quiet(),
    {
        match self.queue.current_song_index() {
            Some(current) => {
                self.queue.set_playing_at(current, false);
            },
            None => {},
        }
    }

    /// Changes to the song that the queue points at, which is `song`.
    fn swap_in(&mut self, song: Song, effects: &mut Vec<Effect>)
        requires
            old(self)@.quiet(),
            old(self)@.queue.current is Some,
            old(self)@.queue.current_song() == Some(song@),
            old(self)@.state.current_song is None ==> !old(self)@.state.playing(),
        ensures
            final(self).wf(),
            final(self)@ == old(self)@.swap_in().player,
            effects_view(final(effects)@) == effects_view(old(effects)@) + old(self)@.swap_in().effects,
    {
        let was_playing = self.state.playing();
        if was_playing {
            self.announce(PlaybackState::Paused, effects);
        }
        let uri = song.uri();
        emit(effects, Effect::SetSong(song));
        emit(effects, Effect::Backend(BackendCommand::SetUri(Some(uri))));
        emit(effects, Effect::Backend(BackendCommand::Seek(0)));
        self.adopt(effects);
        if was_playing {
            self.announce(PlaybackState::Playing, effects);
        }
        assert(effects_view(effects@) =~= effects_view(old(effects)@) + old(self)@.swap_in().effects);
    }

    /// Ends playback.
    fn end_playback(&mut self, effects: &mut Vec<Effect>)
        requires
            old(self)@.quiet(),
        ensures
            final(self).wf(),
            final(self)@ == old(self)@.end_of_playback().player,
            effects_view(final(effects)@) == effects_view(old(effects)@)
                + old(self)@.end_of_playback().effects,
    {
        emit(effects, Effect::Backend(BackendCommand::SetUri(None)));
        self.queue.set_current_song(None);
        let told = self.state.set_current_song(None);
        emit_notifications(effects, &told);
        let told = self.state.set_playback_state(&PlaybackState::Stopped);
        emit_notifications(effects, &told);
        emit(effects, Effect::SetPlaybackState(PlaybackState::Stopped));
        emit(effects, Effect::Backend(BackendCommand::Stop));
        assert(effects_view(effects@) =~= effects_view(old(effects)@)
            + old(self)@.end_of_playback().effects);
    }

    fn apply_skip_next(&mut self, effects: &mut Vec<Effect>)
        requires
            old(self).wf(),
        ensures
            final(self).wf(),
            final(self)@ == old(self)@.skip_next().player,
            effects_view(final(effects)@) == effects_view(old(effects)@) + old(self)@.skip_next().effects,
    {
        if self.queue.is_empty() {
            assert(effects_view(effects@) =~= effects_view(old(effects)@) + old(self)@.skip_next().effects);
            return ;
        }
        self.unmark();
        match self.queue.next_song() {
            Some(next_song) => {
                self.swap_in(next_song, effects);
            },
            None => {
                self.end_playback(effects);
            },
        }
    }

    /// Skips to the next song.
    pub fn skip_next(&mut self) -> (effects: Vec<Effect>)
        requires
            old(self).wf(),
        ensures
            final(self).wf(),
            final(self)@ == old(self)@.skip_next().player,
            effects_view(effects@) == old(self)@.skip_next().effects,
    {
        let mut effects = no_effects();
        self.apply_skip_next(&mut effects);
        effects
    }

    /// Skips back: to the start of the song, or to the song before it.
    pub fn skip_previous(&mut self) -> (effects: Vec<Effect>)
        requires
            old(self).wf(),
        ensures
            final(self).wf(),
            final(self)@ == old(self)@.skip_previous().player,
            effects_view(effects@) == old(self)@.skip_previous().effects,
    {
        let mut effects = no_effects();
        if self.queue.is_empty() {
            return effects;
        }
        if self.state.has_current_song() {
            if self.state.position() >= 10 {
                emit(&mut effects, Effect::Backend(BackendCommand::Seek(0)));
                assert(effects_view(effects@) =~= old(self)@.skip_previous().effects);
                return effects;
            }
            if self.queue.is_first_song() {
                return effects;
            }
            self.unmark();
        }
        match self.queue.previous_song() {
            Some(prev_song) => {
                self.swap_in(prev_song, &mut effects);
            },
            None => {},
        }
        effects
    }

    fn apply_skip_to(&mut self, pos: u32, effects: &mut Vec<Effect>)
        requires
            old(self).wf(),
        ensures
            final(self).wf(),
            final(self)@ == old(self)@.skip_to(pos).player,
            effects_view(final(effects)@) == effects_view(old(effects)@) + old(self)@.skip_to(pos).effects,
    {
        if self.queue.is_empty() || self.queue.current_song_index() == Some(pos) {
            assert(effects_view(effects@) =~= effects_view(old(effects)@) + old(self)@.skip_to(pos).effects);
            return ;
        }
        self.unmark();
        match self.queue.skip_song(pos) {
            Some(song) => {
                self.swap_in(song, effects);
            },
            None => {
                self.end_playback(effects);
            },
        }
    }

    /// Skips to the song at `pos`.
    pub fn skip_to(&mut self, pos: u32) -> (effects: Vec<Effect>)
        requires
            old(self).wf(),
        ensures
            final(self).wf(),
            final(self)@ == old(self)@.skip_to(pos).player,
            effects_view(effects@) == old(self)@.skip_to(pos).effects,
    {
        let mut effects = no_effects();
        self.apply_skip_to(pos, &mut effects);
        effects
    }

    fn seek(&mut self, offset: u64, direction: SeekDirection) -> (effects: Vec<Effect>)
        requires
            old(self).wf(),
        ensures
            final(self).wf(),
            final(self)@ == old(self)@.seek(offset, direction).player,
            effects_view(effects@) == old(self)@.seek(offset, direction).effects,
    {
        let mut effects = no_effects();
        match seek_destination(self.state.position(), self.state.duration(), offset, direction) {
            Some(to) => {
                emit(&mut effects, Effect::Backend(BackendCommand::Seek(to)));
                assert(effects_view(effects@) =~= old(self)@.seek(offset, direction).effects);
            },
            None => {},
        }
        effects
    }

    /// Seeks to the start of the song.
    pub fn seek_start(&mut self) -> (effects: Vec<Effect>)
        requires
            old(self).wf(),
        ensures
            final(self).wf(),
            final(self)@ == old(self)@,
            effects_view(effects@) == seq![EffectView::Backend(BackendCommandView::Seek(0))],
    {
        let mut effects = no_effects();
        emit(&mut effects, Effect::Backend(BackendCommand::Seek(0)));
        assert(effects_view(effects@) =~= seq![EffectView::Backend(BackendCommandView::Seek(0))]);
        effects
    }

    /// Seeks ten seconds back.
    pub fn seek_backwards(&mut self) -> (effects: Vec<Effect>)
        requires
            old(self).wf(),
        ensures
            final(self).wf(),
            final(self)@ == old(self)@,
            effects_view(effects@) == old(self)@.seek(10, SeekDirection::Backwards).effects,
    {
        self.seek(10, SeekDirection::Backwards)
    }

    /// Seeks ten seconds on.
    pub fn seek_forward(&mut self) -> (effects: Vec<Effect>)
        requires
            old(self).wf(),
        ensures
            final(self).wf(),
            final(self)@ == old(self)@,
            effects_view(effects@) == old(self)@.seek(10, SeekDirection::Forward).effects,
    {
        self.seek(10, SeekDirection::Forward)
    }

    /// Seeks by a signed number of seconds.
    pub fn seek_offset(&mut self, offset: i64) -> (effects: Vec<Effect>)
        requires
            old(self).wf(),
        ensures
            final(self).wf(),
            final(self)@ == old(self)@,
            effects_view(effects@) == old(self)@.seek_offset(offset).effects,
    {
        if offset < 0 {
            let back: u64 = if offset == i64::MIN {
                0x8000_0000_0000_0000u64
            } else {
                (-offset) as u64
            };
            self.seek(back, SeekDirection::Backwards)
        } else {
            self.seek(offset as u64, SeekDirection::Forward)
        }
    }

    /// Seeks to a position in seconds.
    pub fn seek_position_abs(&mut self, position: u64) -> (effects: Vec<Effect>)
        requires
            old(self).wf(),
        ensures
            final(self).wf(),
            final(self)@ == old(self)@,
            effects_view(effects@) == old(self)@.seek_position_abs(position).effects,
    {
        let mut effects = no_effects();
        let to = clamp_position(position, self.state.duration());
        emit(&mut effects, Effect::Backend(BackendCommand::Seek(to)));
        assert(effects_view(effects@) =~= old(self)@.seek_position_abs(position).effects);
        effects
    }

    fn update_position(&mut self, position: u64, notify_seek: bool) -> (effects: Vec<Effect>)
        requires
            old(self).wf(),
        ensures
            final(self).wf(),
            final(self)@ == old(self)@.update_position(position, notify_seek).player,
            effects_view(effects@) == old(self)@.update_position(position, notify_seek).effects,
    {
        let mut effects = no_effects();
        let told = self.state.set_position(position);
        emit_notifications(&mut effects, &told);
        emit(&mut effects, Effect::SetPosition(position, notify_seek));
        assert(effects_view(effects@) =~= old(self)@.update_position(position, notify_seek).effects);
        effects
    }

    fn update_volume(&mut self, volume: u32) -> (effects: Vec<Effect>)
        requires
            old(self).wf(),
        ensures
            final(self).wf(),
            final(self)@ == old(self)@.update_volume(volume).player,
            effects_view(effects@) == old(self)@.update_volume(volume).effects,
    {
        let mut effects = no_effects();
        let told = self.state.set_volume(volume);
        emit_notifications(&mut effects, &told);
        assert(effects_view(effects@) =~= old(self)@.update_volume(volume).effects);
        effects
    }

    /// Asks the backend for a volume. The state follows when the backend
    /// reports the volume it took on.
    pub fn set_volume(&mut self, volume: u32) -> (effects: Vec<Effect>)
        requires
            old(self).wf(),
        ensures
            final(self).wf(),
            final(self)@ == old(self)@,
            effects_view(effects@) == seq![
                EffectView::Backend(BackendCommandView::SetVolume(volume)),
            ],
    {
        let mut effects = no_effects();
        emit(&mut effects, Effect::Backend(BackendCommand::SetVolume(volume)));
        assert(effects_view(effects@) =~= seq![
            EffectView::Backend(BackendCommandView::SetVolume(volume)),
        ]);
        effects
    }

    fn apply_repeat_mode(&mut self, mode: RepeatMode) -> (effects: Vec<Effect>)
        requires
            old(self).wf(),
        ensures
            final(self).wf(),
            final(self)@ == old(self)@.with_repeat_mode(mode).player,
            effects_view(effects@) == old(self)@.with_repeat_mode(mode).effects,
    {
        let mut effects = no_effects();
        self.queue.set_repeat_mode(mode);
        emit(&mut effects, Effect::SetRepeatMode(mode));
        assert(effects_view(effects@) =~= old(self)@.with_repeat_mode(mode).effects);
        effects
    }

    /// Moves on to the next repeat mode: consecutive, repeat all, repeat
    /// one, and round again.
    pub fn toggle_repeat_mode(&mut self) -> (effects: Vec<Effect>)
        requires
            old(self).wf(),
        ensures
            final(self).wf(),
            final(self)@ == old(self)@.with_repeat_mode(
                old(self)@.queue.repeat_mode.toggled(),
            ).player,
            effects_view(effects@) == old(self)@.with_repeat_mode(
                old(self)@.queue.repeat_mode.toggled(),
            ).effects,
    {
        let new_mode = self.queue.repeat_mode().toggled();
        self.apply_repeat_mode(new_mode)
    }

    fn update_repeat_mode(&mut self, repeat: RepeatMode) -> (effects: Vec<Effect>)
        requires
            old(self).wf(),
        ensures
            final(self).wf(),
            final(self)@ == old(self)@.update_repeat_mode(repeat).player,
            effects_view(effects@) == old(self)@.update_repeat_mode(repeat).effects,
    {
        if repeat != self.queue.repeat_mode() {
            self.apply_repeat_mode(repeat)
        } else {
            no_effects()
        }
    }

    /// Asks the backend for a loudness normalisation.
    pub fn set_replaygain(&mut self, replaygain: ReplayGainMode) -> (effects: Vec<Effect>)
        requires
            old(self).wf(),
        ensures
            final(self).wf(),
            final(self)@ == old(self)@,
            effects_view(effects@) == seq![
                EffectView::Backend(BackendCommandView::SetReplayGain(replaygain)),
            ],
    {
        let mut effects = no_effects();
        emit(&mut effects, Effect::Backend(BackendCommand::SetReplayGain(replaygain)));
        assert(effects_view(effects@) =~= seq![
            EffectView::Backend(BackendCommandView::SetReplayGain(replaygain)),
        ]);
        effects
    }

    /// Stops the player and empties the queue.
    pub fn clear_queue(&mut self) -> (effects: Vec<Effect>)
        requires
            old(self).wf(),
        ensures
            final(self).wf(),
            final(self)@ == old(self)@.clear_queue().player,
            effects_view(effects@) == old(self)@.clear_queue().effects,
    {
        let mut effects = no_effects();
        self.apply_playback_state(PlaybackState::Stopped, &mut effects);
        let told = self.state.set_current_song(None);
        emit_notifications(&mut effects, &told);
        self.queue.clear();
        emit(&mut effects, Effect::ClearCoverCache);
        assert(effects_view(effects@) =~= old(self)@.clear_queue().effects);
        effects
    }

    /// Carries out a message.
    pub fn process_action(&mut self, action: PlaybackAction) -> (effects: Vec<Effect>)
        requires
            old(self).wf(),
        ensures
            final(self).wf(),
            final(self)@ == old(self)@.process_action(action).player,
            effects_view(effects@) == old(self)@.process_action(action).effects,
    {
        match action {
            PlaybackAction::Play => self.set_playback_state(PlaybackState::Playing),
            PlaybackAction::Pause => self.set_playback_state(PlaybackState::Paused),
            PlaybackAction::Stop => self.set_playback_state(PlaybackState::Stopped),
            PlaybackAction::SkipPrevious => self.skip_previous(),
            PlaybackAction::SkipNext => self.skip_next(),
            PlaybackAction::UpdatePosition(position, notify_seek) => self.update_position(
                position,
                notify_seek,
            ),
            PlaybackAction::VolumeChanged(volume) => self.update_volume(volume),
            PlaybackAction::PlayNext => self.skip_next(),
            PlaybackAction::Raise => {
                let mut effects = no_effects();
                emit(&mut effects, Effect::Present);
                assert(effects_view(effects@) =~= seq![EffectView::Present]);
                effects
            },
            PlaybackAction::Repeat(mode) => self.update_repeat_mode(mode),
            PlaybackAction::Seek(offset) => self.seek_offset(offset),
        }
    }

    /// Takes out of the queue the song that is the same song as `song`. A
    /// player that holds no such song is left as it is.
    pub fn remove_song(&mut self, song: &Song) -> (effects: Vec<Effect>)
        requires
            old(self).wf(),
        ensures
            final(self).wf(),
            !old(self)@.queue.holds(song@.data) ==> final(self)@ == old(self)@ && effects_view(
                effects@,
            ) == Seq::<EffectView>::empty(),
            forall|place: int|
                old(self)@.queue.is_first_stored(song@.data, place) ==> old(self)@.removed_at(
                    place,
                    final(self)@,
                    effects_view(effects@),
                ),
    {
        let mut effects = no_effects();
        match self.queue.first_stored(song) {
            Some(place) => {
                if self.queue.current_place() == Some(place) {
                    self.apply_skip_next(&mut effects);
                }
                let ghost moved_effects = effects_view(effects@);
                if self.queue.current_place() == Some(place) {
                    self.unmark();
                    self.end_playback(&mut effects);
                }
                let ghost ended = self@;
                assert(ended.queue.is_first_stored(song@.data, place as int));
                self.queue.remove_song(song);
                proof {
                    assert(ended.queue.removed_at(place as int, self@.queue));
                    assert(old(self)@.removed_at(place as int, self@, effects_view(effects@))) by {
                        assert(effects_view(effects@) =~= moved_effects + (effects_view(
                            effects@,
                        ).skip(moved_effects.len() as int)));
                    }
                    lemma_removal_keeps_order(ended, place as int, self@);
                }
                effects
            },
            None => effects,
        }
    }

    /// Adds a song to the queue, unless it stands for an unreadable file or
    /// the queue holds it already. Returns whether the song was taken.
    pub fn add_song(&mut self, song: &Song) -> (added: bool)
        requires
            old(self).wf(),
            old(self)@.queue.songs.len() < u32::MAX,
        ensures
            final(self).wf(),
            added == old(self)@.accepts(song@),
            final(self)@ == if added {
                old(self)@.with_song(song@)
            } else {
                old(self)@
            },
    {
        if song.is_invalid() || self.queue.contains(song) {
            false
        } else {
            let mut copy = song.clone();
            copy.set_playing(false);
            let added = self.queue.add_song(&copy);
            proof {
                assert(final(self)@.distinct()) by {
                    let songs = final(self)@.queue.songs;
                    assert forall|i: int, j: int| 0 <= i < j < songs.len() implies !same_song(
                        (#[trigger] songs[i]).data,
                        (#[trigger] songs[j]).data,
                    ) by {
                        if j < songs.len() - 1 {
                            assert(songs[i] == old(self)@.queue.songs[i]);
                            assert(songs[j] == old(self)@.queue.songs[j]);
                        } else {
                            assert(songs[i] == old(self)@.queue.songs[i]);
                        }
                    }
                }
            }
            added
        }
    }

    /// Adds the songs of `songs` to the queue, in order, each as `add_song`
    /// would. Returns how many were taken.
    pub fn add_songs(&mut self, songs: &Vec<Song>) -> (added: u32)
        requires
            old(self).wf(),
            old(self)@.queue.songs.len() + songs@.len() <= u32::MAX,
        ensures
            final(self).wf(),
            final(self)@ == old(self)@.with_songs(songs_view(songs@)),
            added == final(self)@.queue.songs.len() - old(self)@.queue.songs.len(),
    {
        let mut added: u32 = 0;
        let mut i: usize = 0;
        while i < songs.len()
            invariant
                self.wf(),
                i <= songs.len(),
                old(self)@.queue.songs.len() + songs@.len() <= u32::MAX,
                self@ == old(self)@.with_songs(songs_view(songs@.take(i as int))),
                added == self@.queue.songs.len() - old(self)@.queue.songs.len(),
                added <= i,
            decreases songs.len() - i,
        {
            proof {
                let batch = songs_view(songs@.take(i + 1));
                assert(batch.drop_last() =~= songs_view(songs@.take(i as int)));
                assert(batch.last() == songs@[i as int]@);
            }
            if self.add_song(&songs[i]) {
                added += 1;
            }
            i += 1;
        }
        assert(songs@.take(i as int) =~= songs@);
        added
    }

    /// Flips the selection mark of the song presented at `index`.
    pub fn select_song_at(&mut self, index: u32)
        requires
            old(self).wf(),
        ensures
            final(self).wf(),
            final(self)@ == old(self)@.selected_at(index),
    {
        self.queue.select_song_at(index);
    }

    /// Clears the selection mark of every song.
    pub fn unselect_all_songs(&mut self)
        requires
            old(self).wf(),
        ensures
            final(self).wf(),
            final(self)@ == (PlayerView {
                queue: QueueView {
                    songs: old(self)@.queue.songs.map_values(|s: SongView| with_selected(s, false)),
                    ..old(self)@.queue
                },
                ..old(self)@
            }),
    {
        self.queue.unselect_all_songs();
    }

    /// Switches shuffling on or off.
    pub fn set_shuffled(&mut self, shuffled: bool) -> (effects: Vec<Effect>)
        requires
            old(self).wf(),
        ensures
            final(self).wf(),
            exists|shuffled_queue: QueueView|
                {
                    &&& old(self)@.queue.shuffle_set(shuffled, shuffled_queue)
                    &&& final(self)@ == (#[trigger] old(self)@.shuffled_as(shuffled_queue)).player
                    &&& effects_view(effects@) == old(self)@.shuffled_as(shuffled_queue).effects
                },
    {
        let reset_song = self.queue.is_first_song() && !self.state.playing();
        self.queue.set_shuffled(shuffled);
        let ghost shuffled_queue = self@.queue;
        proof {
            lemma_shuffle_keeps_order(old(self)@, shuffled, self@);
        }
        let effects = if reset_song {
            self.skip_to(0)
        } else {
            no_effects()
        };
        assert(final(self)@ == old(self)@.shuffled_as(shuffled_queue).player);
        effects
    }

    /// Takes in a batch of songs as they were read, unreadable ones
    /// included, and starts playing where a single song joins an empty
    /// queue.
    pub fn queue_songs(&mut self, batch: &Vec<Song>) -> (res: (Imported, Vec<Effect>))
        requires
            old(self).wf(),
            old(self)@.queue.songs.len() + batch@.len() <= u32::MAX,
        ensures
            final(self).wf(),
            final(self)@ == old(self)@.queue_songs(songs_view(batch@)).player,
            effects_view(res.1@) == old(self)@.queue_songs(songs_view(batch@)).effects,
            res.0 == old(self)@.imported(songs_view(batch@)),
    {
        if batch.len() == 0 {
            return (Imported::NoAvailableSong, no_effects());
        }
        let was_empty = self.queue.is_empty();
        let added = self.add_songs(batch);
        proof {
            lemma_with_songs_grows(old(self)@, songs_view(batch@));
        }
        if added == 0 {
            let mut readable = false;
            let mut i: usize = 0;
            while i < batch.len()
                invariant
                    i <= batch.len(),
                    readable == exists|j: int|
                        0 <= j < i && !is_invalid((#[trigger] songs_view(batch@)[j]).data),
                decreases batch.len() - i,
            {
                if !batch[i].is_invalid() {
                    readable = true;
                    assert(!is_invalid(songs_view(batch@)[i as int].data));
                }
                i += 1;
            }
            if readable {
                (Imported::NothingNew, no_effects())
            } else {
                (Imported::NoSongsFound, no_effects())
            }
        } else if was_empty {
            let mut effects = no_effects();
            self.apply_skip_to(0, &mut effects);
            if added == 1 {
                let ghost first = effects_view(effects@);
                let mut started = self.play();
                let ghost second = effects_view(started@);
                effects.append(&mut started);
                assert(effects_view(effects@) =~= first + second);
                (Imported::Started, effects)
            } else {
                (Imported::AddedMany(added), effects)
            }
        } else if added == 1 {
            (Imported::AddedOne(self.queue.n_songs() - 1), no_effects())
        } else {
            (Imported::AddedMany(added), no_effects())
        }
    }
}

/// Songs that ask to join only ever lengthen the queue: what was there
/// stays in front, and nothing but the list of songs changes. A batch that
/// does not lengthen the queue leaves the player as it was.
pub proof fn lemma_with_songs_grows(player: PlayerView, batch: Seq<SongView>)
    ensures
        player.with_songs(batch).state == player.state,
        player.with_songs(batch).queue == (QueueView {
            songs: player.with_songs(batch).queue.songs,
            ..player.queue
        }),
        player.queue.songs.len() <= player.with_songs(batch).queue.songs.len()
            <= player.queue.songs.len() + batch.len(),
        player.with_songs(batch).queue.songs.take(player.queue.songs.len() as int)
            == player.queue.songs,
        player.with_songs(batch).queue.songs.len() == player.queue.songs.len()
            ==> player.with_songs(batch) == player,
    decreases batch.len(),
{
    if batch.len() > 0 {
        lemma_with_songs_grows(player, batch.drop_last());
        let before = player.with_songs(batch.drop_last());
        let after = player.with_songs(batch);
        assert(after.queue.songs.take(player.queue.songs.len() as int)
            =~= before.queue.songs.take(player.queue.songs.len() as int));
    } else {
        assert(player.queue.songs.take(player.queue.songs.len() as int) =~= player.queue.songs);
    }
    if player.with_songs(batch).queue.songs.len() == player.queue.songs.len() {
        assert(player.with_songs(batch).queue.songs =~= player.queue.songs);
    }
}

/// A queue in order stays in order when shuffling is switched: the pointer
/// stays on the song it was on.
proof fn lemma_shuffle_keeps_order(pre: PlayerView, shuffled: bool, post: PlayerView)
    requires
        pre.wf(),
        post.queue.wf(),
        post.state == pre.state,
        pre.queue.shuffle_set(shuffled, post.queue),
    ensures
        post.wf(),
        post.queue.current is Some == pre.queue.current is Some,
        pre.queue.current is Some ==> post.queue.place(post.queue.current->0) == pre.queue.place(
            pre.queue.current->0,
        ),
{
    if shuffled == (pre.queue.shuffle is Some) {
    } else if shuffled {
    } else {
        if pre.queue.current is Some {
            let c = pre.queue.current->0;
            let at = pre.queue.place(c);
            let r = post.queue.current->0;
            assert(post.queue.place(r) == r);
            assert(same_song(post.queue.songs[r as int].data, pre.queue.songs[at].data));
            if r < at {
                assert(same_song(pre.queue.songs[r as int].data, pre.queue.songs[at].data));
            } else if r > at {
                crate::song::lemma_same_song_reflexive_symmetric(
                    pre.queue.songs[r as int].data,
                    pre.queue.songs[at].data,
                );
                assert(same_song(pre.queue.songs[at].data, pre.queue.songs[r as int].data));
            }
            assert(r == at);
        }
    }
}

/// A player whose queue loses a song that is not current stays in order.
proof fn lemma_removal_keeps_order(pre: PlayerView, place: int, post: PlayerView)
    requires
        pre.wf(),
        0 <= place < pre.queue.songs.len(),
        !pre.current_is(place),
        post.queue.wf(),
        post.state == pre.state,
        pre.queue.removed_at(place, post.queue),
    ensures
        post.wf(),
{
    let songs = pre.queue.songs;
    let left = post.queue.songs;
    assert forall|i: int, j: int| 0 <= i < j < left.len() implies !same_song(
        (#[trigger] left[i]).data,
        (#[trigger] left[j]).data,
    ) by {
        let oi = if i < place { i } else { i + 1 };
        let oj = if j < place { j } else { j + 1 };
        assert(left[i] == songs[oi]);
        assert(left[j] == songs[oj]);
    }
    assert forall|j: int| 0 <= j < left.len() implies ((#[trigger] left[j]).playing <==> (
    post.queue.current is Some && post.queue.place(post.queue.current->0) == j)) by {
        let oj = if j < place { j } else { j + 1 };
        assert(left[j] == songs[oj]);
    }
    if pre.queue.current is Some {
        let at = pre.queue.place(pre.queue.current->0);
        let now = post.queue.place(post.queue.current->0);
        assert(left[now] == songs[at]);
    }
}

/// In `effects`, the last song that the controllers were told of before
/// position `k` is `song`.
pub open spec fn song_told_before(effects: Seq<EffectView>, k: int, song: SongView) -> bool {
    exists|j: int|
        0 <= j < k && #[trigger] effects[j] == EffectView::SetSong(song) && forall|m: int|
            j < m < k ==> !((#[trigger] effects[m]) is SetSong)
}

/// Wherever the step tells the controllers of playing, the song it told
/// them of last is the song that is current.
pub open spec fn playing_follows_song(step: Step) -> bool {
    forall|k: int|
        0 <= k < step.effects.len() && #[trigger] step.effects[k] == EffectView::SetPlaybackState(
            PlaybackState::Playing,
        ) ==> step.player.state.current_song is Some && exists|song: SongView|
            #[trigger] song_told_before(step.effects, k, song) && song.data
                == step.player.state.current_song->0.data
}

/// A change of song tells the controllers of playing only after it has told
/// them of the song changed to, and that song is then the current one.
pub proof fn lemma_swap_in_playing_follows_song(pre: PlayerView)
    requires
        pre.queue.wf(),
        pre.queue.current is Some,
    ensures
        playing_follows_song(pre.swap_in()),
        pre.swap_in().player.state.current_song is Some,
        pre.swap_in().player.state.current_song->0.data == pre.queue.current_song()->0.data,
        pre.swap_in().player.state.playback_state == pre.state.playback_state,
        pre.swap_in().player.state.position == 0,
{
    let step = pre.swap_in();
    let song = pre.queue.current_song()->0;
    let was_playing = pre.state.playing();
    let paused = if was_playing {
        pre.announce(PlaybackState::Paused)
    } else {
        pre.idle()
    };
    let adopted = paused.player.adopted();
    let resumed = if was_playing {
        adopted.announce(PlaybackState::Playing)
    } else {
        adopted.idle()
    };
    let told = paused.effects.len() as int;
    assert(step.effects[told] == EffectView::SetSong(song));
    assert forall|k: int|
        0 <= k < step.effects.len() && #[trigger] step.effects[k] == EffectView::SetPlaybackState(
            PlaybackState::Playing,
        ) implies step.player.state.current_song is Some && exists|s: SongView|
        #[trigger] song_told_before(step.effects, k, s) && s.data
            == step.player.state.current_song->0.data by {
        assert(k > told);
        assert forall|m: int| told < m < k implies !((#[trigger] step.effects[m]) is SetSong) by {}
        assert(song_told_before(step.effects, k, song));
    }
}

/// No skip lets a controller hear of playing for another song than the one
/// it heard of last.
pub proof fn lemma_skips_playing_follows_song(pre: PlayerView, pos: u32)
    requires
        pre.wf(),
    ensures
        playing_follows_song(pre.skip_next()),
        playing_follows_song(pre.skip_previous()),
        playing_follows_song(pre.skip_to(pos)),
{
    let unmarked = pre.marked(false);
    if pre.queue.songs.len() > 0 {
        match unmarked.queue.next_index() {
            Some(i) => {
                lemma_swap_in_playing_follows_song(unmarked.pointed_at(Some(i)));
            },
            None => {},
        }
        match pre.queue.current {
            Some(c) => {
                if c > 0 {
                    lemma_swap_in_playing_follows_song(unmarked.pointed_at(Some((c - 1) as u32)));
                }
            },
            None => {},
        }
        if pos < pre.queue.songs.len() {
            lemma_swap_in_playing_follows_song(unmarked.pointed_at(Some(pos)));
        }
    }
}

/// The song that the state calls current is a song of the queue.
pub proof fn lemma_current_song_is_queued(player: PlayerView)
    requires
        player.wf(),
    ensures
        match player.state.current_song {
            Some(song) => player.queue.current_song() is Some && player.queue.current_song()->0.data
                == song.data && player.queue.holds(song.data),
            None => player.queue.current is None,
        },
{
    if player.state.current_song is Some {
        let at = player.queue.place(player.queue.current->0);
        assert(same_song(player.queue.songs[at].data, player.state.current_song->0.data));
    }
}

/// Skipping leaves a player in order in order.
pub proof fn lemma_skip_next_keeps_order(pre: PlayerView)
    requires
        pre.wf(),
    ensures
        pre.skip_next().player.wf(),
{
}

/// After a song has been taken out of the queue the state does not call
/// current a song that the queue has lost: the player is in order, so its
/// current song, if it has one, is the song the queue points at. Where the
/// song taken out was the current one, the current song is another one or
/// none.
pub proof fn lemma_removed_song_is_not_current(
    pre: PlayerView,
    place: int,
    post: PlayerView,
    effects: Seq<EffectView>,
)
    requires
        pre.wf(),
        0 <= place < pre.queue.songs.len(),
        post.queue.wf(),
        pre.removed_at(place, post, effects),
    ensures
        post.wf(),
        match post.state.current_song {
            Some(song) => post.queue.current_song() is Some && post.queue.current_song()->0.data
                == song.data && post.queue.holds(song.data),
            None => post.queue.current is None,
        },
        pre.current_is(place) && post.state.current_song is Some ==> !same_song(
            pre.queue.songs[place].data,
            post.state.current_song->0.data,
        ),
{
    let moved = if pre.current_is(place) {
        pre.skip_next()
    } else {
        pre.idle()
    };
    lemma_skip_next_keeps_order(pre);
    let ended = if moved.player.current_is(place) {
        moved.player.marked(false).end_of_playback()
    } else {
        moved.player.idle()
    };
    assert(ended.player.wf());
    lemma_removal_keeps_order(ended.player, place, post);
    lemma_current_song_is_queued(post);
    if pre.current_is(place) && post.state.current_song is Some {
        let at = ended.player.queue.place(ended.player.queue.current->0);
        assert(at != place);
        assert(ended.player.queue.songs[at].data == post.state.current_song->0.data);
        assert(ended.player.queue.songs[place].data == pre.queue.songs[place].data);
        if at < place {
            crate::song::lemma_same_song_reflexive_symmetric(
                ended.player.queue.songs[place].data,
                ended.player.queue.songs[at].data,
            );
        }
    }
}

/// The playback state that a command brings the backend into, for the
/// three commands that do so.
pub open spec fn state_commanded(effect: EffectView) -> Option<PlaybackState> {
    match effect {
        EffectView::Backend(BackendCommandView::Play) => Some(PlaybackState::Playing),
        EffectView::Backend(BackendCommandView::Pause) => Some(PlaybackState::Paused),
        EffectView::Backend(BackendCommandView::Stop) => Some(PlaybackState::Stopped),
        _ => None,
    }
}

/// Wherever the effects command the backend to play, pause or stop, the
/// controllers have been told of that state just before.
pub open spec fn told_before_commanded(effects: Seq<EffectView>) -> bool {
    forall|k: int|
        0 <= k < effects.len() && state_commanded(#[trigger] effects[k]) is Some ==> k > 0
            && effects[k - 1] == EffectView::SetPlaybackState(state_commanded(effects[k])->0)
}

/// The controllers hear of a playback state before the backend is
/// commanded into it, whatever asks for the state: a request for the state
/// itself, or a skip.
pub proof fn lemma_told_before_commanded(pre: PlayerView, state: PlaybackState, pos: u32)
    requires
        pre.wf(),
    ensures
        told_before_commanded(pre.set_playback_state(state).effects),
        told_before_commanded(pre.skip_next().effects),
        told_before_commanded(pre.skip_previous().effects),
        told_before_commanded(pre.skip_to(pos).effects),
{
    lemma_announce_tells_first(pre, state);
    if pre.state.current_song is None {
        match pre.queue.next_index() {
            Some(i) => {
                let adopted = pre.pointed_at(Some(i)).adopted();
                lemma_announce_tells_first(adopted, state);
                let last = adopted.announce(state).effects;
                let effects = pre.set_playback_state(state).effects;
                let shift = effects.len() - last.len();
                assert forall|k: int|
                    0 <= k < effects.len() && state_commanded(
                        #[trigger] effects[k],
                    ) is Some implies k > 0 && effects[k - 1] == EffectView::SetPlaybackState(
                    state_commanded(effects[k])->0,
                ) by {
                    if k >= shift {
                        assert(effects[k] == last[k - shift]);
                        assert(effects[k - 1] == last[k - shift - 1]);
                    }
                }
            },
            None => {},
        }
    }
    let unmarked = pre.marked(false);
    lemma_end_tells_first(unmarked);
    if pre.queue.songs.len() > 0 {
        match unmarked.queue.next_index() {
            Some(i) => lemma_swap_in_tells_first(unmarked.pointed_at(Some(i))),
            None => {},
        }
        match pre.queue.current {
            Some(c) => {
                if c > 0 {
                    lemma_swap_in_tells_first(unmarked.pointed_at(Some((c - 1) as u32)));
                }
            },
            None => {},
        }
        if pos < pre.queue.songs.len() {
            lemma_swap_in_tells_first(unmarked.pointed_at(Some(pos)));
        }
    }
}

proof fn lemma_announce_tells_first(pre: PlayerView, state: PlaybackState)
    ensures
        told_before_commanded(pre.announce(state).effects),
        pre.announce(state).effects.len() >= 2,
        state_commanded(pre.announce(state).effects[0]) is None,
{
    let told = notify(pre.state.playback_state_properties(state));
    let effects = pre.announce(state).effects;
    assert forall|k: int|
        0 <= k < effects.len() && state_commanded(#[trigger] effects[k]) is Some implies k > 0
        && effects[k - 1] == EffectView::SetPlaybackState(state_commanded(effects[k])->0) by {
        if k < told.len() {
            assert(effects[k] == told[k]);
        }
    }
    if told.len() > 0 {
        assert(effects[0] == told[0]);
    }
}

proof fn lemma_end_tells_first(pre: PlayerView)
    ensures
        told_before_commanded(pre.end_of_playback().effects),
{
    let effects = pre.end_of_playback().effects;
    let n = effects.len() as int;
    assert forall|k: int|
        0 <= k < n && state_commanded(#[trigger] effects[k]) is Some implies k > 0 && effects[k
        - 1] == EffectView::SetPlaybackState(state_commanded(effects[k])->0) by {
        if k < n - 2 {
            if k >= 1 {
                if k < 8 {
                    assert(effects[k] == notify(song_properties())[k - 1]);
                } else {
                    assert(effects[k] == notify(
                        pre.state.playback_state_properties(PlaybackState::Stopped),
                    )[k - 8]);
                }
            }
        }
    }
}

proof fn lemma_swap_in_tells_first(pre: PlayerView)
    ensures
        told_before_commanded(pre.swap_in().effects),
{
    let was_playing = pre.state.playing();
    let paused = if was_playing {
        pre.announce(PlaybackState::Paused)
    } else {
        pre.idle()
    };
    let adopted = paused.player.adopted();
    let resumed = if was_playing {
        adopted.announce(PlaybackState::Playing)
    } else {
        adopted.idle()
    };
    lemma_announce_tells_first(pre, PlaybackState::Paused);
    lemma_announce_tells_first(adopted, PlaybackState::Playing);
    let effects = pre.swap_in().effects;
    let a = paused.effects.len() as int;
    let shift = effects.len() - resumed.effects.len();
    assert(shift == a + 10);
    assert forall|k: int|
        0 <= k < effects.len() && state_commanded(#[trigger] effects[k]) is Some implies k > 0
        && effects[k - 1] == EffectView::SetPlaybackState(state_commanded(effects[k])->0) by {
        if k < a {
            assert(effects[k] == paused.effects[k]);
            assert(effects[k - 1] == paused.effects[k - 1]);
        } else if k < a + 3 {
        } else if k < shift {
            assert(effects[k] == notify(song_properties())[k - a - 3]);
        } else {
            assert(effects[k] == resumed.effects[k - shift]);
            assert(k - shift > 0);
            assert(effects[k - 1] == resumed.effects[k - shift - 1]);
        }
    }
}

/// The playback states follow one another as they should: a player with
/// songs plays when asked to play and pauses when asked to pause while
/// playing, and every player is stopped when asked to stop. A player
/// without songs that is asked to play stays stopped, without a song.
pub proof fn lemma_playback_states(pre: PlayerView)
    requires
        pre.wf(),
    ensures
        pre.queue.songs.len() > 0 ==> pre.play().player.state.playback_state
            == PlaybackState::Playing,
        pre.queue.songs.len() > 0 ==> pre.play().player.state.current_song is Some,
        pre.state.playing() ==> pre.pause().player.state.playback_state == PlaybackState::Paused,
        !pre.state.playing() ==> pre.pause() == pre.idle(),
        pre.set_playback_state(PlaybackState::Stopped).player.state.playback_state
            == PlaybackState::Stopped,
        pre.queue.songs.len() == 0 ==> pre.play().player.state.playback_state
            == PlaybackState::Stopped && pre.play().player.state.current_song is None,
        pre.toggle_play().player.state.playing() == (pre.queue.songs.len() > 0
            && !pre.state.playing()),
{
}

/// The song that the controllers were told of last, after `effects`, given
/// the one they were told of last before.
pub open spec fn last_told(effects: Seq<EffectView>, before: Option<SongView>) -> Option<SongView>
    decreases effects.len(),
{
    if effects.len() == 0 {
        before
    } else {
        match effects.last() {
            EffectView::SetSong(song) => Some(song),
            _ => last_told(effects.drop_last(), before),
        }
    }
}

/// The controllers know the current song: the song they were told of last
/// is the song that is current, if one is.
pub open spec fn in_tune(player: PlayerView, told: Option<SongView>) -> bool {
    player.state.current_song is Some ==> told is Some && told->0.data
        == player.state.current_song->0.data
}

/// Wherever the step tells the controllers of playing, they know the song
/// that is current when the step is done.
pub open spec fn playing_is_in_tune(step: Step, told: Option<SongView>) -> bool {
    forall|k: int|
        0 <= k < step.effects.len() && #[trigger] step.effects[k] == EffectView::SetPlaybackState(
            PlaybackState::Playing,
        ) ==> step.player.state.current_song is Some && in_tune(
            step.player,
            last_told(step.effects.take(k), told),
        )
}

proof fn lemma_last_told_joined(first: Seq<EffectView>, second: Seq<EffectView>, told: Option<SongView>)
    ensures
        last_told(first + second, told) == last_told(second, last_told(first, told)),
    decreases second.len(),
{
    if second.len() == 0 {
        assert(first + second =~= first);
    } else {
        assert((first + second).drop_last() =~= first + second.drop_last());
        assert((first + second).last() == second.last());
        lemma_last_told_joined(first, second.drop_last(), told);
    }
}

proof fn lemma_last_told_kept(effects: Seq<EffectView>, told: Option<SongView>)
    requires
        forall|k: int| 0 <= k < effects.len() ==> !((#[trigger] effects[k]) is SetSong),
    ensures
        last_told(effects, told) == told,
    decreases effects.len(),
{
    if effects.len() > 0 {
        assert(effects.last() == effects[effects.len() - 1]);
        let front = effects.drop_last();
        assert forall|k: int| 0 <= k < front.len() implies !((#[trigger] front[k]) is SetSong) by {
            assert(front[k] == effects[k]);
        }
        lemma_last_told_kept(front, told);
    }
}

/// Taking on a playback state tells the controllers of no song, and tells
/// them of the state in one place only.
proof fn lemma_announce_in_tune(pre: PlayerView, state: PlaybackState, told: Option<SongView>)
    requires
        pre.state.current_song is Some,
        in_tune(pre, told),
    ensures
        playing_is_in_tune(pre.announce(state), told),
        last_told(pre.announce(state).effects, told) == told,
        in_tune(pre.announce(state).player, told),
{
    let step = pre.announce(state);
    let props = notify(pre.state.playback_state_properties(state));
    assert forall|k: int| 0 <= k < step.effects.len() implies !((#[trigger] step.effects[k])
        is SetSong) by {
        if k < props.len() {
            assert(step.effects[k] == props[k]);
        }
    }
    lemma_last_told_kept(step.effects, told);
    assert forall|k: int|
        0 <= k < step.effects.len() && #[trigger] step.effects[k] == EffectView::SetPlaybackState(
            PlaybackState::Playing,
        ) implies step.player.state.current_song is Some && in_tune(
        step.player,
        last_told(step.effects.take(k), told),
    ) by {
        let front = step.effects.take(k);
        assert forall|j: int| 0 <= j < front.len() implies !((#[trigger] front[j]) is SetSong) by {
            assert(front[j] == step.effects[j]);
        }
        lemma_last_told_kept(front, told);
    }
}

/// A song that is made current has been told to the controllers just
/// before: after the telling, the pointing of the backend and the
/// notifications, the controllers know the current song.
proof fn lemma_adopted_in_tune(
    pre: PlayerView,
    lead: Seq<EffectView>,
    commands: Seq<EffectView>,
    last: Step,
    state: PlaybackState,
    resumes: bool,
    told: Option<SongView>,
)
    requires
        pre.queue.wf(),
        pre.queue.current is Some,
        forall|k: int| 0 <= k < lead.len() ==> !((#[trigger] lead[k]) is SetSong) && lead[k]
            != EffectView::SetPlaybackState(PlaybackState::Playing),
        forall|k: int| 0 <= k < commands.len() ==> (#[trigger] commands[k]) is Backend,
        last == if resumes {
            pre.adopted().announce(state)
        } else {
            pre.adopted().idle()
        },
    ensures
        playing_is_in_tune(
            Step {
                player: last.player,
                effects: lead + (seq![EffectView::SetSong(pre.queue.current_song()->0)] + commands)
                    + notify(song_properties()) + last.effects,
            },
            told,
        ),
        in_tune(
            last.player,
            last_told(
                lead + (seq![EffectView::SetSong(pre.queue.current_song()->0)] + commands)
                    + notify(song_properties()) + last.effects,
                told,
            ),
        ),
{
    let song = pre.queue.current_song()->0;
    let adopted = pre.adopted();
    let front = lead + (seq![EffectView::SetSong(song)] + commands) + notify(song_properties());
    let effects = front + last.effects;
    let known = Some(song);
    assert(adopted.state.current_song is Some);
    assert(adopted.state.current_song->0.data == song.data);

    lemma_last_told_joined(lead, seq![EffectView::SetSong(song)] + commands, told);
    lemma_last_told_joined(seq![EffectView::SetSong(song)], commands, last_told(lead, told));
    assert(seq![EffectView::SetSong(song)].last() == EffectView::SetSong(song));
    lemma_last_told_kept(commands, known);
    lemma_last_told_joined(
        lead + (seq![EffectView::SetSong(song)] + commands),
        notify(song_properties()),
        told,
    );
    lemma_last_told_kept(notify(song_properties()), known);
    assert(last_told(front, told) == known);
    lemma_last_told_joined(front, last.effects, told);
    if resumes {
        lemma_announce_in_tune(adopted, state, known);
    }
    assert forall|k: int|
        0 <= k < effects.len() && #[trigger] effects[k] == EffectView::SetPlaybackState(
            PlaybackState::Playing,
        ) implies last.player.state.current_song is Some && in_tune(
        last.player,
        last_told(effects.take(k), told),
    ) by {
        let a = lead.len() as int;
        let b = a + 1 + commands.len();
        let c = front.len() as int;
        if k < a {
            assert(effects[k] == lead[k]);
        } else if k == a {
        } else if k < b {
            assert(effects[k] == commands[k - a - 1]);
        } else if k < c {
            assert(effects[k] == notify(song_properties())[k - b]);
        } else {
            assert(effects[k] == last.effects[k - c]);
            assert(effects.take(k) =~= front + last.effects.take(k - c));
            lemma_last_told_joined(front, last.effects.take(k - c), told);
        }
    }
}

/// Whatever is asked of the player, a controller hears of playing only for
/// the song it was told of last: the telling of a song always comes before
/// the song is played. `told` is the song that the controllers were told
/// of last before the request. With it the controllers know the current
/// song, and so they do after the request, with the song told last then.
pub proof fn lemma_playing_is_in_tune(
    pre: PlayerView,
    told: Option<SongView>,
    state: PlaybackState,
    pos: u32,
)
    requires
        pre.wf(),
        in_tune(pre, told),
    ensures
        playing_is_in_tune(pre.set_playback_state(state), told),
        in_tune(
            pre.set_playback_state(state).player,
            last_told(pre.set_playback_state(state).effects, told),
        ),
        playing_is_in_tune(pre.skip_next(), told),
        in_tune(pre.skip_next().player, last_told(pre.skip_next().effects, told)),
        playing_is_in_tune(pre.skip_previous(), told),
        in_tune(pre.skip_previous().player, last_told(pre.skip_previous().effects, told)),
        playing_is_in_tune(pre.skip_to(pos), told),
        in_tune(pre.skip_to(pos).player, last_told(pre.skip_to(pos).effects, told)),
{
    if pre.state.current_song is Some {
        lemma_announce_in_tune(pre, state, told);
    } else {
        match pre.queue.next_index() {
            Some(i) => {
                let pointed = pre.pointed_at(Some(i));
                let song = pointed.queue.current_song()->0;
                let commands = seq![
                    EffectView::Backend(BackendCommandView::SetUri(Some(song.data.uri))),
                ];
                lemma_adopted_in_tune(
                    pointed,
                    Seq::empty(),
                    commands,
                    pointed.adopted().announce(state),
                    state,
                    true,
                    told,
                );
                assert(Seq::<EffectView>::empty() + (seq![EffectView::SetSong(song)] + commands)
                    + notify(song_properties()) + pointed.adopted().announce(state).effects
                    =~= pre.set_playback_state(state).effects);
            },
            None => {
                lemma_end_in_tune(pre, pre.set_playback_state(state).effects, told);
            },
        }
    }
    let unmarked = pre.marked(false);
    lemma_end_in_tune(unmarked, unmarked.end_of_playback().effects, told);
    if pre.queue.songs.len() > 0 {
        match unmarked.queue.next_index() {
            Some(i) => lemma_swap_in_in_tune(unmarked.pointed_at(Some(i)), told),
            None => {},
        }
        match pre.queue.current {
            Some(c) => {
                if c > 0 {
                    lemma_swap_in_in_tune(unmarked.pointed_at(Some((c - 1) as u32)), told);
                }
            },
            None => {},
        }
        if pos < pre.queue.songs.len() {
            lemma_swap_in_in_tune(unmarked.pointed_at(Some(pos)), told);
        }
        if pre.state.current_song is Some && pre.state.position >= 10 {
            let seek = seq![EffectView::Backend(BackendCommandView::Seek(0))];
            lemma_last_told_kept(seek, told);
        }
    }
}

/// Effects that end playback tell of no song and of no playing.
proof fn lemma_end_in_tune(pre: PlayerView, effects: Seq<EffectView>, told: Option<SongView>)
    requires
        effects == pre.end_of_playback().effects || effects == seq![
            EffectView::Backend(BackendCommandView::SetUri(None)),
        ] + notify(song_properties()) + notify(
            pre.state.playback_state_properties(PlaybackState::Stopped),
        ) + seq![EffectView::SetPlaybackState(PlaybackState::Stopped)],
    ensures
        forall|k: int|
            0 <= k < effects.len() ==> (#[trigger] effects[k]) != EffectView::SetPlaybackState(
                PlaybackState::Playing,
            ),
        last_told(effects, told) == told,
{
    let props = notify(pre.state.playback_state_properties(PlaybackState::Stopped));
    assert forall|k: int| 0 <= k < effects.len() implies !((#[trigger] effects[k]) is SetSong)
        && effects[k] != EffectView::SetPlaybackState(PlaybackState::Playing) by {
        if 1 <= k < 8 {
            assert(effects[k] == notify(song_properties())[k - 1]);
        } else if 8 <= k < 8 + props.len() {
            assert(effects[k] == props[k - 8]);
        }
    }
    lemma_last_told_kept(effects, told);
}

proof fn lemma_swap_in_in_tune(pre: PlayerView, told: Option<SongView>)
    requires
        pre.queue.wf(),
        pre.queue.current is Some,
    ensures
        playing_is_in_tune(pre.swap_in(), told),
        in_tune(pre.swap_in().player, last_told(pre.swap_in().effects, told)),
{
    let was_playing = pre.state.playing();
    let paused = if was_playing {
        pre.announce(PlaybackState::Paused)
    } else {
        pre.idle()
    };
    let song = pre.queue.current_song()->0;
    let commands = seq![
        EffectView::Backend(BackendCommandView::SetUri(Some(song.data.uri))),
        EffectView::Backend(BackendCommandView::Seek(0)),
    ];
    let resumed = if was_playing {
        paused.player.adopted().announce(PlaybackState::Playing)
    } else {
        paused.player.adopted().idle()
    };
    let props = notify(pre.state.playback_state_properties(PlaybackState::Paused));
    assert forall|k: int| 0 <= k < paused.effects.len() implies !((#[trigger] paused.effects[k])
        is SetSong) && paused.effects[k] != EffectView::SetPlaybackState(
        PlaybackState::Playing,
    ) by {
        if k < props.len() {
            assert(paused.effects[k] == props[k]);
        }
    }
    lemma_adopted_in_tune(
        paused.player,
        paused.effects,
        commands,
        resumed,
        PlaybackState::Playing,
        was_playing,
        told,
    );
    assert(paused.effects + (seq![EffectView::SetSong(song)] + commands) + notify(
        song_properties(),
    ) + resumed.effects =~= pre.swap_in().effects);
}

/// The same holds of every message that reaches the player: whatever the
/// message, playing is told for the song told last, and the controllers
/// know the current song afterwards.
pub proof fn lemma_messages_are_in_tune(
    pre: PlayerView,
    told: Option<SongView>,
    action: PlaybackAction,
)
    requires
        pre.wf(),
        in_tune(pre, told),
    ensures
        playing_is_in_tune(pre.process_action(action), told),
        in_tune(
            pre.process_action(action).player,
            last_told(pre.process_action(action).effects, told),
        ),
{
    let step = pre.process_action(action);
    match action {
        PlaybackAction::Play => lemma_playing_is_in_tune(pre, told, PlaybackState::Playing, 0),
        PlaybackAction::Pause => lemma_playing_is_in_tune(pre, told, PlaybackState::Paused, 0),
        PlaybackAction::Stop => lemma_playing_is_in_tune(pre, told, PlaybackState::Stopped, 0),
        PlaybackAction::SkipPrevious | PlaybackAction::SkipNext | PlaybackAction::PlayNext => {
            lemma_playing_is_in_tune(pre, told, PlaybackState::Stopped, 0)
        },
        PlaybackAction::VolumeChanged(volume) => {
            let props = notify(pre.state.volume_properties(volume));
            assert forall|k: int| 0 <= k < props.len() implies !((#[trigger] props[k])
                is SetSong) && !(props[k] is SetPlaybackState) by {}
            lemma_last_told_kept(step.effects, told);
        },
        _ => {
            lemma_last_told_kept(step.effects, told);
        },
    }
}

fn no_effects() -> (effects: Vec<Effect>)
    ensures
        effects_view(effects@) == Seq::<EffectView>::empty(),
{
    let effects: Vec<Effect> = Vec::new();
    assert(effects_view(effects@) =~= Seq::<EffectView>::empty());
    effects
}

} // verus!
