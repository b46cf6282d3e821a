//! The play queue: an ordered list of songs, a pointer to the current one,
//! the repeat mode and an optional shuffle.

use crate::playback::RepeatMode;
use crate::shuffle::{is_anchored_shuffle, is_permutation, shown_at, ShuffleListModel};
use crate::song::{
    is_invalid, lemma_same_song_reflexive_symmetric, same_song, Song, SongDataView, SongView,
};
use vstd::prelude::*;

verus! {

/// The views of a list of songs.
pub open spec fn songs_view(songs: Seq<Song>) -> Seq<SongView> {
    songs.map_values(|s: Song| s@)
}

/// The view of an optional song.
pub open spec fn song_view(song: Option<Song>) -> Option<SongView> {
    match song {
        Some(s) => Some(s@),
        None => None,
    }
}

/// What a queue holds. `songs` is the list as the songs were added; the
/// order in which the queue presents them is `songs` seen through `shuffle`,
/// and every position that the operations take or return counts in that
/// presented order.
pub struct QueueView {
    pub songs: Seq<SongView>,
    pub shuffle: Option<Seq<u32>>,
    pub repeat_mode: RepeatMode,
    pub current: Option<u32>,
}

impl QueueView {
    /// The current position, where there is one, is a position of the
    /// queue, and the shuffle, where there is one, is a permutation that
    /// covers no more than the queue.
    pub open spec fn wf(self) -> bool {
        &&& self.songs.len() <= u32::MAX
        &&& match self.shuffle {
            Some(p) => p.len() <= self.songs.len() && is_permutation(p),
            None => true,
        }
        &&& match self.current {
            Some(c) => c < self.songs.len(),
            None => true,
        }
    }

    /// The place in `songs` of the song presented at `pos`.
    #[verifier::inline]
    pub open spec fn place(self, pos: u32) -> int {
        shown_at(self.shuffle, pos) as int
    }

    /// The song presented at `pos`.
    pub open spec fn song_at(self, pos: u32) -> Option<SongView> {
        if pos < self.songs.len() {
            Some(self.songs[self.place(pos)])
        } else {
            None
        }
    }

    pub open spec fn current_song(self) -> Option<SongView> {
        match self.current {
            Some(c) => self.song_at(c),
            None => None,
        }
    }

    /// Where `next_song` moves the pointer.
    pub open spec fn next_index(self) -> Option<u32> {
        if self.songs.len() == 0 {
            None
        } else {
            match self.current {
                None => Some(0u32),
                Some(c) => match self.repeat_mode {
                    RepeatMode::Consecutive => if c + 1 < self.songs.len() {
                        Some((c + 1) as u32)
                    } else {
                        None
                    },
                    RepeatMode::RepeatOne => Some(c),
                    RepeatMode::RepeatAll => if c + 1 < self.songs.len() {
                        Some((c + 1) as u32)
                    } else {
                        Some(0u32)
                    },
                },
            }
        }
    }

    /// The queue after one `next_song`.
    pub open spec fn after_next(self) -> QueueView {
        QueueView { current: self.next_index(), ..self }
    }

    /// The queue after `k` calls of `next_song`.
    pub open spec fn advanced(self, k: nat) -> QueueView
        decreases k,
    {
        if k == 0 {
            self
        } else {
            self.advanced((k - 1) as nat).after_next()
        }
    }

    /// `pos` presents the first song, in presented order, that is the same
    /// song as `data`.
    pub open spec fn is_first_shown(self, data: SongDataView, pos: u32) -> bool {
        &&& pos < self.songs.len()
        &&& same_song(self.songs[self.place(pos)].data, data)
        &&& forall|j: u32| j < pos ==> !same_song((#[trigger] self.songs[self.place(j)]).data, data)
    }

    /// `place` holds the first song, in the order of adding, that is the
    /// same song as `data`.
    pub open spec fn is_first_stored(self, data: SongDataView, place: int) -> bool {
        &&& 0 <= place < self.songs.len()
        &&& same_song(self.songs[place].data, data)
        &&& forall|j: int| 0 <= j < place ==> !same_song((#[trigger] self.songs[j]).data, data)
    }

    /// Whether some song of the queue is the same song as `data`.
    pub open spec fn holds(self, data: SongDataView) -> bool {
        exists|j: int| 0 <= j < self.songs.len() && same_song((#[trigger] self.songs[j]).data, data)
    }

    /// Whether the queue presents a song that is the same song as `data`.
    pub open spec fn shows(self, data: SongDataView) -> bool {
        exists|pos: u32|
            pos < self.songs.len() && same_song(
                (#[trigger] self.songs[self.place(pos)]).data,
                data,
            )
    }

    /// The songs in the order in which the queue presents them.
    pub open spec fn presented(self) -> Seq<SongView> {
        Seq::new(self.songs.len(), |pos: int| self.songs[self.place(pos as u32)])
    }

    /// How many songs are selected.
    pub open spec fn n_selected(self) -> nat {
        self.songs.filter(|s: SongView| s.selected).len()
    }

    /// The queue after the song stored at `place` has left it. The songs
    /// behind it move up by one. A shuffled queue is shuffled anew with its
    /// first stored song kept first. The pointer follows the song it was on,
    /// and is cleared if that song is the one that left.
    pub open spec fn removed_at(self, place: int, post: QueueView) -> bool {
        &&& post.songs == self.songs.remove(place)
        &&& post.repeat_mode == self.repeat_mode
        &&& match self.shuffle {
            Some(_) => post.shuffle is Some && is_anchored_shuffle(
                post.shuffle->0,
                post.songs.len(),
                0,
            ),
            None => post.shuffle is None,
        }
        &&& match self.current {
            Some(c) => if self.place(c) == place {
                post.current is None
            } else {
                &&& post.current is Some
                &&& post.current->0 < post.songs.len()
                &&& post.place(post.current->0) == if self.place(c) > place {
                    self.place(c) - 1
                } else {
                    self.place(c)
                }
            },
            None => post.current is None,
        }
    }

    /// The queue after shuffling was switched on or off. Switching it on
    /// draws an order anchored at the current position (at the first one
    /// where no song is current) and leaves the pointer alone. Switching it
    /// off restores the order of adding and points at the first song there
    /// that is the same song as the one that was current.
    pub open spec fn shuffle_set(self, shuffled: bool, post: QueueView) -> bool {
        if shuffled == (self.shuffle is Some) {
            post == self
        } else if shuffled {
            &&& post.songs == self.songs
            &&& post.repeat_mode == self.repeat_mode
            &&& post.current == self.current
            &&& post.shuffle is Some
            &&& is_anchored_shuffle(
                post.shuffle->0,
                self.songs.len(),
                match self.current {
                    Some(c) => c as nat,
                    None => 0,
                },
            )
        } else {
            &&& post.songs == self.songs
            &&& post.repeat_mode == self.repeat_mode
            &&& post.shuffle is None
            &&& match self.current {
                Some(c) => post.current is Some && post.is_first_shown(
                    self.songs[self.place(c)].data,
                    post.current->0,
                ),
                None => post.current is None,
            }
        }
    }
}

/// A song with its selection mark set as given.
pub open spec fn with_selected(song: SongView, selected: bool) -> SongView {
    SongView { selected, ..song }
}

/// A song with its playing mark set as given.
pub open spec fn with_playing(song: SongView, playing: bool) -> SongView {
    SongView { playing, ..song }
}

/// The play queue.
#[derive(Debug)]
pub struct Queue {
    model: ShuffleListModel,
    store: Vec<Song>,
    repeat_mode: RepeatMode,
    current_pos: Option<u32>,
}

impl View for Queue {
    type V = QueueView;

    closed spec fn view(&self) -> QueueView {
        QueueView {
            songs: songs_view(self.store@),
            shuffle: self.model@,
            repeat_mode: self.repeat_mode,
            current: self.current_pos,
        }
    }
}

impl Default for Queue {
    fn default() -> (res: Self)
        ensures
            res.wf(),
            res@ == (QueueView {
                songs: Seq::empty(),
                shuffle: None,
                repeat_mode: RepeatMode::Consecutive,
                current: None,
            }),
    {
        Queue::new()
    }
}

impl Queue {
    pub open spec fn wf(&self) -> bool {
        self@.wf()
    }

    /// An empty queue, played consecutively and not shuffled.
    pub fn new() -> (res: Queue)
        ensures
            res.wf(),
            res@ == (QueueView {
                songs: Seq::empty(),
                shuffle: None,
                repeat_mode: RepeatMode::Consecutive,
                current: None,
            }),
    {
        let res = Queue {
            model: ShuffleListModel::new(),
            store: Vec::new(),
            repeat_mode: RepeatMode::Consecutive,
            current_pos: None,
        };
        assert(res@.songs =~= Seq::empty());
        res
    }

    pub fn n_songs(&self) -> (res: u32)
        requires
            self.wf(),
        ensures
            res == self@.songs.len(),
    {
        self.store.len() as u32
    }

    pub fn is_empty(&self) -> (res: bool)
        ensures
            res == (self@.songs.len() == 0),
    {
        self.store.len() == 0
    }

    /// The song presented at `pos`, if the queue is that long.
    pub fn song_at(&self, pos: u32) -> (res: Option<Song>)
        requires
            self.wf(),
        ensures
            song_view(res) == self@.song_at(pos),
    {
        if (pos as usize) < self.store.len() {
            let place = self.model.item(pos);
            Some(self.store[place as usize].clone())
        } else {
            None
        }
    }

    /// The songs of the queue, in the order in which the queue presents
    /// them.
    pub fn model(&self) -> (res: Vec<Song>)
        requires
            self.wf(),
        ensures
            songs_view(res@) == self@.presented(),
    {
        let n = self.n_songs();
        let mut songs: Vec<Song> = Vec::new();
        let mut pos: u32 = 0;
        while pos < n
            invariant
                self.wf(),
                n == self@.songs.len(),
                pos <= n,
                songs_view(songs@) == self@.presented().take(pos as int),
            decreases n - pos,
        {
            let place = self.model.item(pos);
            let ghost before = songs_view(songs@);
            songs.push(self.store[place as usize].clone());
            assert(songs_view(songs@) =~= before.push(self@.songs[self@.place(pos)]));
            assert(songs_view(songs@) =~= self@.presented().take(pos + 1));
            pos += 1;
        }
        assert(self@.presented().take(n as int) =~= self@.presented());
        songs
    }

    pub fn current_song(&self) -> (res: Option<Song>)
        requires
            self.wf(),
        ensures
            song_view(res) == self@.current_song(),
    {
        match self.current_pos {
            Some(pos) => self.song_at(pos),
            None => None,
        }
    }

    pub fn current_song_index(&self) -> (res: Option<u32>)
        ensures
            res == self@.current,
    {
        self.current_pos
    }

    pub fn repeat_mode(&self) -> (res: RepeatMode)
        ensures
            res == self@.repeat_mode,
    {
        self.repeat_mode
    }

    /// Sets the repeat mode. Returns whether the mode changed.
    pub fn set_repeat_mode(&mut self, repeat_mode: RepeatMode) -> (changed: bool)
        ensures
            final(self)@ == (QueueView { repeat_mode, ..old(self)@ }),
            changed == (old(self)@.repeat_mode != repeat_mode),
    {
        let old_mode = self.repeat_mode;
        self.repeat_mode = repeat_mode;
        old_mode != repeat_mode
    }

    pub fn is_first_song(&self) -> (res: bool)
        ensures
            res == (self@.current == Some(0u32)),
    {
        match self.current_pos {
            Some(pos) => pos == 0,
            None => false,
        }
    }

    pub fn is_last_song(&self) -> (res: bool)
        ensures
            res == (self@.current is Some && self@.current->0 + 1 == self@.songs.len()),
    {
        match self.current_pos {
            Some(pos) => self.store.len() > 0 && pos as usize == self.store.len() - 1,
            None => false,
        }
    }

    pub fn is_shuffled(&self) -> (res: bool)
        ensures
            res == (self@.shuffle is Some),
    {
        self.model.shuffled()
    }

    /// Moves to the song that follows the current one under the repeat
    /// mode, or to the first song where none is current, and returns it.
    /// Past the last song of a queue played consecutively there is none:
    /// the pointer is cleared.
    pub fn next_song(&mut self) -> (res: Option<Song>)
        requires
            old(self).wf(),
        ensures
            final(self).wf(),
            final(self)@ == (QueueView { current: old(self)@.next_index(), ..old(self)@ }),
            song_view(res) == final(self)@.current_song(),
    {
        let n_songs = self.n_songs();
        if n_songs == 0 {
            return None;
        }
        let next: Option<u32> = match self.current_pos {
            Some(current) => match self.repeat_mode {
                RepeatMode::Consecutive => if current < n_songs - 1 {
                    Some(current + 1)
                } else {
                    None
                },
                RepeatMode::RepeatOne => Some(current),
                RepeatMode::RepeatAll => if current < n_songs - 1 {
                    Some(current + 1)
                } else {
                    Some(0)
                },
            },
            None => Some(0),
        };
        self.current_pos = next;
        self.current_song()
    }

    /// Moves to the song before the current one and returns it. Where no
    /// song is current, or the first one is, nothing moves.
    pub fn previous_song(&mut self) -> (res: Option<Song>)
        requires
            old(self).wf(),
        ensures
            final(self).wf(),
            match old(self)@.current {
                Some(c) if c > 0 => {
                    &&& final(self)@ == (QueueView { current: Some((c - 1) as u32), ..old(self)@ })
                    &&& song_view(res) == final(self)@.current_song()
                },
                _ => final(self)@ == old(self)@ && res is None,
            },
    {
        match self.current_pos {
            Some(current) => if current > 0 {
                self.current_pos = Some(current - 1);
                self.current_song()
            } else {
                None
            },
            None => None,
        }
    }

    /// Jumps to the song presented at `pos`, whatever the repeat mode, and
    /// returns it. A position past the end leaves no song current.
    pub fn skip_song(&mut self, pos: u32) -> (res: Option<Song>)
        requires
            old(self).wf(),
        ensures
            final(self).wf(),
            final(self)@ == (QueueView {
                current: if pos < old(self)@.songs.len() {
                    Some(pos)
                } else {
                    None
                },
                ..old(self)@
            }),
            song_view(res) == final(self)@.current_song(),
    {
        if (pos as usize) < self.store.len() {
            self.current_pos = Some(pos);
        } else {
            self.current_pos = None;
        }
        self.current_song()
    }

    /// Appends a song, unless it stands for an unreadable file. Returns
    /// whether the song was taken.
    pub fn add_song(&mut self, song: &Song) -> (added: bool)
        requires
            old(self).wf(),
            old(self)@.songs.len() < u32::MAX,
        ensures
            final(self).wf(),
            added == !is_invalid(song@.data),
            added ==> final(self)@ == (QueueView {
                songs: old(self)@.songs.push(song@),
                ..old(self)@
            }),
            !added ==> final(self)@ == old(self)@,
    {
        if !song.is_invalid() {
            self.store.push(song.clone());
            assert(final(self)@.songs =~= old(self)@.songs.push(song@));
            true
        } else {
            false
        }
    }

    /// Appends every song of `songs`, in order.
    pub fn add_songs(&mut self, songs: &Vec<Song>)
        requires
            old(self).wf(),
            old(self)@.songs.len() + songs@.len() <= u32::MAX,
        ensures
            final(self).wf(),
            final(self)@ == (QueueView {
                songs: old(self)@.songs + songs_view(songs@),
                ..old(self)@
            }),
    {
        let mut i: usize = 0;
        while i < songs.len()
            invariant
                i <= songs.len(),
                old(self)@.songs.len() + songs@.len() <= u32::MAX,
                self@ == (QueueView {
                    songs: old(self)@.songs + songs_view(songs@.take(i as int)),
                    ..old(self)@
                }),
            decreases songs.len() - i,
        {
            let ghost before = self@.songs;
            self.store.push(songs[i].clone());
            assert(self@.songs =~= before.push(songs@[i as int]@));
            assert(songs_view(songs@.take(i + 1)) =~= songs_view(songs@.take(i as int)).push(
                songs@[i as int]@,
            ));
            assert(self@.songs =~= old(self)@.songs + songs_view(songs@.take(i + 1)));
            i += 1;
        }
        assert(songs@.take(i as int) =~= songs@);
    }

    /// Empties the queue. No song is current afterwards; the repeat mode
    /// stays, and a shuffled queue stays shuffled.
    pub fn clear(&mut self)
        requires
            old(self).wf(),
        ensures
            final(self).wf(),
            final(self)@ == (QueueView {
                songs: Seq::empty(),
                shuffle: if old(self)@.shuffle is Some {
                    Some(Seq::empty())
                } else {
                    None
                },
                current: None,
                ..old(self)@
            }),
    {
        self.current_pos = None;
        self.store.clear();
        if self.model.shuffled() {
            self.model.reshuffle(0, 0);
            assert(self@.shuffle->0 =~= Seq::empty());
        }
        assert(self@.songs =~= Seq::empty());
    }
}

impl Queue {
    /// The position that presents the song stored at `place`.
    fn position_of(&self, place: u32) -> (pos: u32)
        requires
            self.wf(),
            place < self@.songs.len(),
        ensures
            pos < self@.songs.len(),
            self@.place(pos) == place,
    {
        let n = self.n_songs();
        let mut pos: u32 = 0;
        while pos < n && self.model.item(pos) != place
            invariant
                self.wf(),
                n == self@.songs.len(),
                place < n,
                pos <= n,
                forall|j: u32| j < pos ==> self@.place(j) != place,
            decreases n - pos,
        {
            pos += 1;
        }
        proof {
            if pos == n {
                match self@.shuffle {
                    Some(p) => {
                        if place < p.len() {
                            assert(p.contains(place));
                            let k = choose|k: int| 0 <= k < p.len() && p[k] == place;
                            assert(self@.place(k as u32) == place);
                        } else {
                            assert(self@.place(place) == place);
                        }
                    },
                    None => {
                        assert(self@.place(place) == place);
                    },
                }
            }
        }
        pos
    }

    /// Where the queue stores the first song that is the same song as
    /// `song`, counting in the order of adding.
    pub fn first_stored(&self, song: &Song) -> (res: Option<u32>)
        requires
            self.wf(),
        ensures
            match res {
                Some(place) => self@.is_first_stored(song@.data, place as int),
                None => !self@.holds(song@.data),
            },
    {
        let n = self.n_songs();
        let mut place: u32 = 0;
        while place < n
            invariant
                self.wf(),
                n == self@.songs.len(),
                place <= n,
                forall|j: int|
                    0 <= j < place ==> !same_song((#[trigger] self@.songs[j]).data, song@.data),
            decreases n - place,
        {
            proof {
                lemma_same_song_reflexive_symmetric(self@.songs[place as int].data, song@.data);
            }
            if self.store[place as usize].equals(song) {
                return Some(place);
            }
            place += 1;
        }
        None
    }

    /// Where the queue stores the song it points at, counting in the order
    /// of adding.
    pub fn current_place(&self) -> (res: Option<u32>)
        requires
            self.wf(),
        ensures
            res == match self@.current {
                Some(c) => Some(self@.place(c) as u32),
                None => None,
            },
    {
        match self.current_pos {
            Some(c) => Some(self.model.item(c)),
            None => None,
        }
    }

    /// Whether the queue holds a song that is the same song as `song`.
    pub fn contains(&self, song: &Song) -> (res: bool)
        ensures
            res == self@.holds(song@.data),
    {
        let mut i: usize = 0;
        while i < self.store.len()
            invariant
                i <= self.store.len(),
                forall|j: int| 0 <= j < i ==> !same_song((#[trigger] self@.songs[j]).data, song@.data),
            decreases self.store.len() - i,
        {
            if self.store[i].equals(song) {
                assert(same_song(self@.songs[i as int].data, song@.data)) by {
                    lemma_same_song_reflexive_symmetric(self@.songs[i as int].data, song@.data);
                }
                return true;
            }
            proof {
                lemma_same_song_reflexive_symmetric(self@.songs[i as int].data, song@.data);
            }
            i += 1;
        }
        false
    }

    /// Points the queue at the first song it presents that is the same song
    /// as `song`; a song that the queue does not present leaves the pointer
    /// where it is. `None` clears the pointer.
    pub fn set_current_song(&mut self, song: Option<&Song>)
        requires
            old(self).wf(),
        ensures
            final(self).wf(),
            final(self)@ == (QueueView { current: final(self)@.current, ..old(self)@ }),
            match song {
                Some(s) => if old(self)@.shows(s@.data) {
                    final(self)@.current is Some && old(self)@.is_first_shown(
                        s@.data,
                        final(self)@.current->0,
                    )
                } else {
                    final(self)@.current == old(self)@.current
                },
                None => final(self)@.current is None,
            },
    {
        match song {
            Some(wanted) => {
                let found = self.first_shown(wanted);
                match found {
                    Some(pos) => {
                        self.current_pos = Some(pos);
                    },
                    None => {},
                }
            },
            None => {
                self.current_pos = None;
            },
        }
    }

    /// The first position that presents a song that is the same song as
    /// `song`.
    fn first_shown(&self, song: &Song) -> (res: Option<u32>)
        requires
            self.wf(),
        ensures
            match res {
                Some(pos) => self@.shows(song@.data) && self@.is_first_shown(song@.data, pos),
                None => !self@.shows(song@.data),
            },
    {
        let n = self.n_songs();
        let mut i: u32 = 0;
        while i < n
            invariant
                self.wf(),
                n == self@.songs.len(),
                i <= n,
                forall|j: u32|
                    j < i ==> !same_song((#[trigger] self@.songs[self@.place(j)]).data, song@.data),
            decreases n - i,
        {
            let place = self.model.item(i);
            proof {
                lemma_same_song_reflexive_symmetric(self@.songs[place as int].data, song@.data);
            }
            if song.equals(&self.store[place as usize]) {
                assert(same_song(self@.songs[self@.place(i)].data, song@.data));
                return Some(i);
            }
            i += 1;
        }
        None
    }

    /// Takes out of the queue the first song, in the order of adding, that
    /// is the same song as `song`. A queue that holds no such song is left
    /// as it is.
    pub fn remove_song(&mut self, song: &Song)
        requires
            old(self).wf(),
        ensures
            final(self).wf(),
            !old(self)@.holds(song@.data) ==> final(self)@ == old(self)@,
            forall|place: int|
                old(self)@.is_first_stored(song@.data, place) ==> old(self)@.removed_at(
                    place,
                    final(self)@,
                ),
    {
        let place = match self.first_stored(song) {
            Some(place) => place,
            None => {
                return ;
            },
        };
        let n = self.n_songs();
        let kept: Option<u32> = match self.current_pos {
            Some(c) => {
                let at = self.model.item(c);
                if at == place {
                    None
                } else if at > place {
                    Some(at - 1)
                } else {
                    Some(at)
                }
            },
            None => None,
        };
        self.current_pos = None;
        self.store.remove(place as usize);
        assert(self@.songs =~= old(self)@.songs.remove(place as int));
        if self.model.shuffled() {
            self.model.reshuffle(n - 1, 0);
        }
        match kept {
            Some(at) => {
                let pos = self.position_of(at);
                self.current_pos = Some(pos);
            },
            None => {},
        }
    }

    /// Switches shuffling on or off.
    pub fn set_shuffled(&mut self, shuffled: bool)
        requires
            old(self).wf(),
        ensures
            final(self).wf(),
            old(self)@.shuffle_set(shuffled, final(self)@),
    {
        if shuffled != self.model.shuffled() {
            if shuffled {
                let anchor = match self.current_pos {
                    Some(c) => c,
                    None => 0,
                };
                let n = self.n_songs();
                self.model.reshuffle(n, anchor);
            } else {
                match self.current_pos {
                    Some(c) => {
                        let at = self.model.item(c);
                        let song = self.store[at as usize].clone();
                        self.model.unshuffle();
                        proof {
                            assert(self@.place(at) == at);
                            assert(same_song(self@.songs[self@.place(at)].data, song@.data));
                            assert(self@.shows(song@.data));
                        }
                        self.set_current_song(Some(&song));
                    },
                    None => {
                        self.model.unshuffle();
                    },
                }
            }
        }
    }

    /// Flips the selection mark of the song presented at `index`. An index
    /// past the end changes nothing.
    pub fn select_song_at(&mut self, index: u32)
        requires
            old(self).wf(),
        ensures
            final(self).wf(),
            final(self)@ == (QueueView {
                songs: if index < old(self)@.songs.len() {
                    old(self)@.songs.update(
                        old(self)@.place(index),
                        with_selected(
                            old(self)@.songs[old(self)@.place(index)],
                            !old(self)@.songs[old(self)@.place(index)].selected,
                        ),
                    )
                } else {
                    old(self)@.songs
                },
                ..old(self)@
            }),
    {
        if (index as usize) < self.store.len() {
            let place = self.model.item(index) as usize;
            let mut song = self.store[place].clone();
            let is_selected = !song.selected();
            song.set_selected(is_selected);
            self.store.set(place, song);
            assert(self@.songs =~= old(self)@.songs.update(
                old(self)@.place(index),
                with_selected(
                    old(self)@.songs[old(self)@.place(index)],
                    !old(self)@.songs[old(self)@.place(index)].selected,
                ),
            ));
        }
    }

    /// Sets or clears the playing mark of the song presented at `index`. An
    /// index past the end changes nothing.
    pub fn set_playing_at(&mut self, index: u32, playing: bool)
        requires
            old(self).wf(),
        ensures
            final(self).wf(),
            final(self)@ == (QueueView {
                songs: if index < old(self)@.songs.len() {
                    old(self)@.songs.update(
                        old(self)@.place(index),
                        with_playing(old(self)@.songs[old(self)@.place(index)], playing),
                    )
                } else {
                    old(self)@.songs
                },
                ..old(self)@
            }),
    {
        if (index as usize) < self.store.len() {
            let place = self.model.item(index) as usize;
            let mut song = self.store[place].clone();
            song.set_playing(playing);
            self.store.set(place, song);
            assert(self@.songs =~= old(self)@.songs.update(
                old(self)@.place(index),
                with_playing(old(self)@.songs[old(self)@.place(index)], playing),
            ));
        }
    }

    /// Clears the selection mark of every song.
    pub fn unselect_all_songs(&mut self)
        requires
            old(self).wf(),
        ensures
            final(self).wf(),
            final(self)@ == (QueueView {
                songs: old(self)@.songs.map_values(|s: SongView| with_selected(s, false)),
                ..old(self)@
            }),
    {
        let n = self.store.len();
        let mut i: usize = 0;
        while i < n
            invariant
                n == self.store.len(),
                i <= n,
                self@.songs.len() == old(self)@.songs.len(),
                self@ == (QueueView { songs: self@.songs, ..old(self)@ }),
                forall|j: int| 0 <= j < i ==> self@.songs[j] == with_selected(old(self)@.songs[j], false),
                forall|j: int| i <= j < n ==> self@.songs[j] == old(self)@.songs[j],
            decreases n - i,
        {
            let ghost before = self@.songs;
            let mut song = self.store[i].clone();
            song.set_selected(false);
            self.store.set(i, song);
            assert(self@.songs =~= before.update(i as int, with_selected(before[i as int], false)));
            i += 1;
        }
        assert(self@.songs =~= old(self)@.songs.map_values(|s: SongView| with_selected(s, false)));
    }

    /// How many songs are selected.
    pub fn n_selected_songs(&self) -> (res: u32)
        requires
            self.wf(),
        ensures
            res == self@.n_selected(),
    {
        let ghost pred = |s: SongView| s.selected;
        let mut count: u32 = 0;
        let mut i: usize = 0;
        proof {
            assert(self@.songs.take(0) =~= Seq::empty());
            reveal_with_fuel(Seq::filter, 1);
        }
        while i < self.store.len()
            invariant
                self.wf(),
                i <= self.store.len(),
                count <= i,
                count == self@.songs.take(i as int).filter(pred).len(),
                pred == |s: SongView| s.selected,
            decreases self.store.len() - i,
        {
            proof {
                let next = self@.songs.take(i + 1);
                assert(next.drop_last() =~= self@.songs.take(i as int));
                assert(next.last() == self@.songs[i as int]);
                reveal_with_fuel(Seq::filter, 1);
            }
            if self.store[i].selected() {
                count += 1;
            }
            i += 1;
        }
        assert(self@.songs.take(i as int) =~= self@.songs);
        count
    }
}

/// Stepping once past a remainder: the remainder grows by one, or falls back
/// to zero where it was the largest there is.
proof fn lemma_mod_step(x: int, n: int)
    requires
        0 <= x,
        0 < n,
    ensures
        (x + 1) % n == if x % n + 1 < n {
            x % n + 1
        } else {
            0
        },
{
    vstd::arithmetic::div_mod::lemma_fundamental_div_mod(x, n);
    let q = x / n;
    let r = x % n;
    assert(0 <= r < n) by {
        vstd::arithmetic::div_mod::lemma_mod_bound(x, n);
    }
    if r + 1 < n {
        assert(x + 1 == q * n + (r + 1)) by (nonlinear_arith)
            requires
                x == n * q + r,
        ;
        vstd::arithmetic::div_mod::lemma_fundamental_div_mod_converse(x + 1, n, q, r + 1);
    } else {
        assert(x + 1 == (q + 1) * n + 0) by (nonlinear_arith)
            requires
                x == n * q + r,
                r + 1 == n,
        ;
        vstd::arithmetic::div_mod::lemma_fundamental_div_mod_converse(x + 1, n, q + 1, 0);
    }
}

/// Played consecutively from the start, a queue of `n` songs is walked in
/// order: the `k`-th call of `next_song` lands on position `k - 1`, for
/// every `k` up to `n`, and the call after the last song finds none and
/// leaves no song current.
pub proof fn lemma_consecutive_visits_each_once(q: QueueView, k: nat)
    requires
        q.wf(),
        q.songs.len() > 0,
        q.repeat_mode == RepeatMode::Consecutive,
        q.current is None,
        1 <= k <= q.songs.len() + 1,
    ensures
        q.advanced(k).wf(),
        q.advanced(k).songs == q.songs,
        q.advanced(k).shuffle == q.shuffle,
        q.advanced(k).repeat_mode == q.repeat_mode,
        k <= q.songs.len() ==> q.advanced(k).current == Some((k - 1) as u32),
        k <= q.songs.len() ==> q.advanced(k).current_song() == Some(
            q.songs[q.place((k - 1) as u32)],
        ),
        k == q.songs.len() + 1 ==> q.advanced(k).current is None,
    decreases k,
{
    if k > 1 {
        lemma_consecutive_visits_each_once(q, (k - 1) as nat);
    } else {
        assert(q.advanced(0) == q);
    }
}

/// Under repeat-all the pointer goes round: `k` calls of `next_song` from
/// position `c` land on position `(c + k) % n`. So the call made on the
/// last song lands on the first, and `n` calls lead back to where they
/// started.
pub proof fn lemma_repeat_all_wraps(q: QueueView, k: nat)
    requires
        q.wf(),
        q.repeat_mode == RepeatMode::RepeatAll,
        q.current is Some,
    ensures
        q.advanced(k).wf(),
        q.advanced(k).songs == q.songs,
        q.advanced(k).shuffle == q.shuffle,
        q.advanced(k).repeat_mode == q.repeat_mode,
        q.advanced(k).current == Some(((q.current->0 + k) % (q.songs.len() as int)) as u32),
        q.current->0 + 1 == q.songs.len() ==> q.after_next().current == Some(0u32),
        k == q.songs.len() ==> q.advanced(k).current == q.current,
    decreases k,
{
    let n = q.songs.len() as int;
    let c = q.current->0 as int;
    if k == 0 {
        assert(q.advanced(0) == q);
        vstd::arithmetic::div_mod::lemma_small_mod(c as nat, n as nat);
    } else {
        lemma_repeat_all_wraps(q, (k - 1) as nat);
        lemma_mod_step(c + k - 1, n);
        vstd::arithmetic::div_mod::lemma_mod_bound(c + k, n);
    }
    if k == n {
        vstd::arithmetic::div_mod::lemma_mod_add_multiples_vanish(c, n);
        vstd::arithmetic::div_mod::lemma_small_mod(c as nat, n as nat);
    }
}

/// Under repeat-one `next_song` stays on the song that is current, however
/// often it is called.
pub proof fn lemma_repeat_one_stays(q: QueueView, k: nat)
    requires
        q.wf(),
        q.repeat_mode == RepeatMode::RepeatOne,
        q.current is Some,
    ensures
        q.after_next() == q,
        q.advanced(k) == q,
    decreases k,
{
    if k > 0 {
        lemma_repeat_one_stays(q, (k - 1) as nat);
    }
}

/// Shuffling a queue and then unshuffling it gives back the order in which
/// the songs were added, and the song that was current is current again:
/// the pointer is on the first song of the queue that is the same song. It
/// is on the very position it started from where no earlier song of the
/// queue is the same song as the current one.
pub proof fn lemma_shuffle_round_trip(q: QueueView, shuffled: QueueView, restored: QueueView)
    requires
        q.wf(),
        q.shuffle is None,
        q.shuffle_set(true, shuffled),
        shuffled.shuffle_set(false, restored),
    ensures
        restored.songs == q.songs,
        restored.shuffle is None,
        restored.repeat_mode == q.repeat_mode,
        shuffled.current_song() == q.current_song(),
        q.current is None ==> restored.current is None,
        q.current is Some ==> restored.current is Some
            && restored.current->0 <= q.current->0
            && same_song(restored.current_song()->0.data, q.current_song()->0.data),
        q.current is Some && q.is_first_shown(q.current_song()->0.data, q.current->0)
            ==> restored == q,
{
    if q.current is Some {
        let c = q.current->0;
        let p = shuffled.shuffle->0;
        assert(p[c as int] == c);
        let r = restored.current->0;
        let data = q.songs[c as int].data;
        assert(restored.is_first_shown(data, r));
        if r > c {
            assert(!same_song(restored.songs[restored.place(c)].data, data));
        }
        if q.is_first_shown(data, c) {
            if r < c {
                assert(!same_song(q.songs[q.place(r)].data, data));
            }
        }
    }
}

} // verus!
