//! What the main window shows of the player beyond what it can read off
//! directly: the two time labels of the current song and the time that is
//! left of the playlist.

use crate::queue::{Queue, QueueView};
use crate::state::{PlayerState, PlayerStateView};
use crate::utils::{format_remaining_time, format_time, spec_format_remaining_time, spec_format_time};
use vstd::prelude::*;

verus! {

/// The seconds played and the seconds left of the current song; neither
/// where no song is current. A position past the end leaves nothing.
pub open spec fn spec_song_time(state: PlayerStateView) -> (Option<u64>, Option<u64>) {
    if state.current_song is Some {
        (
            Some(state.position),
            Some(
                if state.duration() >= state.position {
                    (state.duration() - state.position) as u64
                } else {
                    0u64
                },
            ),
        )
    } else {
        (None, None)
    }
}

pub fn song_time(state: &PlayerState) -> (res: (Option<u64>, Option<u64>))
    ensures
        res == spec_song_time(state@),
{
    if state.has_current_song() {
        let elapsed = state.position();
        let duration = state.duration();
        let remaining = if duration >= elapsed {
            duration - elapsed
        } else {
            0
        };
        (Some(elapsed), Some(remaining))
    } else {
        (None, None)
    }
}

/// The wording of the two time labels: the time played, and the time left
/// with a minus sign in front; "0:00" for a time that is not there.
pub open spec fn spec_song_time_labels(elapsed: Option<u64>, remaining: Option<u64>) -> (
    Seq<char>,
    Seq<char>,
) {
    (
        match elapsed {
            Some(t) => spec_format_time((t as i64) as int),
            None => "0:00"@,
        },
        match remaining {
            Some(t) => spec_format_remaining_time((t as i64) as int),
            None => "0:00"@,
        },
    )
}

/// Words the two time labels.
pub fn set_song_time(elapsed: Option<u64>, remaining: Option<u64>) -> (res: (String, String))
    ensures
        (res.0@, res.1@) == spec_song_time_labels(elapsed, remaining),
{
    let elapsed_label = match elapsed {
        Some(t) => format_time(
            #[verifier::truncate]
            (t as i64),
        ),
        None => "0:00".to_owned(),
    };
    let remaining_label = match remaining {
        Some(t) => format_remaining_time(
            #[verifier::truncate]
            (t as i64),
        ),
        None => "0:00".to_owned(),
    };
    (elapsed_label, remaining_label)
}

/// The seconds of the songs that the queue presents from position `from`
/// up to position `to`, added up.
pub open spec fn seconds_between(queue: QueueView, from: int, to: int) -> nat
    decreases to - from,
{
    if from >= to {
        0
    } else {
        (seconds_between(queue, from, to - 1) + queue.songs[queue.place(
            (to - 1) as u32,
        )].data.duration) as nat
    }
}

/// The seconds that are left of the playlist: those of the current song
/// and of all that the queue presents after it. Nothing where no song is
/// current.
pub open spec fn spec_remaining_seconds(queue: QueueView) -> Option<nat> {
    match queue.current {
        Some(c) => Some(seconds_between(queue, c as int, queue.songs.len() as int)),
        None => None,
    }
}

/// Adds up the seconds that are left of the playlist. A sum beyond what
/// the number can hold is given as the largest number there is.
pub fn remaining_seconds(queue: &Queue) -> (res: Option<u64>)
    requires
        queue.wf(),
    ensures
        match res {
            Some(total) => spec_remaining_seconds(queue@) is Some && total == if
                spec_remaining_seconds(queue@)->0 <= u64::MAX {
                spec_remaining_seconds(queue@)->0
            } else {
                u64::MAX as nat
            },
            None => spec_remaining_seconds(queue@) is None,
        },
{
    match queue.current_song_index() {
        Some(current) => {
            let n = queue.n_songs();
            let mut total: u64 = 0;
            let mut pos: u32 = current;
            while pos < n
                invariant
                    queue.wf(),
                    n == queue@.songs.len(),
                    current <= pos <= n,
                    total == if seconds_between(queue@, current as int, pos as int) <= u64::MAX {
                        seconds_between(queue@, current as int, pos as int)
                    } else {
                        u64::MAX as nat
                    },
                decreases n - pos,
            {
                let song = queue.song_at(pos);
                let seconds = match song {
                    Some(s) => s.duration(),
                    None => 0,
                };
                total = if seconds <= u64::MAX - total {
                    total + seconds
                } else {
                    u64::MAX
                };
                pos += 1;
            }
            Some(total)
        },
        None => None,
    }
}

/// What a file that was handed to the window is.
#[derive(Clone, Copy, Debug, PartialEq, Eq, Structural)]
pub enum FileKind {
    /// A regular file; `audio` says whether its content is audio.
    Regular { audio: bool },
    Directory,
    Other,
}

/// What is done with a file that was handed to the window.
#[derive(Clone, Copy, Debug, PartialEq, Eq, Structural)]
pub enum FileAction {
    /// The file is read as a song.
    Queue,
    /// The files of the folder, and of the folders in it, are read as
    /// songs.
    Expand,
    /// The file is passed over.
    Skip,
}

pub open spec fn spec_file_action(kind: FileKind) -> FileAction {
    match kind {
        FileKind::Regular { audio } => if audio {
            FileAction::Queue
        } else {
            FileAction::Skip
        },
        FileKind::Directory => FileAction::Expand,
        FileKind::Other => FileAction::Skip,
    }
}

/// Decides what is done with a file that was handed to the window.
pub fn file_action(kind: FileKind) -> (res: FileAction)
    ensures
        res == spec_file_action(kind),
{
    match kind {
        FileKind::Regular { audio } => if audio {
            FileAction::Queue
        } else {
            FileAction::Skip
        },
        FileKind::Directory => FileAction::Expand,
        FileKind::Other => FileAction::Skip,
    }
}

/// A time left, in whole hours and the minutes beyond them.
#[derive(Clone, Copy, Debug, PartialEq, Eq, Structural)]
pub struct PlaylistTime {
    pub hours: u32,
    pub minutes: u32,
}

/// The hours and minutes in a number of seconds. Seconds beyond the last
/// whole minute are dropped; the minutes are counted in 32 bits.
pub open spec fn spec_playlist_time(seconds: u64) -> PlaylistTime {
    let minutes = (seconds / 60) as u32;
    PlaylistTime { hours: minutes / 60, minutes: minutes % 60 }
}

pub fn playlist_time(seconds: u64) -> (res: PlaylistTime)
    ensures
        res == spec_playlist_time(seconds),
{
    let minutes = #[verifier::truncate]
    ((seconds / 60) as u32);
    PlaylistTime { hours: minutes / 60, minutes: minutes % 60 }
}

} // verus!
