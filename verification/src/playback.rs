//! The small vocabulary shared by every part of the player.

use vstd::prelude::*;
use vstd::std_specs::convert::FromSpecImpl;

verus! {

/// What the player is doing right now.
#[derive(Clone, Copy, Debug, PartialEq, Eq, Structural)]
pub enum PlaybackState {
    Stopped,
    Playing,
    Paused,
}

impl Default for PlaybackState {
    fn default() -> (res: Self)
        ensures
            res == PlaybackState::Stopped,
    {
        PlaybackState::Stopped
    }
}

/// What the queue does when it is asked for the song after the current one.
#[derive(Clone, Copy, Debug, PartialEq, Eq, Structural)]
pub enum RepeatMode {
    Consecutive,
    RepeatAll,
    RepeatOne,
}

impl Default for RepeatMode {
    fn default() -> (res: Self)
        ensures
            res == RepeatMode::Consecutive,
    {
        RepeatMode::Consecutive
    }
}

impl RepeatMode {
    /// The mode that follows this one when the user toggles:
    /// consecutive, then repeat all, then repeat one, then consecutive again.
    pub open spec fn spec_toggled(self) -> RepeatMode {
        match self {
            RepeatMode::Consecutive => RepeatMode::RepeatAll,
            RepeatMode::RepeatAll => RepeatMode::RepeatOne,
            RepeatMode::RepeatOne => RepeatMode::Consecutive,
        }
    }

    #[verifier::when_used_as_spec(spec_toggled)]
    pub fn toggled(self) -> (res: RepeatMode)
        ensures
            res == self.spec_toggled(),
    {
        match self {
            RepeatMode::Consecutive => RepeatMode::RepeatAll,
            RepeatMode::RepeatAll => RepeatMode::RepeatOne,
            RepeatMode::RepeatOne => RepeatMode::Consecutive,
        }
    }

    /// The name of the mode as it is stored in settings.
    pub open spec fn spec_name(self) -> Seq<char> {
        match self {
            RepeatMode::Consecutive => "consecutive"@,
            RepeatMode::RepeatAll => "repeat-all"@,
            RepeatMode::RepeatOne => "repeat-one"@,
        }
    }

    pub fn to_string(&self) -> (res: String)
        ensures
            res@ == self.spec_name(),
    {
        match self {
            RepeatMode::Consecutive => "consecutive".to_owned(),
            RepeatMode::RepeatAll => "repeat-all".to_owned(),
            RepeatMode::RepeatOne => "repeat-one".to_owned(),
        }
    }
}

/// Toggling three times comes back to the mode one started from, and no
/// single toggle leaves the mode as it was.
pub proof fn lemma_toggle_cycles(mode: RepeatMode)
    ensures
        mode.toggled() != mode,
        mode.toggled().toggled().toggled() == mode,
{
}

/// Which loudness normalisation the media backend applies.
#[derive(Clone, Copy, Debug, PartialEq, Eq, Structural)]
pub enum ReplayGainMode {
    Album,
    Track,
    Off,
}

impl Default for ReplayGainMode {
    fn default() -> (res: Self)
        ensures
            res == ReplayGainMode::Off,
    {
        ReplayGainMode::Off
    }
}

impl ReplayGainMode {
    /// The settings key of a mode.
    pub open spec fn spec_key(self) -> i32 {
        match self {
            ReplayGainMode::Album => 0,
            ReplayGainMode::Track => 1,
            ReplayGainMode::Off => 2,
        }
    }

    /// The mode stored under a settings key; keys other than 0, 1 and 2
    /// name no mode.
    pub fn from_key(value: i32) -> (res: Option<ReplayGainMode>)
        ensures
            match res {
                Some(mode) => mode.spec_key() == value,
                None => value < 0 || value > 2,
            },
    {
        if value == 0 {
            Some(ReplayGainMode::Album)
        } else if value == 1 {
            Some(ReplayGainMode::Track)
        } else if value == 2 {
            Some(ReplayGainMode::Off)
        } else {
            None
        }
    }
}

impl From<ReplayGainMode> for i32 {
    fn from(value: ReplayGainMode) -> (res: i32) {
        match value {
            ReplayGainMode::Album => 0,
            ReplayGainMode::Track => 1,
            ReplayGainMode::Off => 2,
        }
    }
}

impl FromSpecImpl<ReplayGainMode> for i32 {
    open spec fn obeys_from_spec() -> bool {
        true
    }

    open spec fn from_spec(value: ReplayGainMode) -> i32 {
        value.spec_key()
    }
}

/// Every mode is found again under its own key.
pub proof fn lemma_key_round_trip(mode: ReplayGainMode)
    ensures
        0 <= mode.spec_key() <= 2,
        forall|other: ReplayGainMode| other.spec_key() == mode.spec_key() ==> other == mode,
{
}

/// The direction of a relative seek.
#[derive(Clone, Copy, Debug, PartialEq, Eq, Structural)]
pub enum SeekDirection {
    Forward,
    Backwards,
}

/// A request that reaches the player as a message: from a controller, or
/// from the media backend. Positions count in seconds, a seek is an offset
/// in seconds, and the volume counts in hundredths of full volume.
#[derive(Clone, Copy, Debug, PartialEq, Eq, Structural)]
pub enum PlaybackAction {
    Play,
    Pause,
    Stop,
    SkipPrevious,
    SkipNext,
    UpdatePosition(u64, bool),
    VolumeChanged(u32),
    Repeat(RepeatMode),
    Seek(i64),
    PlayNext,
    Raise,
}

} // verus!
