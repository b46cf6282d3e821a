use amberol::backend::{
    clamp_position, command_for, replaygain_filter, seek_destination, BackendCommand,
};
use amberol::playback::SeekDirection::{Backwards, Forward};
use amberol::playback::{PlaybackState, RepeatMode, ReplayGainMode};

#[test]
fn defaults() {
    assert_eq!(PlaybackState::default(), PlaybackState::Stopped);
    assert_eq!(RepeatMode::default(), RepeatMode::Consecutive);
    assert_eq!(ReplayGainMode::default(), ReplayGainMode::Off);
}

#[test]
fn repeat_mode_cycle_and_names() {
    assert_eq!(RepeatMode::Consecutive.toggled(), RepeatMode::RepeatAll);
    assert_eq!(RepeatMode::RepeatAll.toggled(), RepeatMode::RepeatOne);
    assert_eq!(RepeatMode::RepeatOne.toggled(), RepeatMode::Consecutive);
    assert_eq!(RepeatMode::Consecutive.to_string(), "consecutive");
    assert_eq!(RepeatMode::RepeatAll.to_string(), "repeat-all");
    assert_eq!(RepeatMode::RepeatOne.to_string(), "repeat-one");
}

#[test]
fn replaygain_keys() {
    assert_eq!(ReplayGainMode::from_key(0), Some(ReplayGainMode::Album));
    assert_eq!(ReplayGainMode::from_key(1), Some(ReplayGainMode::Track));
    assert_eq!(ReplayGainMode::from_key(2), Some(ReplayGainMode::Off));
    assert_eq!(ReplayGainMode::from_key(3), None);
    assert_eq!(ReplayGainMode::from_key(-1), None);
    assert_eq!(i32::from(ReplayGainMode::Album), 0);
    assert_eq!(i32::from(ReplayGainMode::Track), 1);
    assert_eq!(i32::from(ReplayGainMode::Off), 2);
}

#[test]
fn replaygain_filters() {
    assert_eq!(replaygain_filter(ReplayGainMode::Album), (true, true));
    assert_eq!(replaygain_filter(ReplayGainMode::Track), (true, false));
    assert_eq!(replaygain_filter(ReplayGainMode::Off), (false, true));
}

#[test]
fn backend_commands_for_states() {
    assert!(matches!(command_for(PlaybackState::Playing), BackendCommand::Play));
    assert!(matches!(command_for(PlaybackState::Paused), BackendCommand::Pause));
    assert!(matches!(command_for(PlaybackState::Stopped), BackendCommand::Stop));
}

#[test]
fn seek_destinations() {
    assert_eq!(seek_destination(30, 100, 10, Backwards), Some(20));
    assert_eq!(seek_destination(10, 100, 10, Backwards), Some(0));
    assert_eq!(seek_destination(3, 100, 10, Backwards), Some(0));
    assert_eq!(seek_destination(3, 0, 10, Backwards), Some(0));
    assert_eq!(seek_destination(30, 100, 10, Forward), Some(40));
    assert_eq!(seek_destination(90, 100, 10, Forward), Some(100));
    assert_eq!(seek_destination(95, 100, 10, Forward), Some(100));
    assert_eq!(seek_destination(30, 0, 10, Forward), None);
    assert_eq!(seek_destination(u64::MAX, 100, u64::MAX, Forward), Some(100));
    assert_eq!(seek_destination(150, 100, 0, Forward), Some(100));
    assert_eq!(seek_destination(0, u64::MAX, u64::MAX, Forward), Some(u64::MAX));
}

#[test]
fn positions_are_clamped() {
    assert_eq!(clamp_position(5, 10), 5);
    assert_eq!(clamp_position(10, 10), 10);
    assert_eq!(clamp_position(11, 10), 10);
    assert_eq!(clamp_position(1, 0), 0);
}
