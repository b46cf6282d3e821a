use amberol::playback::PlaybackState;
use amberol::song::{AudioFile, Song, Tag};
use amberol::state::{PlayerState, Property};

fn song(name: &str, seconds: u64) -> Song {
    let file = AudioFile {
        display_name: Some(name.to_string()),
        primary_tag: Some(Tag {
            artist: Some("Artist".to_string()),
            title: Some(name.to_string()),
            album: None,
            cover: None,
        }),
        tags: vec![],
        duration: seconds,
    };
    Song::from_uri(&format!("file:///{name}"), Some(&file)).unwrap()
}

#[test]
fn initial_state() {
    let state = PlayerState::default();
    assert_eq!(state.playback_state(), PlaybackState::Stopped);
    assert!(!state.playing());
    assert_eq!(state.position(), 0);
    assert_eq!(state.volume(), 100);
    assert!(state.current_song().is_none());
    assert_eq!(state.title("?"), None);
    assert_eq!(state.artist("?"), None);
    assert_eq!(state.album("?"), None);
    assert_eq!(state.cover(), None);
    assert_eq!(state.duration(), 0);
}

#[test]
fn set_current_song_always_resets_the_position() {
    let mut state = PlayerState::new();
    let all = vec![
        Property::Song,
        Property::Title,
        Property::Artist,
        Property::Album,
        Property::Duration,
        Property::Cover,
        Property::Position,
    ];
    state.set_position(77);
    assert_eq!(state.set_current_song(Some(song("a", 100))), all);
    assert_eq!(state.position(), 0);
    state.set_position(33);
    assert_eq!(state.position(), 33);
    assert_eq!(state.set_current_song(Some(song("a", 100))), all);
    assert_eq!(state.position(), 0);
    state.set_position(5);
    assert_eq!(state.set_current_song(None), all);
    assert_eq!(state.position(), 0);
    assert!(!state.has_current_song());
}

#[test]
fn set_playback_state_tells_only_changes() {
    let mut state = PlayerState::new();
    state.set_current_song(Some(song("a", 100)));
    assert_eq!(state.set_playback_state(&PlaybackState::Playing), vec![Property::Playing]);
    assert!(state.playing());
    assert_eq!(state.set_playback_state(&PlaybackState::Playing), vec![]);
    assert_eq!(state.set_playback_state(&PlaybackState::Paused), vec![Property::Playing]);
    assert!(!state.playing());
    assert_eq!(state.set_playback_state(&PlaybackState::Stopped), vec![Property::Playing]);
    assert_eq!(state.set_playback_state(&PlaybackState::Stopped), vec![]);
}

#[test]
fn set_volume_tells_only_changes() {
    let mut state = PlayerState::new();
    assert_eq!(state.set_volume(100), vec![]);
    assert_eq!(state.set_volume(50), vec![Property::Volume]);
    assert_eq!(state.volume(), 50);
    assert_eq!(state.set_volume(50), vec![]);
    assert_eq!(state.set_volume(51), vec![Property::Volume]);
}

#[test]
fn set_position_always_tells() {
    let mut state = PlayerState::new();
    assert_eq!(state.set_position(3), vec![Property::Position]);
    assert_eq!(state.set_position(3), vec![Property::Position]);
    assert_eq!(state.position(), 3);
}

#[test]
fn song_properties_are_read_through() {
    let mut state = PlayerState::new();
    state.set_current_song(Some(song("tune", 245)));
    assert_eq!(state.title("?"), Some("tune".to_string()));
    assert_eq!(state.artist("?"), Some("Artist".to_string()));
    assert_eq!(state.album("none"), Some("none".to_string()));
    assert_eq!(state.duration(), 245);
    assert_eq!(state.cover(), None);
    assert_eq!(state.current_song().unwrap().uri(), "file:///tune");
}
