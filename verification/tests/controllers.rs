use std::cell::RefCell;

use amberol::controller::{deliver, Controller};
use amberol::effect::Effect;
use amberol::inhibit_controller::{InhibitController, InhibitRequest};
use amberol::mpris_controller::{
    action_for, loop_status, metadata, play_pause, playback_status, position_time, repeat_mode,
    LoopStatus, PlaybackStatus, Request,
};
use amberol::playback::{PlaybackAction, PlaybackState, RepeatMode};
use amberol::player::AudioPlayer;
use amberol::song::{AudioFile, Song, Tag};
use amberol::state::Property;

fn song(name: &str) -> Song {
    let file = AudioFile {
        display_name: Some(name.to_string()),
        primary_tag: Some(Tag {
            artist: Some("Artist".to_string()),
            title: Some(name.to_string()),
            album: None,
            cover: None,
        }),
        tags: vec![],
        duration: 125,
    };
    Song::from_uri(&format!("file:///{name}"), Some(&file)).unwrap()
}

#[derive(Default)]
struct Recorder {
    heard: RefCell<Vec<String>>,
}

impl Controller for Recorder {
    fn set_playback_state(&self, state: &PlaybackState) {
        self.heard.borrow_mut().push(format!("state {state:?}"));
    }

    fn set_song(&self, song: &Song) {
        self.heard.borrow_mut().push(format!("song {}", song.title("?")));
    }

    fn set_position(&self, position: u64, notify: bool) {
        self.heard.borrow_mut().push(format!("position {position} {notify}"));
    }

    fn set_repeat_mode(&self, repeat: RepeatMode) {
        self.heard.borrow_mut().push(format!("repeat {repeat:?}"));
    }
}

#[test]
fn controller_calls_are_delivered_in_order() {
    let mut player = AudioPlayer::new();
    player.add_songs(&vec![song("one"), song("two")]);
    let first = Recorder::default();
    let second = Recorder::default();
    let mut effects = player.play();
    effects.extend(player.skip_next());
    effects.extend(player.process_action(PlaybackAction::UpdatePosition(3, true)));
    effects.extend(player.toggle_repeat_mode());
    let mut delivered = 0;
    for effect in &effects {
        let a = deliver(&first, effect);
        let b = deliver(&second, effect);
        assert_eq!(a, b);
        if a {
            delivered += 1;
        }
    }
    assert_eq!(
        *first.heard.borrow(),
        vec![
            "song one",
            "state Playing",
            "state Paused",
            "song two",
            "state Playing",
            "position 3 true",
            "repeat RepeatAll",
        ]
    );
    assert_eq!(*first.heard.borrow(), *second.heard.borrow());
    assert_eq!(delivered, 7);
    assert!(!deliver(&first, &Effect::Notify(Property::Song)));
    assert!(!deliver(&first, &Effect::Present));
    let boxed: Box<dyn Controller> = Box::new(first);
    assert!(deliver(boxed.as_ref(), &Effect::SetRepeatMode(RepeatMode::RepeatOne)));
}

#[test]
fn suspend_is_held_off_while_playing() {
    let mut guard = InhibitController::default();
    assert_eq!(guard.cookie(), 0);
    assert_eq!(guard.set_playback_state(&PlaybackState::Paused), InhibitRequest::Nothing);
    assert_eq!(guard.set_playback_state(&PlaybackState::Playing), InhibitRequest::Inhibit);
    guard.inhibited(42);
    assert_eq!(guard.set_playback_state(&PlaybackState::Playing), InhibitRequest::Nothing);
    assert_eq!(guard.cookie(), 42);
    assert_eq!(guard.set_playback_state(&PlaybackState::Paused), InhibitRequest::Uninhibit(42));
    assert_eq!(guard.cookie(), 0);
    assert_eq!(guard.set_playback_state(&PlaybackState::Stopped), InhibitRequest::Nothing);
    assert_eq!(guard.set_playback_state(&PlaybackState::Playing), InhibitRequest::Inhibit);
    guard.inhibited(0);
    assert_eq!(guard.set_playback_state(&PlaybackState::Playing), InhibitRequest::Inhibit);
    guard.inhibited(7);
    assert_eq!(guard.set_playback_state(&PlaybackState::Stopped), InhibitRequest::Uninhibit(7));
    let fresh = InhibitController::new();
    assert_eq!(fresh.cookie(), 0);
}

#[test]
fn states_and_modes_as_remote_controls_know_them() {
    assert_eq!(playback_status(&PlaybackState::Playing), PlaybackStatus::Playing);
    assert_eq!(playback_status(&PlaybackState::Paused), PlaybackStatus::Paused);
    assert_eq!(playback_status(&PlaybackState::Stopped), PlaybackStatus::Stopped);
    assert_eq!(loop_status(RepeatMode::Consecutive), LoopStatus::Off);
    assert_eq!(loop_status(RepeatMode::RepeatOne), LoopStatus::Track);
    assert_eq!(loop_status(RepeatMode::RepeatAll), LoopStatus::Playlist);
    for mode in [RepeatMode::Consecutive, RepeatMode::RepeatOne, RepeatMode::RepeatAll] {
        assert_eq!(repeat_mode(loop_status(mode)), mode);
    }
}

#[test]
fn requests_of_remote_controls() {
    assert_eq!(play_pause(PlaybackStatus::Paused), PlaybackAction::Play);
    assert_eq!(play_pause(PlaybackStatus::Stopped), PlaybackAction::Stop);
    assert_eq!(play_pause(PlaybackStatus::Playing), PlaybackAction::Pause);
    assert_eq!(action_for(Request::PlayPause(PlaybackStatus::Paused)), PlaybackAction::Play);
    assert_eq!(action_for(Request::Play), PlaybackAction::Play);
    assert_eq!(action_for(Request::Stop), PlaybackAction::Stop);
    assert_eq!(action_for(Request::Pause), PlaybackAction::Pause);
    assert_eq!(action_for(Request::Previous), PlaybackAction::SkipPrevious);
    assert_eq!(action_for(Request::Next), PlaybackAction::SkipNext);
    assert_eq!(action_for(Request::Raise), PlaybackAction::Raise);
    assert_eq!(
        action_for(Request::SetLoopStatus(LoopStatus::Track)),
        PlaybackAction::Repeat(RepeatMode::RepeatOne)
    );
    assert_eq!(action_for(Request::Seek(-7)), PlaybackAction::Seek(-7));
}

#[test]
fn metadata_of_a_song() {
    let shown = metadata(&song("tune"), "ua", "ul", "ut", Some("file:///c.png".to_string()));
    assert_eq!(shown.artist, vec!["Artist"]);
    assert_eq!(shown.title, "tune");
    assert_eq!(shown.album, "ul");
    assert_eq!(shown.length, 125);
    assert_eq!(shown.art_url, Some("file:///c.png".to_string()));
    assert_eq!(position_time(90), 90);
    assert_eq!(position_time(u64::MAX), -1);
}
