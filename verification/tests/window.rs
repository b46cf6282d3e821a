use amberol::player::AudioPlayer;
use amberol::playback::PlaybackAction;
use amberol::queue::Queue;
use amberol::song::{AudioFile, Song, Tag};
use amberol::window::{
    file_action, playlist_time, remaining_seconds, set_song_time, song_time, FileAction,
    FileKind, PlaylistTime,
};

fn song(name: &str, seconds: u64) -> Song {
    let file = AudioFile {
        display_name: Some(name.to_string()),
        primary_tag: Some(Tag {
            artist: None,
            title: Some(name.to_string()),
            album: None,
            cover: None,
        }),
        tags: vec![],
        duration: seconds,
    };
    Song::from_uri(&format!("file:///{name}"), Some(&file)).unwrap()
}

#[test]
fn song_time_of_the_current_song() {
    let mut player = AudioPlayer::new();
    assert_eq!(song_time(player.state()), (None, None));
    player.add_songs(&vec![song("a", 180)]);
    player.play();
    player.process_action(PlaybackAction::UpdatePosition(75, false));
    assert_eq!(song_time(player.state()), (Some(75), Some(105)));
    player.process_action(PlaybackAction::UpdatePosition(500, false));
    assert_eq!(song_time(player.state()), (Some(500), Some(0)));
}

#[test]
fn time_labels() {
    assert_eq!(
        set_song_time(Some(75), Some(105)),
        ("1:15".to_string(), "\u{200e}\u{2212}1:45".to_string())
    );
    assert_eq!(set_song_time(None, None), ("0:00".to_string(), "0:00".to_string()));
    assert_eq!(set_song_time(Some(0), None), ("0:00".to_string(), "0:00".to_string()));
    assert_eq!(set_song_time(Some(u64::MAX), None).0, "0:-1");
}

#[test]
fn remaining_seconds_count_from_the_current_song() {
    let mut queue = Queue::new();
    for (name, seconds) in [("a", 100), ("b", 200), ("c", 300)] {
        queue.add_song(&song(name, seconds));
    }
    assert_eq!(remaining_seconds(&queue), None);
    queue.skip_song(0);
    assert_eq!(remaining_seconds(&queue), Some(600));
    queue.skip_song(1);
    assert_eq!(remaining_seconds(&queue), Some(500));
    queue.skip_song(2);
    assert_eq!(remaining_seconds(&queue), Some(300));
    queue.add_song(&song("long", u64::MAX));
    assert_eq!(remaining_seconds(&queue), Some(u64::MAX));
}

#[test]
fn playlist_time_in_hours_and_minutes() {
    assert_eq!(playlist_time(0), PlaylistTime { hours: 0, minutes: 0 });
    assert_eq!(playlist_time(59), PlaylistTime { hours: 0, minutes: 0 });
    assert_eq!(playlist_time(600), PlaylistTime { hours: 0, minutes: 10 });
    assert_eq!(playlist_time(3600), PlaylistTime { hours: 1, minutes: 0 });
    assert_eq!(playlist_time(2 * 3600 + 35 * 60 + 12), PlaylistTime { hours: 2, minutes: 35 });
    let wrapped = ((u64::MAX / 60) as u32) as u64;
    assert_eq!(
        playlist_time(u64::MAX),
        PlaylistTime { hours: (wrapped / 60) as u32, minutes: (wrapped % 60) as u32 }
    );
}

#[test]
fn files_are_queued_expanded_or_skipped() {
    assert_eq!(file_action(FileKind::Regular { audio: true }), FileAction::Queue);
    assert_eq!(file_action(FileKind::Regular { audio: false }), FileAction::Skip);
    assert_eq!(file_action(FileKind::Directory), FileAction::Expand);
    assert_eq!(file_action(FileKind::Other), FileAction::Skip);
}
