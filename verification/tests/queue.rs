use amberol::playback::RepeatMode;
use amberol::queue::Queue;
use amberol::song::{AudioFile, Song, Tag};

fn song(name: &str, seconds: u64) -> Song {
    let file = AudioFile {
        display_name: Some(format!("{name}.ogg")),
        primary_tag: Some(Tag {
            artist: None,
            title: Some(name.to_string()),
            album: None,
            cover: None,
        }),
        tags: vec![],
        duration: seconds,
    };
    Song::from_uri(&format!("file:///q/{name}.ogg"), Some(&file)).unwrap()
}

fn queue_of(names: &[&str]) -> Queue {
    let mut queue = Queue::new();
    for name in names {
        assert!(queue.add_song(&song(name, 10)));
    }
    queue
}

fn titles(queue: &Queue) -> Vec<String> {
    (0..queue.n_songs())
        .map(|pos| queue.song_at(pos).unwrap().title("?"))
        .collect()
}

#[test]
fn new_queue_is_empty() {
    let queue = Queue::default();
    assert!(queue.is_empty());
    assert_eq!(queue.n_songs(), 0);
    assert_eq!(queue.current_song_index(), None);
    assert!(queue.current_song().is_none());
    assert_eq!(queue.repeat_mode(), RepeatMode::Consecutive);
    assert!(!queue.is_shuffled());
    assert!(!queue.is_first_song());
    assert!(!queue.is_last_song());
}

#[test]
fn navigation_on_an_empty_queue_finds_nothing() {
    let mut queue = Queue::new();
    assert!(queue.next_song().is_none());
    assert!(queue.previous_song().is_none());
    assert!(queue.skip_song(0).is_none());
    assert_eq!(queue.current_song_index(), None);
    queue.set_shuffled(true);
    assert!(queue.next_song().is_none());
    queue.remove_song(&song("x", 1));
    queue.clear();
    assert!(queue.is_empty());
}

#[test]
fn consecutive_visits_every_song_once_then_ends() {
    let mut queue = queue_of(&["a", "b", "c", "d"]);
    let mut seen = Vec::new();
    for expected in 0..4u32 {
        let song = queue.next_song().unwrap();
        assert_eq!(queue.current_song_index(), Some(expected));
        seen.push(song.title("?"));
    }
    assert_eq!(seen, vec!["a", "b", "c", "d"]);
    assert!(queue.is_last_song());
    assert!(queue.next_song().is_none());
    assert_eq!(queue.current_song_index(), None);
    assert_eq!(queue.next_song().unwrap().title("?"), "a");
    assert!(queue.is_first_song());
}

#[test]
fn repeat_all_wraps_to_the_first_song() {
    let mut queue = queue_of(&["a", "b", "c"]);
    queue.set_repeat_mode(RepeatMode::RepeatAll);
    assert_eq!(queue.skip_song(2).unwrap().title("?"), "c");
    assert_eq!(queue.next_song().unwrap().title("?"), "a");
    assert_eq!(queue.current_song_index(), Some(0));
    queue.skip_song(2);
    for _ in 0..3 {
        queue.next_song();
    }
    assert_eq!(queue.current_song_index(), Some(2));
    queue.skip_song(1);
    for _ in 0..5 {
        queue.next_song();
    }
    assert_eq!(queue.current_song_index(), Some(0));
}

#[test]
fn repeat_one_stays_on_the_song() {
    let mut queue = queue_of(&["a", "b", "c"]);
    queue.set_repeat_mode(RepeatMode::RepeatOne);
    queue.skip_song(1);
    for _ in 0..4 {
        assert_eq!(queue.next_song().unwrap().title("?"), "b");
        assert_eq!(queue.current_song_index(), Some(1));
    }
}

#[test]
fn previous_song_steps_back_until_the_first() {
    let mut queue = queue_of(&["a", "b", "c"]);
    assert!(queue.previous_song().is_none());
    queue.skip_song(2);
    assert_eq!(queue.previous_song().unwrap().title("?"), "b");
    assert_eq!(queue.previous_song().unwrap().title("?"), "a");
    assert!(queue.previous_song().is_none());
    assert_eq!(queue.current_song_index(), Some(0));
}

#[test]
fn skip_song_past_the_end_clears_the_pointer() {
    let mut queue = queue_of(&["a", "b"]);
    queue.skip_song(1);
    assert!(queue.skip_song(2).is_none());
    assert_eq!(queue.current_song_index(), None);
    assert!(queue.current_song().is_none());
}

#[test]
fn add_song_rejects_the_invalid_song() {
    let mut queue = Queue::new();
    assert!(!queue.add_song(&Song::empty()));
    assert!(!queue.add_song(&Song::default()));
    assert!(queue.is_empty());
    assert!(queue.add_song(&song("a", 1)));
    assert_eq!(queue.n_songs(), 1);
    queue.add_songs(&vec![song("b", 1), song("c", 1)]);
    assert_eq!(titles(&queue), vec!["a", "b", "c"]);
}

#[test]
fn set_repeat_mode_reports_changes() {
    let mut queue = Queue::new();
    assert!(!queue.set_repeat_mode(RepeatMode::Consecutive));
    assert!(queue.set_repeat_mode(RepeatMode::RepeatOne));
    assert_eq!(queue.repeat_mode(), RepeatMode::RepeatOne);
}

#[test]
fn shuffle_round_trip_restores_order_and_current_song() {
    for anchor in 0..6u32 {
        let mut queue = queue_of(&["a", "b", "c", "d", "e", "f"]);
        queue.skip_song(anchor);
        let before = queue.current_song().unwrap().uri();
        queue.set_shuffled(true);
        assert!(queue.is_shuffled());
        assert_eq!(queue.current_song_index(), Some(anchor));
        assert_eq!(queue.current_song().unwrap().uri(), before);
        let mut shown = titles(&queue);
        if anchor > 0 && anchor < 5 {
            let head: Vec<String> = ["a", "b", "c", "d", "e", "f"][..anchor as usize]
                .iter()
                .map(|s| s.to_string())
                .collect();
            assert_eq!(shown[..anchor as usize], head[..]);
        }
        shown.sort();
        assert_eq!(shown, vec!["a", "b", "c", "d", "e", "f"]);
        queue.set_shuffled(true);
        queue.set_shuffled(false);
        assert!(!queue.is_shuffled());
        assert_eq!(titles(&queue), vec!["a", "b", "c", "d", "e", "f"]);
        assert_eq!(queue.current_song_index(), Some(anchor));
        assert_eq!(queue.current_song().unwrap().uri(), before);
    }
}

#[test]
fn shuffle_without_current_song_keeps_none() {
    let mut queue = queue_of(&["a", "b", "c"]);
    queue.set_shuffled(true);
    assert_eq!(queue.current_song_index(), None);
    assert_eq!(queue.song_at(0).unwrap().title("?"), "a");
    queue.set_shuffled(false);
    assert_eq!(queue.current_song_index(), None);
}

#[test]
fn unshuffle_finds_the_song_by_identity() {
    let mut queue = queue_of(&["a", "b", "c"]);
    assert!(queue.add_song(&song("b", 10)));
    queue.skip_song(3);
    queue.set_shuffled(true);
    queue.set_shuffled(false);
    assert_eq!(queue.current_song_index(), Some(1));
    assert_eq!(queue.current_song().unwrap().title("?"), "b");
}

#[test]
fn remove_song_follows_the_current_song() {
    let mut queue = queue_of(&["a", "b", "c", "d"]);
    queue.skip_song(2);
    queue.remove_song(&song("a", 10));
    assert_eq!(titles(&queue), vec!["b", "c", "d"]);
    assert_eq!(queue.current_song_index(), Some(1));
    assert_eq!(queue.current_song().unwrap().title("?"), "c");
    queue.remove_song(&song("d", 10));
    assert_eq!(queue.current_song_index(), Some(1));
    queue.remove_song(&song("c", 10));
    assert_eq!(queue.current_song_index(), None);
    assert_eq!(titles(&queue), vec!["b"]);
    queue.remove_song(&song("nope", 10));
    assert_eq!(queue.n_songs(), 1);
    queue.skip_song(0);
    queue.remove_song(&song("b", 10));
    assert!(queue.is_empty());
    assert_eq!(queue.current_song_index(), None);
}

#[test]
fn remove_song_from_a_shuffled_queue_keeps_the_current_song() {
    let mut queue = queue_of(&["a", "b", "c", "d", "e"]);
    queue.skip_song(3);
    queue.set_shuffled(true);
    queue.remove_song(&song("b", 10));
    assert!(queue.is_shuffled());
    assert_eq!(queue.n_songs(), 4);
    assert_eq!(queue.current_song().unwrap().title("?"), "d");
    assert_eq!(queue.song_at(0).unwrap().title("?"), "a");
    let mut shown = titles(&queue);
    shown.sort();
    assert_eq!(shown, vec!["a", "c", "d", "e"]);
}

#[test]
fn set_current_song_points_at_the_first_match() {
    let mut queue = queue_of(&["a", "b", "c"]);
    queue.set_current_song(Some(&song("c", 10)));
    assert_eq!(queue.current_song_index(), Some(2));
    queue.set_current_song(Some(&song("zzz", 10)));
    assert_eq!(queue.current_song_index(), Some(2));
    queue.set_current_song(None);
    assert_eq!(queue.current_song_index(), None);
}

#[test]
fn contains_and_places() {
    let mut queue = queue_of(&["a", "b", "c"]);
    assert!(queue.contains(&song("b", 99)));
    assert!(!queue.contains(&song("x", 10)));
    assert_eq!(queue.first_stored(&song("c", 10)), Some(2));
    assert_eq!(queue.first_stored(&song("x", 10)), None);
    assert_eq!(queue.current_place(), None);
    queue.skip_song(1);
    assert_eq!(queue.current_place(), Some(1));
}

#[test]
fn clear_empties_the_queue() {
    let mut queue = queue_of(&["a", "b"]);
    queue.skip_song(1);
    queue.set_repeat_mode(RepeatMode::RepeatAll);
    queue.clear();
    assert!(queue.is_empty());
    assert_eq!(queue.current_song_index(), None);
    assert_eq!(queue.repeat_mode(), RepeatMode::RepeatAll);
    assert!(queue.song_at(0).is_none());
}

#[test]
fn selection_and_playing_marks() {
    let mut queue = queue_of(&["a", "b", "c"]);
    queue.select_song_at(1);
    assert!(queue.song_at(1).unwrap().selected());
    assert_eq!(queue.n_selected_songs(), 1);
    queue.select_song_at(1);
    assert_eq!(queue.n_selected_songs(), 0);
    queue.select_song_at(0);
    queue.select_song_at(2);
    queue.select_song_at(5);
    assert_eq!(queue.n_selected_songs(), 2);
    queue.set_playing_at(2, true);
    assert!(queue.song_at(2).unwrap().playing());
    assert!(queue.song_at(2).unwrap().selected());
    queue.set_playing_at(2, false);
    assert!(!queue.song_at(2).unwrap().playing());
    queue.unselect_all_songs();
    assert_eq!(queue.n_selected_songs(), 0);
}

#[test]
fn model_lists_the_songs_as_presented() {
    let mut queue = queue_of(&["a", "b", "c", "d"]);
    let listed: Vec<String> = queue.model().iter().map(|song| song.title("?")).collect();
    assert_eq!(listed, vec!["a", "b", "c", "d"]);
    queue.skip_song(1);
    queue.set_shuffled(true);
    let listed: Vec<String> = queue.model().iter().map(|song| song.title("?")).collect();
    assert_eq!(listed, titles(&queue));
    assert_eq!(listed[0], "a");
    assert_eq!(listed[1], "b");
    assert!(Queue::new().model().is_empty());
}

#[test]
fn first_and_last_song() {
    let mut queue = queue_of(&["a", "b"]);
    queue.skip_song(0);
    assert!(queue.is_first_song());
    assert!(!queue.is_last_song());
    queue.skip_song(1);
    assert!(!queue.is_first_song());
    assert!(queue.is_last_song());
}
