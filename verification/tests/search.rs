use amberol::search::{passes, FuzzyFilter};
use amberol::song::{AudioFile, Song, Tag};
use amberol::sort::{rank_scores, FuzzySorter};
use amberol::utils::Comparison;

fn song(artist: &str, album: &str, title: &str) -> Song {
    let file = AudioFile {
        display_name: Some(title.to_string()),
        primary_tag: Some(Tag {
            artist: Some(artist.to_string()),
            title: Some(title.to_string()),
            album: Some(album.to_string()),
            cover: None,
        }),
        tags: vec![],
        duration: 1,
    };
    Song::from_uri(&format!("file:///{title}"), Some(&file)).unwrap()
}

#[test]
fn filter_without_search_lets_everything_through() {
    let filter = FuzzyFilter::default();
    assert_eq!(filter.search(), None);
    assert!(filter.match_key("anything"));
    assert!(filter.match_(&song("a", "b", "c"), "", "", ""));
}

#[test]
fn filter_matches_loosely() {
    let mut filter = FuzzyFilter::new();
    assert!(filter.set_search(Some("abc".to_string())));
    assert!(filter.match_key("axbycz"));
    assert!(filter.match_key("abc"));
    assert!(!filter.match_key("abx"));
    assert!(!filter.match_key(""));
    assert!(filter.match_(&song("Alpha", "Beta", "Charlie"), "", "", ""));
    assert!(!filter.match_(&song("Charlie", "Beta", "Alpha"), "", "", ""));
}

#[test]
fn filter_keeps_the_search_in_lower_case() {
    let mut filter = FuzzyFilter::new();
    assert!(filter.set_search(Some("QuEEn".to_string())));
    assert_eq!(filter.search(), Some("queen".to_string()));
    assert!(filter.match_key("The Queen Is Dead"));
    assert!(filter.set_search(Some("QuEEn".to_string())));
    assert!(!filter.set_search(Some("queen".to_string())));
    assert!(filter.set_search(None));
    assert!(!filter.set_search(None));
    assert_eq!(filter.search(), None);
}

#[test]
fn empty_search_lets_everything_through() {
    let mut filter = FuzzyFilter::new();
    filter.set_search(Some(String::new()));
    assert!(filter.match_key("anything"));
    assert!(filter.match_key(""));
    assert!(passes("", None));
    assert!(passes("x", Some(3)));
    assert!(!passes("x", None));
}

#[test]
fn scores_rank_best_first() {
    assert_eq!(rank_scores(Some(5), Some(3)), Comparison::Less);
    assert_eq!(rank_scores(Some(3), Some(5)), Comparison::Greater);
    assert_eq!(rank_scores(Some(3), Some(3)), Comparison::Equal);
    assert_eq!(rank_scores(Some(-9), None), Comparison::Less);
    assert_eq!(rank_scores(None, Some(-9)), Comparison::Greater);
    assert_eq!(rank_scores(None, None), Comparison::Equal);
}

#[test]
fn sorter_ranks_by_match_or_by_file() {
    let mut sorter = FuzzySorter::default();
    assert_eq!(sorter.search(), None);
    assert_eq!(sorter.compare_keys("a", "b", Comparison::Greater), Comparison::Greater);
    assert!(sorter.set_search(Some("abc".to_string())));
    assert!(!sorter.set_search(Some("abc".to_string())));
    assert_eq!(sorter.search(), Some("abc".to_string()));
    assert_eq!(sorter.compare_keys("abc", "xyz", Comparison::Greater), Comparison::Less);
    assert_eq!(sorter.compare_keys("xyz", "abc", Comparison::Less), Comparison::Greater);
    assert_eq!(sorter.compare_keys("xyz", "xzy", Comparison::Less), Comparison::Equal);
    assert_eq!(sorter.compare_keys("abc", "a-b-c-", Comparison::Equal), Comparison::Less);
    let exact = song("abc", "x", "y");
    let none = song("q", "x", "y");
    assert_eq!(sorter.compare(&exact, &none, "", "", "", Comparison::Equal), Comparison::Less);
    assert!(sorter.set_search(None));
    assert_eq!(sorter.compare(&exact, &none, "", "", "", Comparison::Equal), Comparison::Equal);
}
