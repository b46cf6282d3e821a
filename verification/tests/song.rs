use amberol::digest::{content_id, to_hex};
use amberol::song::{song_id, AudioFile, CoverArt, Rgb, Song, SongData, Tag};

fn tag(artist: Option<&str>, title: Option<&str>, album: Option<&str>) -> Tag {
    Tag {
        artist: artist.map(str::to_string),
        title: title.map(str::to_string),
        album: album.map(str::to_string),
        cover: None,
    }
}

fn file(name: Option<&str>, primary: Option<Tag>, tags: Vec<Tag>, duration: u64) -> AudioFile {
    AudioFile {
        display_name: name.map(str::to_string),
        primary_tag: primary,
        tags,
        duration,
    }
}

#[test]
fn digest_of_known_messages() {
    assert_eq!(
        content_id(&b"hello world".to_vec()),
        "b94d27b9934d3e08a52e52d7da7dabfac484efe37a5380ee9088f7ace2efcde9"
    );
    assert_eq!(
        content_id(&Vec::new()),
        "e3b0c44298fc1c149afbf4c8996fb92427ae41e4649b934ca495991b7852b855"
    );
    assert_eq!(
        content_id(&b"abc".to_vec()),
        "ba7816bf8f01cfea414140de5dae2223b00361a396177a9cb410ff61f20015ad"
    );
}

#[test]
fn hex_is_lower_case_two_digits_per_byte() {
    assert_eq!(to_hex(&vec![0x00, 0x0f, 0xa0, 0xff, 0x9c]), "000fa0ff9c");
    assert_eq!(to_hex(&vec![]), "");
}

#[test]
fn song_id_hashes_name_and_tags() {
    let id = song_id("hello", &Some(" ".to_string()), &Some("world".to_string()), &None);
    assert_eq!(id, "b94d27b9934d3e08a52e52d7da7dabfac484efe37a5380ee9088f7ace2efcde9");
    let other = song_id("hello", &None, &None, &Some(" world".to_string()));
    assert_eq!(id, other);
    let unicode = song_id("é", &None, &None, &None);
    assert_eq!(unicode, content_id(&vec![0xc3, 0xa9]));
}

#[test]
fn from_uri_reads_the_primary_tag() {
    let f = file(
        Some("one.mp3"),
        Some(tag(Some("Artist"), None, Some("Album"))),
        vec![tag(Some("Other"), Some("Title"), None)],
        215,
    );
    let data = SongData::from_uri("file:///m/one.mp3", Some(&f));
    assert_eq!(data.artist(), Some("Artist"));
    assert_eq!(data.title(), None);
    assert_eq!(data.album(), Some("Album"));
    assert_eq!(data.duration(), 215);
    assert_eq!(data.uri(), "file:///m/one.mp3");
    assert_eq!(data.uuid(), Some(content_id(&b"one.mp3ArtistAlbum".to_vec()).as_str()));
    assert_eq!(data.cover_uuid(), None);
    assert!(data.cover_palette().is_none());
    assert_eq!(data.cover_cache(), None);
}

#[test]
fn from_uri_walks_the_tags_until_artist_and_title_are_known() {
    let cover_a = CoverArt::new(vec![Rgb { r: 1, g: 2, b: 3 }], Some("/c/a.png".to_string()));
    let mut first = tag(Some("A1"), None, Some("Al1"));
    first.cover = Some((cover_a, "cover-a".to_string()));
    let second = tag(Some("A2"), Some("T2"), None);
    let third = tag(Some("A3"), Some("T3"), Some("Al3"));
    let f = file(Some("two.mp3"), None, vec![first, second, third], 9);
    let data = SongData::from_uri("file:///m/two.mp3", Some(&f));
    assert_eq!(data.artist(), Some("A2"));
    assert_eq!(data.title(), Some("T2"));
    assert_eq!(data.album(), None);
    assert_eq!(data.cover_uuid(), Some("cover-a"));
    assert_eq!(data.cover_palette().unwrap(), &vec![Rgb { r: 1, g: 2, b: 3 }]);
    assert_eq!(data.cover_cache(), Some("/c/a.png"));
    assert_eq!(data.uuid(), Some(content_id(&b"two.mp3A2T2".to_vec()).as_str()));

    let g = file(Some("x"), None, vec![tag(Some("A"), None, None), tag(None, None, Some("L"))], 1);
    let data = SongData::from_uri("file:///m/x", Some(&g));
    assert_eq!(data.artist(), None);
    assert_eq!(data.title(), None);
    assert_eq!(data.album(), Some("L"));

    let h = file(None, None, vec![], 3);
    let data = SongData::from_uri("file:///m/h", Some(&h));
    assert_eq!(data.artist(), None);
    assert_eq!(data.uuid(), None);
    assert_eq!(data.duration(), 3);
}

#[test]
fn unreadable_file_gives_the_invalid_song() {
    let data = SongData::from_uri("file:///m/broken.mp3", None);
    assert_eq!(data.artist(), Some("Invalid Artist"));
    assert_eq!(data.title(), Some("Invalid Title"));
    assert_eq!(data.album(), Some("Invalid Album"));
    assert_eq!(data.uuid(), None);
    assert_eq!(data.duration(), 0);
    assert_eq!(data.uri(), "file:///does-not-exist");
    assert_eq!(Song::from_uri("file:///m/broken.mp3", None).unwrap_err(), "Invalid song");
    let f = file(Some("n"), None, vec![], 1);
    assert_eq!(
        Song::from_uri("file:///does-not-exist", Some(&f)).unwrap_err(),
        "Invalid song"
    );
    assert!(Song::empty().is_invalid());
    assert!(Song::default().is_invalid());
    assert!(Song::new(SongData::default()).is_invalid());
}

#[test]
fn songs_are_equal_by_uuid_or_else_by_uri() {
    let with_id = |name: &str, uri: &str| {
        Song::from_uri(uri, Some(&file(Some(name), None, vec![], 1))).unwrap()
    };
    let without_id = |uri: &str| Song::from_uri(uri, Some(&file(None, None, vec![], 1))).unwrap();
    let a = with_id("a", "file:///1");
    let a_elsewhere = with_id("a", "file:///2");
    let b_same_place = with_id("b", "file:///1");
    let anonymous = without_id("file:///1");
    assert!(a.equals(&a));
    assert!(a.equals(&a_elsewhere));
    assert!(!a.equals(&b_same_place));
    assert!(a.equals(&anonymous));
    assert!(anonymous.equals(&a));
    assert!(b_same_place.equals(&anonymous));
    assert!(!a_elsewhere.equals(&anonymous));
    assert!(!without_id("file:///3").equals(&anonymous));
}

#[test]
fn texts_fall_back_to_the_given_wording() {
    let f = file(Some("n"), Some(tag(None, Some("T"), None)), vec![], 61);
    let song = Song::from_uri("file:///s", Some(&f)).unwrap();
    assert_eq!(song.artist("Unknown artist"), "Unknown artist");
    assert_eq!(song.title("Unknown title"), "T");
    assert_eq!(song.album("Unknown album"), "Unknown album");
    assert_eq!(song.search_key("ua", "ul", "ut"), "ua ul T");
    assert_eq!(song.duration(), 61);
    assert_eq!(song.uri(), "file:///s");
    assert_eq!(song.data().title(), Some("T"));
    let id = song.uuid().unwrap();
    assert_eq!(
        song.to_string("ua", "ut"),
        format!("Song {{ uuid: {id}, uri: file:///s, artist: 'ua', title: 'T' }}")
    );
}

#[test]
fn marks_report_changes_and_clones_keep_everything() {
    let f = file(Some("n"), Some(tag(Some("A"), Some("T"), Some("L"))), vec![], 5);
    let mut song = Song::from_uri("file:///s", Some(&f)).unwrap();
    assert!(!song.playing());
    assert!(!song.selected());
    assert!(song.set_playing(true));
    assert!(!song.set_playing(true));
    assert!(song.set_selected(true));
    assert!(!song.set_selected(true));
    let copy = song.clone();
    assert!(copy.playing() && copy.selected());
    assert_eq!(copy.uuid(), song.uuid());
    assert_eq!(copy.search_key("", "", ""), "A L T");
    assert!(song.set_selected(false));
    assert!(copy.selected());
}

#[test]
fn cover_accessors() {
    let cover = CoverArt::new(
        vec![Rgb { r: 9, g: 8, b: 7 }, Rgb { r: 1, g: 1, b: 1 }],
        None,
    );
    assert_eq!(cover.palette().len(), 2);
    assert_eq!(cover.cache(), None);
    let mut t = tag(Some("A"), Some("T"), None);
    t.cover = Some((cover, "cid".to_string()));
    let f = file(Some("n"), Some(t), vec![], 5);
    let song = Song::from_uri("file:///s", Some(&f)).unwrap();
    assert_eq!(song.cover_color(), Some(Rgb { r: 9, g: 8, b: 7 }));
    assert_eq!(song.cover_palette().unwrap().len(), 2);
    assert_eq!(song.cover_uuid(), Some("cid".to_string()));
    assert_eq!(song.cover_cache(), None);
    let mut t = tag(Some("A"), Some("T"), None);
    t.cover = Some((CoverArt::new(vec![], Some("/p".to_string())), "e".to_string()));
    let f = file(Some("n"), Some(t), vec![], 5);
    let song = Song::from_uri("file:///s", Some(&f)).unwrap();
    assert_eq!(song.cover_color(), None);
    assert_eq!(song.cover_cache(), Some("/p"));
    let plain = Song::from_uri("file:///s", Some(&file(None, None, vec![], 1))).unwrap();
    assert_eq!(plain.cover_color(), None);
    assert!(plain.cover_palette().is_none());
}
