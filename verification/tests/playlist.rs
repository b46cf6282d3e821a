use amberol::playlist::{load_cached_songs, read_pairs, store_playlist};

fn paths(list: &[&str]) -> Vec<Vec<u8>> {
    list.iter().map(|p| p.as_bytes().to_vec()).collect()
}

#[test]
fn snapshot_has_the_expected_text() {
    let text = store_playlist(&paths(&["/music/a.flac", "/music/b c.flac"]));
    assert_eq!(
        String::from_utf8(text).unwrap(),
        "[playlist]\nX-GNOME-Title=Amberol's current playlist\nNumberOfEntries=2\n\
         File0=/music/a.flac\nFile1=/music/b c.flac\n"
    );
    assert_eq!(
        String::from_utf8(store_playlist(&vec![])).unwrap(),
        "[playlist]\nX-GNOME-Title=Amberol's current playlist\nNumberOfEntries=0\n"
    );
}

#[test]
fn snapshot_round_trip() {
    let many: Vec<Vec<u8>> = (0..25).map(|i| format!("/m/{i} é=x.ogg ").into_bytes()).collect();
    assert_eq!(load_cached_songs(&store_playlist(&many)), Some(many));
    assert_eq!(load_cached_songs(&store_playlist(&vec![])), Some(vec![]));
    let odd = vec![vec![b'/', 0xff, 0x00, b'#']];
    assert_eq!(load_cached_songs(&store_playlist(&odd)), Some(odd));
}

#[test]
fn reader_is_lenient_about_layout() {
    let text = b"# saved\n\n  [playlist]  \n NumberOfEntries = 3\nFile0 =  /a\nFile2=/c\n\
                 [other]\nFile1=/wrong\n[playlist]\nFile0=/z\n"
        .to_vec();
    assert_eq!(load_cached_songs(&text), Some(paths(&["/z", "/c"])));
    let pairs = read_pairs(&text).unwrap();
    assert_eq!(pairs.len(), 4);
    assert_eq!(pairs[0], (b"NumberOfEntries".to_vec(), b"3".to_vec()));
    assert_eq!(pairs[1], (b"File0".to_vec(), b"/a".to_vec()));
    let no_newline = b"[playlist]\nNumberOfEntries=1\nFile0=/a".to_vec();
    assert_eq!(load_cached_songs(&no_newline), Some(paths(&["/a"])));
}

#[test]
fn count_decides_how_many_entries_are_read() {
    let text = b"[playlist]\nNumberOfEntries=1\nFile0=/a\nFile1=/b\n".to_vec();
    assert_eq!(load_cached_songs(&text), Some(paths(&["/a"])));
    let text = b"[playlist]\nFile0=/a\n".to_vec();
    assert_eq!(load_cached_songs(&text), Some(vec![]));
    let text = b"[playlist]\nNumberOfEntries=two\nFile0=/a\n".to_vec();
    assert_eq!(load_cached_songs(&text), Some(vec![]));
    let text = b"[playlist]\nNumberOfEntries=-1\nFile0=/a\n".to_vec();
    assert_eq!(load_cached_songs(&text), Some(vec![]));
    let text = b"[playlist]\nNumberOfEntries=99999999999999999999999\nFile0=/a\n".to_vec();
    assert_eq!(load_cached_songs(&text), Some(vec![]));
    let text = b"[playlist]\nNumberOfEntries=002\nFile0=/a\nFile1=/b\nFile01=/x\n".to_vec();
    assert_eq!(load_cached_songs(&text), Some(paths(&["/a", "/b"])));
    assert_eq!(load_cached_songs(&Vec::new()), Some(vec![]));
}

#[test]
fn damaged_snapshots_are_refused() {
    assert_eq!(load_cached_songs(&b"File0=/a\n[playlist]\n".to_vec()), None);
    assert_eq!(load_cached_songs(&b"[playlist]\nthis is no pair\n".to_vec()), None);
    assert_eq!(load_cached_songs(&b"[playlist\nFile0=/a\n".to_vec()), None);
    assert_eq!(load_cached_songs(&b"[playlist]\n=value\n".to_vec()), None);
    assert_eq!(load_cached_songs(&b"\x00\x01\x02".to_vec()), None);
    assert!(read_pairs(&b"garbage".to_vec()).is_none());
}
