use amberol::cover_cache::{
    choose_picture, cover_id, external_cover_names, CoverCache, CoverLookup, ItemKey,
    PictureKind, TagItem,
};
use amberol::digest::content_id;
use amberol::song::{CoverArt, Rgb};

fn item(key: ItemKey, text: Option<&str>) -> TagItem {
    TagItem { key, text: text.map(str::to_string) }
}

fn cover(shade: u8) -> CoverArt {
    CoverArt::new(vec![Rgb { r: shade, g: shade, b: shade }], None)
}

#[test]
fn cover_id_of_an_album_joins_album_artist_and_folder() {
    let items = vec![
        item(ItemKey::Other, Some("zzz")),
        item(ItemKey::AlbumTitle, Some("a")),
        item(ItemKey::TrackArtist, Some("t")),
        item(ItemKey::AlbumArtist, Some("b")),
    ];
    assert_eq!(cover_id(&items, "/c/file.mp3", Some("c")), content_id(&b"abc".to_vec()));
    assert_eq!(
        cover_id(&items, "/c/file.mp3", Some("c")),
        "ba7816bf8f01cfea414140de5dae2223b00361a396177a9cb410ff61f20015ad"
    );
    assert_eq!(cover_id(&items, "/c/file.mp3", None), content_id(&b"ab".to_vec()));
}

#[test]
fn cover_id_falls_back_to_the_track_artist() {
    let items = vec![
        item(ItemKey::AlbumTitle, Some("a")),
        item(ItemKey::TrackArtist, Some("t")),
    ];
    assert_eq!(cover_id(&items, "/p", Some("d")), content_id(&b"atd".to_vec()));
    let items = vec![item(ItemKey::AlbumTitle, Some("a"))];
    assert_eq!(cover_id(&items, "/p", Some("d")), content_id(&b"ad".to_vec()));
}

#[test]
fn cover_id_without_album_is_the_path() {
    let items = vec![item(ItemKey::AlbumArtist, Some("b"))];
    assert_eq!(cover_id(&items, "/c/file.mp3", Some("/c")), content_id(&b"/c/file.mp3".to_vec()));
    assert_eq!(cover_id(&vec![], "/x", None), content_id(&b"/x".to_vec()));
}

#[test]
fn the_last_entry_of_a_kind_counts() {
    let items = vec![
        item(ItemKey::AlbumTitle, Some("first")),
        item(ItemKey::AlbumTitle, Some("last")),
    ];
    assert_eq!(cover_id(&items, "/p", None), content_id(&b"last".to_vec()));
    let items = vec![item(ItemKey::AlbumTitle, Some("first")), item(ItemKey::AlbumTitle, None)];
    assert_eq!(cover_id(&items, "/p", None), content_id(&b"/p".to_vec()));
}

#[test]
fn front_cover_is_preferred() {
    assert_eq!(
        choose_picture(&vec![PictureKind::Other, PictureKind::CoverFront, PictureKind::CoverFront]),
        Some(1)
    );
    assert_eq!(
        choose_picture(&vec![PictureKind::Unrelated, PictureKind::BandLogo, PictureKind::Other]),
        Some(1)
    );
    assert_eq!(choose_picture(&vec![PictureKind::Unrelated, PictureKind::Other]), Some(1));
    assert_eq!(choose_picture(&vec![PictureKind::Unrelated]), None);
    assert_eq!(choose_picture(&vec![]), None);
}

#[test]
fn external_covers_are_tried_in_order() {
    assert_eq!(external_cover_names(), vec!["Cover.jpg", "Cover.png", "cover.jpg", "cover.png"]);
}

#[test]
fn cache_keeps_the_first_cover_under_an_identifier() {
    let mut cache = CoverCache::new();
    assert_eq!(cache.len(), 0);
    assert!(cache.lookup("a").is_none());
    assert_eq!(cache.add_entry("a", cover(1)).palette()[0].r, 1);
    assert_eq!(cache.add_entry("a", cover(2)).palette()[0].r, 1);
    assert_eq!(cache.add_entry("b", cover(3)).palette()[0].r, 3);
    assert_eq!(cache.len(), 2);
    assert_eq!(cache.lookup("a").unwrap().palette()[0].r, 1);
    assert_eq!(cache.lookup("b").unwrap().palette()[0].r, 3);
    assert!(cache.lookup("c").is_none());
    cache.clear();
    assert_eq!(cache.len(), 0);
    assert!(cache.lookup("a").is_none());
}

#[test]
fn cache_grows_until_it_is_cleared() {
    let mut cache = CoverCache::new();
    for i in 0..200u32 {
        cache.add_entry(&format!("cover-{i}"), cover((i % 250) as u8));
    }
    assert_eq!(cache.len(), 200);
    assert_eq!(cache.lookup("cover-0").unwrap().palette()[0].r, 0);
    cache.clear();
    assert_eq!(cache.len(), 0);
}

#[test]
fn cover_art_is_looked_up_under_its_identifier() {
    let mut cache = CoverCache::new();
    let items = vec![item(ItemKey::AlbumTitle, Some("a")), item(ItemKey::AlbumArtist, Some("b"))];
    let id = content_id(&b"abc".to_vec());
    match cache.cover_art(&items, "/c/f", Some("c")) {
        CoverLookup::Missing(uuid) => assert_eq!(uuid, id),
        CoverLookup::Cached(..) => panic!("nothing is kept yet"),
    }
    assert!(cache.store(id.clone(), None, Some("/cache/x.png".to_string())).is_none());
    assert_eq!(cache.len(), 0);
    let kept = cache
        .store(id.clone(), Some(vec![Rgb { r: 5, g: 6, b: 7 }]), Some("/cache/x.png".to_string()))
        .unwrap();
    assert_eq!(kept.1, id);
    assert_eq!(kept.0.cache(), Some("/cache/x.png"));
    match cache.cover_art(&items, "/c/other", Some("c")) {
        CoverLookup::Cached(cover, uuid) => {
            assert_eq!(uuid, id);
            assert_eq!(cover.palette(), &vec![Rgb { r: 5, g: 6, b: 7 }]);
        }
        CoverLookup::Missing(_) => panic!("the cover is kept"),
    }
    let again = cache.store(id.clone(), Some(vec![Rgb { r: 0, g: 0, b: 0 }]), None).unwrap();
    assert_eq!(again.0.palette(), &vec![Rgb { r: 5, g: 6, b: 7 }]);
}
