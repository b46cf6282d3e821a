//! The covers of the songs in the queue, kept once per album: how a cover
//! is identified, which picture of a file is taken for it, and the cache
//! that holds what is kept of each cover.

use crate::digest::{content_id, spec_content_id};
use crate::song::{append_text, text_bytes, text_view, CoverArt, CoverArtView, Rgb};
use vstd::prelude::*;
use vstd::utf8::encode_utf8;

verus! {

/// The kinds of tag entries that matter for a cover.
#[derive(Clone, Copy, Debug, PartialEq, Eq, Structural)]
pub enum ItemKey {
    AlbumTitle,
    AlbumArtist,
    TrackArtist,
    Other,
}

/// One entry of a tag: its kind, and its text where its value is a text.
#[derive(Debug)]
pub struct TagItem {
    pub key: ItemKey,
    pub text: Option<String>,
}

pub struct TagItemView {
    pub key: ItemKey,
    pub text: Option<Seq<char>>,
}

impl View for TagItem {
    type V = TagItemView;

    open spec fn view(&self) -> TagItemView {
        TagItemView { key: self.key, text: text_view(self.text) }
    }
}

/// The views of the entries of a tag.
pub open spec fn items_view(items: Seq<TagItem>) -> Seq<TagItemView> {
    items.map_values(|item: TagItem| item@)
}

/// What a tag says under `key`: the text of its last entry of that kind,
/// nothing where that entry is no text or where there is no such entry.
pub open spec fn item_text(items: Seq<TagItemView>, key: ItemKey) -> Option<Seq<char>>
    decreases items.len(),
{
    if items.len() == 0 {
        None
    } else if items.last().key == key {
        items.last().text
    } else {
        item_text(items.drop_last(), key)
    }
}

/// The bytes that identify the cover of a file. With an album known they
/// are the album, the artist of the album (or, where the tag names none,
/// the artist of the track), and the folder of the file if it has one, so
/// that the tracks of an album share their cover. Without an album they are
/// the path of the file.
pub open spec fn cover_id_bytes(
    items: Seq<TagItemView>,
    path: Seq<char>,
    parent: Option<Seq<char>>,
) -> Seq<u8> {
    match item_text(items, ItemKey::AlbumTitle) {
        Some(album) => encode_utf8(album) + text_bytes(
            if item_text(items, ItemKey::AlbumArtist) is Some {
                item_text(items, ItemKey::AlbumArtist)
            } else {
                item_text(items, ItemKey::TrackArtist)
            },
        ) + text_bytes(parent),
        None => encode_utf8(path),
    }
}

/// The identifier of the cover of a file.
pub open spec fn spec_cover_id(
    items: Seq<TagItemView>,
    path: Seq<char>,
    parent: Option<Seq<char>>,
) -> Seq<char> {
    spec_content_id(cover_id_bytes(items, path, parent))
}

fn last_text(items: &Vec<TagItem>, key: ItemKey) -> (res: Option<&str>)
    ensures
        crate::song::str_view(res) == item_text(items_view(items@), key),
{
    let mut found: Option<&str> = None;
    let mut i: usize = 0;
    assert(items_view(items@).take(0) =~= Seq::empty());
    while i < items.len()
        invariant
            i <= items.len(),
            crate::song::str_view(found) == item_text(items_view(items@).take(i as int), key),
        decreases items.len() - i,
    {
        proof {
            let next = items_view(items@).take(i + 1);
            assert(next.drop_last() =~= items_view(items@).take(i as int));
            assert(next.last() == items@[i as int]@);
        }
        if items[i].key == key {
            found = match &items[i].text {
                Some(text) => Some(text.as_str()),
                None => None,
            };
        }
        i += 1;
    }
    assert(items_view(items@).take(i as int) =~= items_view(items@));
    found
}

/// Computes the identifier of the cover of the file at `path`, which lies
/// in the folder `parent`, from the entries of one of its tags.
pub fn cover_id(items: &Vec<TagItem>, path: &str, parent: Option<&str>) -> (res: String)
    ensures
        res@ == spec_cover_id(items_view(items@), path@, crate::song::str_view(parent)),
{
    let album = last_text(items, ItemKey::AlbumTitle);
    let album_artist = last_text(items, ItemKey::AlbumArtist);
    let track_artist = last_text(items, ItemKey::TrackArtist);
    let mut bytes: Vec<u8> = Vec::new();
    match album {
        Some(album) => {
            append_text(&mut bytes, album);
            match album_artist {
                Some(artist) => append_text(&mut bytes, artist),
                None => match track_artist {
                    Some(artist) => append_text(&mut bytes, artist),
                    None => {},
                },
            }
            match parent {
                Some(folder) => append_text(&mut bytes, folder),
                None => {},
            }
        },
        None => {
            append_text(&mut bytes, path);
        },
    }
    assert(bytes@ =~= cover_id_bytes(items_view(items@), path@, crate::song::str_view(parent)));
    content_id(&bytes)
}

/// What a picture in a tag is said to show.
#[derive(Clone, Copy, Debug, PartialEq, Eq, Structural)]
pub enum PictureKind {
    CoverFront,
    BandLogo,
    Other,
    Unrelated,
}

/// Whether a picture may stand in where a file has no front cover.
pub open spec fn is_fallback(kind: PictureKind) -> bool {
    kind == PictureKind::Other || kind == PictureKind::BandLogo
}

/// `index` is the picture taken for the cover: the first front cover, or,
/// in a tag without front cover, the first picture that may stand in.
pub open spec fn is_chosen(kinds: Seq<PictureKind>, index: int) -> bool {
    &&& 0 <= index < kinds.len()
    &&& if kinds.contains(PictureKind::CoverFront) {
        kinds[index] == PictureKind::CoverFront && forall|j: int|
            0 <= j < index ==> kinds[j] != PictureKind::CoverFront
    } else {
        is_fallback(kinds[index]) && forall|j: int| 0 <= j < index ==> !is_fallback(kinds[j])
    }
}

/// Whether a tag has a picture that can be taken for the cover.
pub open spec fn has_choice(kinds: Seq<PictureKind>) -> bool {
    exists|j: int| 0 <= j < kinds.len() && (kinds[j] == PictureKind::CoverFront || is_fallback(kinds[j]))
}

/// Chooses the picture of a tag that is taken for the cover, given what
/// each picture of the tag shows.
pub fn choose_picture(kinds: &Vec<PictureKind>) -> (res: Option<usize>)
    ensures
        match res {
            Some(index) => is_chosen(kinds@, index as int),
            None => !has_choice(kinds@),
        },
{
    let mut fallback: Option<usize> = None;
    let mut i: usize = 0;
    while i < kinds.len()
        invariant
            i <= kinds.len(),
            forall|j: int| 0 <= j < i ==> kinds@[j] != PictureKind::CoverFront,
            match fallback {
                Some(f) => f < i && is_fallback(kinds@[f as int]) && forall|j: int|
                    0 <= j < f ==> !is_fallback(kinds@[j]),
                None => forall|j: int| 0 <= j < i ==> !is_fallback(kinds@[j]),
            },
        decreases kinds.len() - i,
    {
        match kinds[i] {
            PictureKind::CoverFront => {
                assert(kinds@.contains(PictureKind::CoverFront));
                return Some(i);
            },
            PictureKind::Other | PictureKind::BandLogo => {
                if fallback.is_none() {
                    fallback = Some(i);
                }
            },
            PictureKind::Unrelated => {},
        }
        i += 1;
    }
    fallback
}

/// The names under which a cover is looked for beside a file that carries
/// none, in the order in which they are tried.
pub open spec fn spec_external_cover_names() -> Seq<Seq<char>> {
    seq!["Cover.jpg"@, "Cover.png"@, "cover.jpg"@, "cover.png"@]
}

pub fn external_cover_names() -> (res: Vec<&'static str>)
    ensures
        res@.len() == 4,
        forall|i: int| 0 <= i < 4 ==> (#[trigger] res@[i])@ == spec_external_cover_names()[i],
{
    let mut names: Vec<&'static str> = Vec::new();
    names.push("Cover.jpg");
    names.push("Cover.png");
    names.push("cover.jpg");
    names.push("cover.png");
    names
}

struct Entry {
    uuid: String,
    cover: CoverArt,
}

/// The covers that are kept, each under its identifier. Nothing leaves the
/// cache but by `clear`.
pub struct CoverCache {
    entries: Vec<Entry>,
}

impl CoverCache {
    spec fn keys_differ(&self) -> bool {
        forall|i: int, j: int|
            0 <= i < j < self.entries@.len() ==> (#[trigger] self.entries@[i]).uuid@
                != (#[trigger] self.entries@[j]).uuid@
    }

    spec fn has(&self, key: Seq<char>) -> bool {
        exists|i: int| 0 <= i < self.entries@.len() && (#[trigger] self.entries@[i]).uuid@ == key
    }

    spec fn at(&self, key: Seq<char>) -> int {
        choose|i: int| 0 <= i < self.entries@.len() && (#[trigger] self.entries@[i]).uuid@ == key
    }

    /// No identifier is kept twice.
    pub closed spec fn wf(&self) -> bool {
        self.keys_differ()
    }

    fn find(&self, uuid: &str) -> (res: Option<usize>)
        requires
            self.wf(),
        ensures
            match res {
                Some(i) => self.has(uuid@) && self.at(uuid@) == i && i < self.entries@.len(),
                None => !self.has(uuid@),
            },
    {
        let wanted = uuid.to_owned();
        let mut i: usize = 0;
        while i < self.entries.len()
            invariant
                self.wf(),
                wanted@ == uuid@,
                i <= self.entries.len(),
                forall|j: int| 0 <= j < i ==> (#[trigger] self.entries@[j]).uuid@ != uuid@,
            decreases self.entries.len() - i,
        {
            if self.entries[i].uuid == wanted {
                assert(self.entries@[i as int].uuid@ == uuid@);
                return Some(i);
            }
            i += 1;
        }
        None
    }
}

impl View for CoverCache {
    type V = Map<Seq<char>, CoverArtView>;

    closed spec fn view(&self) -> Map<Seq<char>, CoverArtView> {
        Map::new(|key: Seq<char>| self.has(key), |key: Seq<char>| self.entries@[self.at(key)].cover@)
    }
}

/// What looking for the cover of a file in the cache gave.
#[derive(Debug)]
pub enum CoverLookup {
    /// The cover is kept: here it is, with its identifier.
    Cached(CoverArt, String),
    /// The cover is not kept: it is to be loaded, and kept under this
    /// identifier.
    Missing(String),
}

impl CoverCache {
    /// An empty cache.
    pub fn new() -> (res: CoverCache)
        ensures
            res.wf(),
            res@ == Map::<Seq<char>, CoverArtView>::empty(),
    {
        let res = CoverCache { entries: Vec::new() };
        assert(res@ =~= Map::<Seq<char>, CoverArtView>::empty());
        res
    }

    /// The cover kept under `uuid`.
    pub fn lookup(&self, uuid: &str) -> (res: Option<&CoverArt>)
        requires
            self.wf(),
        ensures
            match res {
                Some(cover) => self@.contains_key(uuid@) && self@[uuid@] == cover@,
                None => !self@.contains_key(uuid@),
            },
    {
        match self.find(uuid) {
            Some(i) => Some(&self.entries[i].cover),
            None => None,
        }
    }

    /// Keeps `cover` under `uuid`, unless a cover is kept under it already,
    /// which then stays. Returns the cover that is kept under `uuid`
    /// afterwards.
    pub fn add_entry(&mut self, uuid: &str, cover: CoverArt) -> (res: &CoverArt)
        requires
            old(self).wf(),
        ensures
            final(self).wf(),
            final(self)@ == if old(self)@.contains_key(uuid@) {
                old(self)@
            } else {
                old(self)@.insert(uuid@, cover@)
            },
            res@ == final(self)@[uuid@],
    {
        let at = match self.find(uuid) {
            Some(i) => i,
            None => {
                let ghost before = *self;
                self.entries.push(Entry { uuid: uuid.to_owned(), cover });
                proof {
                    let n = before.entries@.len() as int;
                    assert(self.entries@[n].uuid@ == uuid@);
                    assert(self.has(uuid@));
                    assert(self.keys_differ());
                    assert(self.at(uuid@) == n);
                    assert forall|key: Seq<char>| self.has(key) <==> (key == uuid@ || before.has(
                        key,
                    )) by {
                        if before.has(key) {
                            let i = before.at(key);
                            assert(self.entries@[i].uuid@ == key);
                        }
                        if self.has(key) && key != uuid@ {
                            let i = self.at(key);
                            assert(before.entries@[i].uuid@ == key);
                        }
                    }
                    assert forall|key: Seq<char>| before.has(key) implies self.entries@[self.at(
                        key,
                    )].cover@ == before.entries@[before.at(key)].cover@ by {
                        let i = before.at(key);
                        assert(self.entries@[i].uuid@ == key);
                        assert(self.at(key) == i);
                    }
                    assert(self@ =~= before@.insert(uuid@, cover@));
                }
                self.entries.len() - 1
            },
        };
        &self.entries[at].cover
    }

    /// Looks for the cover of the file at `path`, which lies in the folder
    /// `parent`, under the identifier that the entries of its tag give.
    pub fn cover_art(&self, items: &Vec<TagItem>, path: &str, parent: Option<&str>) -> (res:
        CoverLookup)
        requires
            self.wf(),
        ensures
            match res {
                CoverLookup::Cached(cover, uuid) => {
                    &&& uuid@ == spec_cover_id(items_view(items@), path@, crate::song::str_view(parent))
                    &&& self@.contains_key(uuid@)
                    &&& cover@ == self@[uuid@]
                },
                CoverLookup::Missing(uuid) => {
                    &&& uuid@ == spec_cover_id(items_view(items@), path@, crate::song::str_view(parent))
                    &&& !self@.contains_key(uuid@)
                },
            },
    {
        let uuid = cover_id(items, path, parent);
        match self.lookup(uuid.as_str()) {
            Some(cover) => CoverLookup::Cached(cover.clone(), uuid),
            None => CoverLookup::Missing(uuid),
        }
    }

    /// Keeps a cover that was loaded: its palette, and the place where a
    /// copy of the picture was cached. A cover without palette is not kept.
    /// Returns what is kept under `uuid`, with the identifier.
    pub fn store(&mut self, uuid: String, palette: Option<Vec<Rgb>>, cache: Option<String>) -> (res:
        Option<(CoverArt, String)>)
        requires
            old(self).wf(),
        ensures
            final(self).wf(),
            match res {
                Some(kept) => {
                    &&& palette is Some
                    &&& kept.1@ == uuid@
                    &&& final(self)@ == if old(self)@.contains_key(uuid@) {
                        old(self)@
                    } else {
                        old(self)@.insert(
                            uuid@,
                            CoverArtView { palette: palette->0@, cache: text_view(cache) },
                        )
                    }
                    &&& kept.0@ == final(self)@[uuid@]
                },
                None => palette is None && final(self)@ == old(self)@,
            },
    {
        match palette {
            Some(colors) => {
                let cover = CoverArt::new(colors, cache);
                let kept = self.add_entry(uuid.as_str(), cover).clone();
                Some((kept, uuid))
            },
            None => None,
        }
    }

    /// How many covers are kept.
    pub fn len(&self) -> (res: usize)
        requires
            self.wf(),
        ensures
            res == self@.len(),
            self@.dom().finite(),
    {
        proof {
            self.lemma_len();
        }
        self.entries.len()
    }

    /// Forgets every cover.
    pub fn clear(&mut self)
        ensures
            final(self).wf(),
            final(self)@ == Map::<Seq<char>, CoverArtView>::empty(),
    {
        self.entries.clear();
        assert(self@ =~= Map::<Seq<char>, CoverArtView>::empty());
    }

    proof fn lemma_len(&self)
        requires
            self.wf(),
        ensures
            self@.dom().finite(),
            self@.len() == self.entries@.len(),
    {
        let keys = self.entries@.map_values(|e: Entry| e.uuid@);
        assert(keys.no_duplicates());
        keys.unique_seq_to_set();
        assert(keys.to_set() =~= self@.dom()) by {
            assert forall|key: Seq<char>| keys.to_set().contains(key) <==> self@.dom().contains(
                key,
            ) by {
                if keys.contains(key) {
                    let i = choose|i: int| 0 <= i < keys.len() && keys[i] == key;
                    assert(self.entries@[i].uuid@ == key);
                }
                if self.has(key) {
                    let i = self.at(key);
                    assert(keys[i] == key);
                }
            }
        }
    }
}

} // verus!
