//! Songs: the metadata read from an audio file, the identity derived from
//! it, and the two flags the interface toggles.

use crate::digest::{content_id, spec_content_id};
use vstd::prelude::*;
use vstd::utf8::encode_utf8;

verus! {

/// The text of an optional string.
pub open spec fn text_view(text: Option<String>) -> Option<Seq<char>> {
    match text {
        Some(s) => Some(s@),
        None => None,
    }
}

/// The text of an optional string slice.
pub open spec fn str_view(text: Option<&str>) -> Option<Seq<char>> {
    match text {
        Some(s) => Some(s@),
        None => None,
    }
}

/// A copy of an optional text.
pub fn clone_text(text: &Option<String>) -> (res: Option<String>)
    ensures
        text_view(res) == text_view(*text),
{
    match text {
        Some(s) => Some(s.clone()),
        None => None,
    }
}

fn borrow_text(text: &Option<String>) -> (res: Option<&str>)
    ensures
        str_view(res) == text_view(*text),
{
    match text {
        Some(s) => Some(s.as_str()),
        None => None,
    }
}

/// One colour of a cover's palette.
#[derive(Clone, Copy, Debug, PartialEq, Eq, Structural)]
pub struct Rgb {
    pub r: u8,
    pub g: u8,
    pub b: u8,
}

/// What is kept of a cover image: its dominant colours, strongest first,
/// and the place where a copy of the picture was cached, if it was.
#[derive(Debug)]
pub struct CoverArt {
    palette: Vec<Rgb>,
    cache: Option<String>,
}

pub struct CoverArtView {
    pub palette: Seq<Rgb>,
    pub cache: Option<Seq<char>>,
}

impl View for CoverArt {
    type V = CoverArtView;

    closed spec fn view(&self) -> CoverArtView {
        CoverArtView { palette: self.palette@, cache: text_view(self.cache) }
    }
}

impl Clone for CoverArt {
    fn clone(&self) -> (res: Self)
        ensures
            res@ == self@,
    {
        let mut palette: Vec<Rgb> = Vec::new();
        let mut i: usize = 0;
        while i < self.palette.len()
            invariant
                i <= self.palette.len(),
                palette@ == self.palette@.take(i as int),
            decreases self.palette.len() - i,
        {
            palette.push(self.palette[i]);
            assert(self.palette@.take(i as int).push(self.palette@[i as int])
                =~= self.palette@.take(i + 1));
            i += 1;
        }
        assert(self.palette@.take(i as int) =~= self.palette@);
        CoverArt { palette, cache: clone_text(&self.cache) }
    }
}

impl CoverArt {
    pub fn new(palette: Vec<Rgb>, cache: Option<String>) -> (res: CoverArt)
        ensures
            res@ == (CoverArtView { palette: palette@, cache: text_view(cache) }),
    {
        CoverArt { palette, cache }
    }

    pub fn palette(&self) -> (res: &Vec<Rgb>)
        ensures
            res@ == self@.palette,
    {
        &self.palette
    }

    pub fn cache(&self) -> (res: Option<&str>)
        ensures
            str_view(res) == self@.cache,
    {
        borrow_text(&self.cache)
    }
}

/// The view of an optional cover.
pub open spec fn cover_view(cover: Option<CoverArt>) -> Option<CoverArtView> {
    match cover {
        Some(c) => Some(c@),
        None => None,
    }
}

fn clone_cover(cover: &Option<CoverArt>) -> (res: Option<CoverArt>)
    ensures
        cover_view(res) == cover_view(*cover),
{
    match cover {
        Some(c) => Some(c.clone()),
        None => None,
    }
}

/// The metadata of one audio file. It does not change once it is built.
#[derive(Debug)]
pub struct SongData {
    artist: Option<String>,
    title: Option<String>,
    album: Option<String>,
    cover_art: Option<CoverArt>,
    cover_uuid: Option<String>,
    uuid: Option<String>,
    duration: u64,
    uri: String,
}

pub struct SongDataView {
    pub artist: Option<Seq<char>>,
    pub title: Option<Seq<char>>,
    pub album: Option<Seq<char>>,
    pub cover_art: Option<CoverArtView>,
    pub cover_uuid: Option<Seq<char>>,
    pub uuid: Option<Seq<char>>,
    pub duration: u64,
    pub uri: Seq<char>,
}

impl View for SongData {
    type V = SongDataView;

    closed spec fn view(&self) -> SongDataView {
        SongDataView {
            artist: text_view(self.artist),
            title: text_view(self.title),
            album: text_view(self.album),
            cover_art: cover_view(self.cover_art),
            cover_uuid: text_view(self.cover_uuid),
            uuid: text_view(self.uuid),
            duration: self.duration,
            uri: self.uri@,
        }
    }
}

/// The metadata that stands for a file that could not be read. A song built
/// from it is never accepted into the queue.
pub open spec fn invalid_song_data() -> SongDataView {
    SongDataView {
        artist: Some("Invalid Artist"@),
        title: Some("Invalid Title"@),
        album: Some("Invalid Album"@),
        cover_art: None,
        cover_uuid: None,
        uuid: None,
        duration: 0,
        uri: "file:///does-not-exist"@,
    }
}

impl Default for SongData {
    fn default() -> (res: Self)
        ensures
            res@ == invalid_song_data(),
    {
        SongData {
            artist: Some("Invalid Artist".to_owned()),
            title: Some("Invalid Title".to_owned()),
            album: Some("Invalid Album".to_owned()),
            cover_art: None,
            cover_uuid: None,
            uuid: None,
            duration: 0,
            uri: "file:///does-not-exist".to_owned(),
        }
    }
}

impl Clone for SongData {
    fn clone(&self) -> (res: Self)
        ensures
            res@ == self@,
    {
        SongData {
            artist: clone_text(&self.artist),
            title: clone_text(&self.title),
            album: clone_text(&self.album),
            cover_art: clone_cover(&self.cover_art),
            cover_uuid: clone_text(&self.cover_uuid),
            uuid: clone_text(&self.uuid),
            duration: self.duration,
            uri: self.uri.clone(),
        }
    }
}

impl SongData {
    pub fn artist(&self) -> (res: Option<&str>)
        ensures
            str_view(res) == self@.artist,
    {
        borrow_text(&self.artist)
    }

    pub fn title(&self) -> (res: Option<&str>)
        ensures
            str_view(res) == self@.title,
    {
        borrow_text(&self.title)
    }

    pub fn album(&self) -> (res: Option<&str>)
        ensures
            str_view(res) == self@.album,
    {
        borrow_text(&self.album)
    }

    pub fn uuid(&self) -> (res: Option<&str>)
        ensures
            str_view(res) == self@.uuid,
    {
        borrow_text(&self.uuid)
    }

    pub fn cover_uuid(&self) -> (res: Option<&str>)
        ensures
            str_view(res) == self@.cover_uuid,
    {
        borrow_text(&self.cover_uuid)
    }

    pub fn duration(&self) -> (res: u64)
        ensures
            res == self@.duration,
    {
        self.duration
    }

    pub fn cover_palette(&self) -> (res: Option<&Vec<Rgb>>)
        ensures
            match res {
                Some(p) => self@.cover_art is Some && p@ == self@.cover_art->0.palette,
                None => self@.cover_art is None,
            },
    {
        match &self.cover_art {
            Some(cover) => Some(cover.palette()),
            None => None,
        }
    }

    pub fn cover_cache(&self) -> (res: Option<&str>)
        ensures
            str_view(res) == match self@.cover_art {
                Some(cover) => cover.cache,
                None => None,
            },
    {
        match &self.cover_art {
            Some(cover) => cover.cache(),
            None => None,
        }
    }

    pub fn uri(&self) -> (res: String)
        ensures
            res@ == self@.uri,
    {
        self.uri.clone()
    }
}

/// Whether two songs are the same song: by identifier where both carry
/// one, by location otherwise.
pub open spec fn same_song(a: SongDataView, b: SongDataView) -> bool {
    if a.uuid is Some && b.uuid is Some {
        a.uuid == b.uuid
    } else {
        a.uri == b.uri
    }
}

/// Whether a song is the stand-in for an unreadable file.
pub open spec fn is_invalid(a: SongDataView) -> bool {
    same_song(a, invalid_song_data())
}

/// A song of the queue: its metadata, whether it is the one being played,
/// and whether the user has selected it.
#[derive(Debug)]
pub struct Song {
    data: SongData,
    playing: bool,
    selected: bool,
}

pub struct SongView {
    pub data: SongDataView,
    pub playing: bool,
    pub selected: bool,
}

impl View for Song {
    type V = SongView;

    closed spec fn view(&self) -> SongView {
        SongView { data: self.data@, playing: self.playing, selected: self.selected }
    }
}

impl Clone for Song {
    fn clone(&self) -> (res: Self)
        ensures
            res@ == self@,
    {
        Song { data: self.data.clone(), playing: self.playing, selected: self.selected }
    }
}

impl Default for Song {
    fn default() -> (res: Self)
        ensures
            res@ == (SongView { data: invalid_song_data(), playing: false, selected: false }),
    {
        Song::empty()
    }
}

/// The text shown for a field: the field itself where the file has it, the
/// caller's wording for an unknown one otherwise.
pub open spec fn text_or(text: Option<Seq<char>>, unknown: Seq<char>) -> Seq<char> {
    match text {
        Some(t) => t,
        None => unknown,
    }
}

fn text_or_unknown(text: &Option<String>, unknown: &str) -> (res: String)
    ensures
        res@ == text_or(text_view(*text), unknown@),
{
    match text {
        Some(t) => t.clone(),
        None => unknown.to_owned(),
    }
}

impl Song {
    /// A song with the given metadata, neither playing nor selected.
    pub fn new(data: SongData) -> (res: Song)
        ensures
            res@ == (SongView { data: data@, playing: false, selected: false }),
    {
        Song { data, playing: false, selected: false }
    }

    /// The stand-in for a file that could not be read.
    pub fn empty() -> (res: Song)
        ensures
            res@ == (SongView { data: invalid_song_data(), playing: false, selected: false }),
    {
        Song { data: SongData::default(), playing: false, selected: false }
    }

    pub fn data(&self) -> (res: &SongData)
        ensures
            res@ == self@.data,
    {
        &self.data
    }

    /// Whether this is the same song as `other`.
    pub fn equals(&self, other: &Song) -> (res: bool)
        ensures
            res == same_song(self@.data, other@.data),
    {
        match (&self.data.uuid, &other.data.uuid) {
            (Some(a), Some(b)) => *a == *b,
            _ => self.data.uri == other.data.uri,
        }
    }

    /// Whether this song stands for an unreadable file.
    pub fn is_invalid(&self) -> (res: bool)
        ensures
            res == is_invalid(self@.data),
    {
        let sentinel = "file:///does-not-exist".to_owned();
        self.data.uri == sentinel
    }

    pub fn uri(&self) -> (res: String)
        ensures
            res@ == self@.data.uri,
    {
        self.data.uri()
    }

    pub fn artist(&self, unknown: &str) -> (res: String)
        ensures
            res@ == text_or(self@.data.artist, unknown@),
    {
        text_or_unknown(&self.data.artist, unknown)
    }

    pub fn title(&self, unknown: &str) -> (res: String)
        ensures
            res@ == text_or(self@.data.title, unknown@),
    {
        text_or_unknown(&self.data.title, unknown)
    }

    pub fn album(&self, unknown: &str) -> (res: String)
        ensures
            res@ == text_or(self@.data.album, unknown@),
    {
        text_or_unknown(&self.data.album, unknown)
    }

    /// The strongest colour of the cover, where the song has a cover with a
    /// palette that is not empty.
    pub fn cover_color(&self) -> (res: Option<Rgb>)
        ensures
            res == match self@.data.cover_art {
                Some(cover) => if cover.palette.len() > 0 {
                    Some(cover.palette[0])
                } else {
                    None
                },
                None => None,
            },
    {
        match self.data.cover_palette() {
            Some(palette) => if palette.len() > 0 {
                Some(palette[0])
            } else {
                None
            },
            None => None,
        }
    }

    pub fn cover_palette(&self) -> (res: Option<&Vec<Rgb>>)
        ensures
            match res {
                Some(p) => self@.data.cover_art is Some && p@ == self@.data.cover_art->0.palette,
                None => self@.data.cover_art is None,
            },
    {
        self.data.cover_palette()
    }

    pub fn cover_uuid(&self) -> (res: Option<String>)
        ensures
            text_view(res) == self@.data.cover_uuid,
    {
        clone_text(&self.data.cover_uuid)
    }

    pub fn cover_cache(&self) -> (res: Option<&str>)
        ensures
            str_view(res) == match self@.data.cover_art {
                Some(cover) => cover.cache,
                None => None,
            },
    {
        self.data.cover_cache()
    }

    pub fn duration(&self) -> (res: u64)
        ensures
            res == self@.data.duration,
    {
        self.data.duration
    }

    pub fn playing(&self) -> (res: bool)
        ensures
            res == self@.playing,
    {
        self.playing
    }

    /// Marks the song as playing or not. Returns whether the mark changed,
    /// which is when those who show the song have to be told.
    pub fn set_playing(&mut self, playing: bool) -> (changed: bool)
        ensures
            final(self)@ == (SongView { playing, ..old(self)@ }),
            changed == (old(self)@.playing != playing),
    {
        let was_playing = self.playing;
        self.playing = playing;
        was_playing != playing
    }

    pub fn selected(&self) -> (res: bool)
        ensures
            res == self@.selected,
    {
        self.selected
    }

    /// Selects or unselects the song. Returns whether that changed anything.
    pub fn set_selected(&mut self, selected: bool) -> (changed: bool)
        ensures
            final(self)@ == (SongView { selected, ..old(self)@ }),
            changed == (old(self)@.selected != selected),
    {
        let was_selected = self.selected;
        self.selected = selected;
        was_selected != selected
    }

    pub fn uuid(&self) -> (res: Option<String>)
        ensures
            text_view(res) == self@.data.uuid,
    {
        clone_text(&self.data.uuid)
    }

    /// The text that a search is matched against: artist, album and title,
    /// each separated from the next by one space.
    pub fn search_key(&self, unknown_artist: &str, unknown_album: &str, unknown_title: &str) -> (res:
        String)
        ensures
            res@ == spec_search_key(self@.data, unknown_artist@, unknown_album@, unknown_title@),
    {
        proof {
            reveal_strlit(" ");
        }
        let mut key = self.artist(unknown_artist);
        key.append(" ");
        key.append(self.album(unknown_album).as_str());
        key.append(" ");
        key.append(self.title(unknown_title).as_str());
        key
    }
}

/// How a song is written out where a text is wanted of it.
pub open spec fn spec_song_text(
    data: SongDataView,
    unknown_artist: Seq<char>,
    unknown_title: Seq<char>,
) -> Seq<char>
    recommends
        data.uuid is Some,
{
    "Song { uuid: "@ + data.uuid->0 + ", uri: "@ + data.uri + ", artist: '"@ + text_or(
        data.artist,
        unknown_artist,
    ) + "', title: '"@ + text_or(data.title, unknown_title) + "' }"@
}

impl Song {
    /// Writes the song out: its identifier, its location, its artist and
    /// its title. The song has to have an identifier.
    pub fn to_string(&self, unknown_artist: &str, unknown_title: &str) -> (res: String)
        requires
            self@.data.uuid is Some,
        ensures
            res@ == spec_song_text(self@.data, unknown_artist@, unknown_title@),
    {
        let mut out = "Song { uuid: ".to_owned();
        match &self.data.uuid {
            Some(uuid) => out.append(uuid.as_str()),
            None => {},
        }
        out.append(", uri: ");
        out.append(self.data.uri.as_str());
        out.append(", artist: '");
        out.append(self.artist(unknown_artist).as_str());
        out.append("', title: '");
        out.append(self.title(unknown_title).as_str());
        out.append("' }");
        out
    }
}

pub open spec fn spec_search_key(
    data: SongDataView,
    unknown_artist: Seq<char>,
    unknown_album: Seq<char>,
    unknown_title: Seq<char>,
) -> Seq<char> {
    text_or(data.artist, unknown_artist) + seq![' '] + text_or(data.album, unknown_album) + seq![
        ' ',
    ] + text_or(data.title, unknown_title)
}

/// Being the same song is reflexive and symmetric. It is not transitive: a
/// song without identifier can share its location with two songs whose
/// identifiers differ.
pub proof fn lemma_same_song_reflexive_symmetric(a: SongDataView, b: SongDataView)
    ensures
        same_song(a, a),
        same_song(a, b) == same_song(b, a),
{
}

/// What one tag of an audio file says. `cover` is the cover found for the
/// tag, with its identifier.
#[derive(Debug)]
pub struct Tag {
    pub artist: Option<String>,
    pub title: Option<String>,
    pub album: Option<String>,
    pub cover: Option<(CoverArt, String)>,
}

pub struct TagView {
    pub artist: Option<Seq<char>>,
    pub title: Option<Seq<char>>,
    pub album: Option<Seq<char>>,
    pub cover: Option<(CoverArtView, Seq<char>)>,
}

impl View for Tag {
    type V = TagView;

    open spec fn view(&self) -> TagView {
        TagView {
            artist: text_view(self.artist),
            title: text_view(self.title),
            album: text_view(self.album),
            cover: match self.cover {
                Some((art, id)) => Some((art@, id@)),
                None => None,
            },
        }
    }
}

/// What a metadata reader found in an audio file: the name the file is
/// shown under, if that could be asked; the tag that the file's format
/// prefers, if the file has it; all tags of the file in order; and the
/// length in seconds.
#[derive(Debug)]
pub struct AudioFile {
    pub display_name: Option<String>,
    pub primary_tag: Option<Tag>,
    pub tags: Vec<Tag>,
    pub duration: u64,
}

pub struct AudioFileView {
    pub display_name: Option<Seq<char>>,
    pub primary_tag: Option<TagView>,
    pub tags: Seq<TagView>,
    pub duration: u64,
}

impl View for AudioFile {
    type V = AudioFileView;

    open spec fn view(&self) -> AudioFileView {
        AudioFileView {
            display_name: text_view(self.display_name),
            primary_tag: match self.primary_tag {
                Some(tag) => Some(tag@),
                None => None,
            },
            tags: self.tags@.map_values(|t: Tag| t@),
            duration: self.duration,
        }
    }
}

/// What has been gathered from the tags of a file.
pub struct Reading {
    pub artist: Option<Seq<char>>,
    pub title: Option<Seq<char>>,
    pub album: Option<Seq<char>>,
    pub cover: Option<(CoverArtView, Seq<char>)>,
}

/// Nothing gathered yet.
pub open spec fn nothing_read() -> Reading {
    Reading { artist: None, title: None, album: None, cover: None }
}

/// What is gathered once `tag` has been read: its artist, title and album
/// stand, whatever was gathered before; its cover stands if it has one.
pub open spec fn read_tag(so_far: Reading, tag: TagView) -> Reading {
    Reading {
        artist: tag.artist,
        title: tag.title,
        album: tag.album,
        cover: if tag.cover is Some {
            tag.cover
        } else {
            so_far.cover
        },
    }
}

/// What is gathered from a run of tags: they are read in order, up to and
/// including the first that leaves both artist and title known.
pub open spec fn read_tags(so_far: Reading, tags: Seq<TagView>) -> Reading
    decreases tags.len(),
{
    if tags.len() == 0 {
        so_far
    } else {
        let next = read_tag(so_far, tags[0]);
        if next.artist is Some && next.title is Some {
            next
        } else {
            read_tags(next, tags.drop_first())
        }
    }
}

/// What is gathered from a file: from its preferred tag alone where it has
/// one, from the run of its tags otherwise.
pub open spec fn read_file(file: AudioFileView) -> Reading {
    match file.primary_tag {
        Some(tag) => read_tag(nothing_read(), tag),
        None => read_tags(nothing_read(), file.tags),
    }
}

/// The bytes of an optional text in UTF-8, none where there is no text.
pub open spec fn text_bytes(text: Option<Seq<char>>) -> Seq<u8> {
    match text {
        Some(t) => encode_utf8(t),
        None => Seq::empty(),
    }
}

/// The identifier of a song: the digest of the name its file is shown
/// under, followed by its artist, its title and its album where they are
/// known.
pub open spec fn spec_song_id(
    display_name: Seq<char>,
    artist: Option<Seq<char>>,
    title: Option<Seq<char>>,
    album: Option<Seq<char>>,
) -> Seq<char> {
    spec_content_id(
        encode_utf8(display_name) + text_bytes(artist) + text_bytes(title) + text_bytes(album),
    )
}

/// The metadata of the song at `uri`, given what reading its file gave. A
/// file that could not be read gives the stand-in for unreadable files. A
/// file whose name could not be asked gives a song without identifier.
pub open spec fn spec_from_uri(uri: Seq<char>, file: Option<AudioFileView>) -> SongDataView {
    match file {
        Some(f) => {
            let read = read_file(f);
            SongDataView {
                artist: read.artist,
                title: read.title,
                album: read.album,
                cover_art: match read.cover {
                    Some(cover) => Some(cover.0),
                    None => None,
                },
                cover_uuid: match read.cover {
                    Some(cover) => Some(cover.1),
                    None => None,
                },
                uuid: match f.display_name {
                    Some(name) => Some(spec_song_id(name, read.artist, read.title, read.album)),
                    None => None,
                },
                duration: f.duration,
                uri,
            }
        },
        None => invalid_song_data(),
    }
}

/// Appends the UTF-8 bytes of `text`.
pub fn append_text(bytes: &mut Vec<u8>, text: &str)
    ensures
        final(bytes)@ == old(bytes)@ + encode_utf8(text@),
{
    let raw = text.as_bytes();
    let mut i: usize = 0;
    while i < raw.len()
        invariant
            i <= raw.len(),
            raw@ == encode_utf8(text@),
            bytes@ == old(bytes)@ + raw@.take(i as int),
        decreases raw.len() - i,
    {
        bytes.push(raw[i]);
        assert(raw@.take(i + 1) =~= raw@.take(i as int).push(raw@[i as int]));
        assert(bytes@ =~= old(bytes)@ + raw@.take(i + 1));
        i += 1;
    }
    assert(raw@.take(i as int) =~= raw@);
}

fn append_optional_text(bytes: &mut Vec<u8>, text: &Option<String>)
    ensures
        final(bytes)@ == old(bytes)@ + text_bytes(text_view(*text)),
{
    match text {
        Some(t) => append_text(bytes, t.as_str()),
        None => {
            assert(bytes@ =~= old(bytes)@ + Seq::<u8>::empty());
        },
    }
}

/// Computes the identifier of a song.
pub fn song_id(
    display_name: &str,
    artist: &Option<String>,
    title: &Option<String>,
    album: &Option<String>,
) -> (res: String)
    ensures
        res@ == spec_song_id(display_name@, text_view(*artist), text_view(*title), text_view(*album)),
{
    let mut bytes: Vec<u8> = Vec::new();
    append_text(&mut bytes, display_name);
    append_optional_text(&mut bytes, artist);
    append_optional_text(&mut bytes, title);
    append_optional_text(&mut bytes, album);
    assert(bytes@ =~= encode_utf8(display_name@) + text_bytes(text_view(*artist)) + text_bytes(
        text_view(*title),
    ) + text_bytes(text_view(*album)));
    content_id(&bytes)
}

/// What is being gathered while the tags of a file are read.
struct Gathered {
    artist: Option<String>,
    title: Option<String>,
    album: Option<String>,
    cover_art: Option<CoverArt>,
    cover_uuid: Option<String>,
}

impl Gathered {
    spec fn reading(self) -> Reading {
        Reading {
            artist: text_view(self.artist),
            title: text_view(self.title),
            album: text_view(self.album),
            cover: match (self.cover_art, self.cover_uuid) {
                (Some(art), Some(id)) => Some((art@, id@)),
                _ => None,
            },
        }
    }

    spec fn paired(self) -> bool {
        self.cover_art is Some <==> self.cover_uuid is Some
    }

    fn read(&mut self, tag: &Tag)
        requires
            old(self).paired(),
        ensures
            final(self).paired(),
            final(self).reading() == read_tag(old(self).reading(), tag@),
    {
        self.artist = clone_text(&tag.artist);
        self.title = clone_text(&tag.title);
        self.album = clone_text(&tag.album);
        match &tag.cover {
            Some(found) => {
                self.cover_art = Some(found.0.clone());
                self.cover_uuid = Some(found.1.clone());
            },
            None => {},
        }
    }
}

impl SongData {
    /// The metadata of the song at `uri`, from what reading its file gave;
    /// `None` stands for a file that could not be read.
    pub fn from_uri(uri: &str, file: Option<&AudioFile>) -> (res: SongData)
        ensures
            res@ == spec_from_uri(
                uri@,
                match file {
                    Some(f) => Some(f@),
                    None => None,
                },
            ),
    {
        let file = match file {
            Some(f) => f,
            None => {
                return SongData::default();
            },
        };
        let mut gathered = Gathered {
            artist: None,
            title: None,
            album: None,
            cover_art: None,
            cover_uuid: None,
        };
        match &file.primary_tag {
            Some(tag) => {
                gathered.read(tag);
            },
            None => {
                let mut i: usize = 0;
                let mut done = false;
                assert(file@.tags.skip(0) =~= file@.tags);
                assert(gathered.reading() == nothing_read());
                while i < file.tags.len() && !done
                    invariant
                        i <= file.tags.len(),
                        gathered.paired(),
                        done ==> read_tags(nothing_read(), file@.tags) == gathered.reading(),
                        !done ==> read_tags(nothing_read(), file@.tags) == read_tags(
                            gathered.reading(),
                            file@.tags.skip(i as int),
                        ),
                    decreases file.tags.len() - i + (if done { 0int } else { 1int }),
                {
                    let ghost rest = file@.tags.skip(i as int);
                    assert(rest[0] == file.tags@[i as int]@);
                    assert(rest.drop_first() =~= file@.tags.skip(i + 1));
                    gathered.read(&file.tags[i]);
                    if gathered.artist.is_some() && gathered.title.is_some() {
                        done = true;
                    } else {
                        i += 1;
                    }
                }
            },
        }
        let uuid = match &file.display_name {
            Some(name) => Some(
                song_id(name.as_str(), &gathered.artist, &gathered.title, &gathered.album),
            ),
            None => None,
        };
        SongData {
            artist: gathered.artist,
            title: gathered.title,
            album: gathered.album,
            cover_art: gathered.cover_art,
            cover_uuid: gathered.cover_uuid,
            uuid,
            duration: file.duration,
            uri: uri.to_owned(),
        }
    }
}

impl Song {
    /// The song at `uri`, from what reading its file gave. A file that
    /// could not be read, and the location that stands for such files, give
    /// no song.
    pub fn from_uri(uri: &str, file: Option<&AudioFile>) -> (res: Result<Song, &'static str>)
        ensures
            match res {
                Ok(song) => {
                    &&& file is Some
                    &&& !is_invalid(song@.data)
                    &&& song@ == (SongView {
                        data: spec_from_uri(uri@, Some(file->0@)),
                        playing: false,
                        selected: false,
                    })
                },
                Err(message) => {
                    &&& file is None || uri@ == "file:///does-not-exist"@
                    &&& message@ == "Invalid song"@
                },
            },
    {
        let res = Song::new(SongData::from_uri(uri, file));
        if res.is_invalid() {
            Err("Invalid song")
        } else {
            Ok(res)
        }
    }
}

} // verus!
