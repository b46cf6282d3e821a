//! The snapshot of the playlist that is kept between runs: a small text of
//! sections and `key=value` lines, which names the files of the queue in
//! order.
//!
//! A snapshot reads
//!
//! ```text
//! [playlist]
//! X-GNOME-Title=Amberol's current playlist
//! NumberOfEntries=2
//! File0=/music/a.flac
//! File1=/music/b.flac
//! ```

use crate::utils::digit;
use vstd::prelude::*;

verus! {

pub open spec fn is_blank(byte: u8) -> bool {
    byte == 0x20 || byte == 0x09
}

/// The first position from `from` on, and before `to`, that holds `byte`;
/// `to` where there is none.
pub open spec fn find_byte(data: Seq<u8>, from: int, to: int, byte: u8) -> int
    decreases to - from,
{
    if from >= to {
        to
    } else if data[from] == byte {
        from
    } else {
        find_byte(data, from + 1, to, byte)
    }
}

/// The first position from `from` on, and before `to`, that holds no
/// blank; `to` where there is none.
pub open spec fn skip_blanks(data: Seq<u8>, from: int, to: int) -> int
    decreases to - from,
{
    if from >= to {
        to
    } else if !is_blank(data[from]) {
        from
    } else {
        skip_blanks(data, from + 1, to)
    }
}

/// The position behind the last byte between `from` and `to` that is no
/// blank; `from` where there is none.
pub open spec fn drop_blanks(data: Seq<u8>, from: int, to: int) -> int
    decreases to - from,
{
    if from >= to {
        from
    } else if !is_blank(data[to - 1]) {
        to
    } else {
        drop_blanks(data, from, to - 1)
    }
}

/// What a line of a snapshot is.
pub enum Line {
    /// An empty line or a comment, which starts with `#`.
    Comment,
    /// The head of a section, `[name]`.
    Group(Seq<u8>),
    /// A key with its value. Blanks around the key and in front of the
    /// value do not count.
    Pair(Seq<u8>, Seq<u8>),
    /// Anything else.
    Bad,
}

/// What the line is that `data` holds from `from` up to `to`.
pub open spec fn classify(data: Seq<u8>, from: int, to: int) -> Line {
    let start = skip_blanks(data, from, to);
    let end = drop_blanks(data, start, to);
    if start >= end || data[start] == 0x23 {
        Line::Comment
    } else if data[start] == 0x5b {
        if end - start >= 2 && data[end - 1] == 0x5d {
            Line::Group(data.subrange(start + 1, end - 1))
        } else {
            Line::Bad
        }
    } else {
        let equals = find_byte(data, start, to, 0x3d);
        let key_end = drop_blanks(data, start, equals);
        if equals >= to || key_end <= start {
            Line::Bad
        } else {
            Line::Pair(
                data.subrange(start, key_end),
                data.subrange(skip_blanks(data, equals + 1, to), to),
            )
        }
    }
}

/// The name of the section that holds the playlist.
pub open spec fn section_name() -> Seq<u8> {
    seq![0x70u8, 0x6c, 0x61, 0x79, 0x6c, 0x69, 0x73, 0x74]
}

/// Where the reader stands: before the first section, or inside a section
/// that is the playlist's or is not.
pub enum Place {
    Outside,
    Playlist,
    Elsewhere,
}

/// The pairs of the playlist section that `data` holds from `from` on, in
/// order; `None` where a line is neither comment, section head nor pair, or
/// where a pair stands before the first section.
pub open spec fn pairs_from(data: Seq<u8>, from: int, place: Place) -> Option<Seq<(Seq<u8>, Seq<u8>)>>
    decreases data.len() + 1 - from,
{
    if from < 0 || from >= data.len() {
        Some(Seq::empty())
    } else {
        let end = find_byte(data, from, data.len() as int, 0x0a);
        if from <= end <= data.len() {
            match classify(data, from, end) {
                Line::Comment => pairs_from(data, end + 1, place),
                Line::Group(name) => pairs_from(
                    data,
                    end + 1,
                    if name == section_name() {
                        Place::Playlist
                    } else {
                        Place::Elsewhere
                    },
                ),
                Line::Pair(key, value) => match place {
                    Place::Outside => None,
                    Place::Playlist => match pairs_from(data, end + 1, place) {
                        Some(rest) => Some(seq![(key, value)] + rest),
                        None => None,
                    },
                    Place::Elsewhere => pairs_from(data, end + 1, place),
                },
                Line::Bad => None,
            }
        } else {
            None
        }
    }
}

/// The value that the pairs give for `key`: that of the last pair with the
/// key.
pub open spec fn lookup(pairs: Seq<(Seq<u8>, Seq<u8>)>, key: Seq<u8>) -> Option<Seq<u8>>
    decreases pairs.len(),
{
    if pairs.len() == 0 {
        None
    } else if pairs.last().0 == key {
        Some(pairs.last().1)
    } else {
        lookup(pairs.drop_last(), key)
    }
}

/// A number in decimal, as bytes.
pub open spec fn decimal_bytes(value: nat) -> Seq<u8>
    decreases value,
{
    if value < 10 {
        seq![(0x30 + value) as u8]
    } else {
        decimal_bytes(value / 10).push((0x30 + value % 10) as u8)
    }
}

/// The number that a run of decimal digits stands for; `None` where the
/// run is empty or holds anything but digits.
pub open spec fn number_of(text: Seq<u8>) -> Option<nat>
    decreases text.len(),
{
    if text.len() == 0 {
        None
    } else if !(0x30 <= text.last() <= 0x39) {
        None
    } else if text.len() == 1 {
        Some((text.last() - 0x30) as nat)
    } else {
        match number_of(text.drop_last()) {
            Some(front) => Some((front * 10 + (text.last() - 0x30)) as nat),
            None => None,
        }
    }
}

/// The key under which the count of entries stands.
pub open spec fn count_key() -> Seq<u8> {
    seq![
        0x4eu8,
        0x75,
        0x6d,
        0x62,
        0x65,
        0x72,
        0x4f,
        0x66,
        0x45,
        0x6e,
        0x74,
        0x72,
        0x69,
        0x65,
        0x73,
    ]
}

/// The key under which entry `index` stands: `File` and the index.
pub open spec fn file_key(index: nat) -> Seq<u8> {
    seq![0x46u8, 0x69, 0x6c, 0x65] + decimal_bytes(index)
}

/// How many entries the pairs announce: the number under the count key,
/// 0 where that is missing, is no number, or is too large a number.
pub open spec fn entry_count(pairs: Seq<(Seq<u8>, Seq<u8>)>) -> nat {
    match lookup(pairs, count_key()) {
        Some(text) => match number_of(text) {
            Some(n) => if n <= u64::MAX {
                n
            } else {
                0
            },
            None => 0,
        },
        None => 0,
    }
}

/// The first `count` entries that the pairs give, in order; an entry that
/// is missing is passed over.
pub open spec fn entries(pairs: Seq<(Seq<u8>, Seq<u8>)>, count: nat) -> Seq<Seq<u8>>
    decreases count,
{
    if count == 0 {
        Seq::empty()
    } else {
        let front = entries(pairs, (count - 1) as nat);
        match lookup(pairs, file_key((count - 1) as nat)) {
            Some(path) => front.push(path),
            None => front,
        }
    }
}

/// The paths that a snapshot names; `None` where the snapshot is damaged.
pub open spec fn spec_load(data: Seq<u8>) -> Option<Seq<Seq<u8>>> {
    match pairs_from(data, 0, Place::Outside) {
        Some(pairs) => Some(entries(pairs, entry_count(pairs))),
        None => None,
    }
}

/// The lines of a snapshot that name the paths from `from` on.
pub open spec fn entry_lines(paths: Seq<Seq<u8>>, from: nat) -> Seq<u8>
    decreases paths.len() - from,
{
    if from >= paths.len() {
        Seq::empty()
    } else {
        file_key(from) + seq![0x3du8] + paths[from as int] + seq![0x0au8] + entry_lines(
            paths,
            from + 1,
        )
    }
}

/// The first lines of every snapshot, up to the sign before the count.
pub open spec fn head_lines() -> Seq<u8> {
    seq![0x5bu8] + section_name() + seq![0x5du8, 0x0a] + title_line() + count_key() + seq![0x3du8]
}

/// The line that gives the snapshot its title.
pub open spec fn title_line() -> Seq<u8> {
    seq![
        0x58u8, 0x2d, 0x47, 0x4e, 0x4f, 0x4d, 0x45, 0x2d, 0x54, 0x69, 0x74, 0x6c, 0x65, 0x3d,
        0x41, 0x6d, 0x62, 0x65, 0x72, 0x6f, 0x6c, 0x27, 0x73, 0x20, 0x63, 0x75, 0x72, 0x72,
        0x65, 0x6e, 0x74, 0x20, 0x70, 0x6c, 0x61, 0x79, 0x6c, 0x69, 0x73, 0x74, 0x0a,
    ]
}

/// The snapshot of a playlist: the section head, the title, the count, and
/// one line for each path.
pub open spec fn spec_store(paths: Seq<Seq<u8>>) -> Seq<u8> {
    head_lines() + decimal_bytes(paths.len()) + seq![0x0au8] + entry_lines(paths, 0)
}

/// The searches stay inside the stretch they are given.
proof fn lemma_search_bounds(data: Seq<u8>, from: int, to: int, byte: u8)
    requires
        from <= to,
    ensures
        from <= find_byte(data, from, to, byte) <= to,
        from <= skip_blanks(data, from, to) <= to,
        from <= drop_blanks(data, from, to) <= to,
    decreases to - from,
{
    if from < to {
        lemma_search_bounds(data, from + 1, to, byte);
        lemma_search_bounds(data, from, to - 1, byte);
    }
}

fn find_byte_in(data: &Vec<u8>, from: usize, to: usize, byte: u8) -> (res: usize)
    requires
        from <= to <= data@.len(),
    ensures
        res == find_byte(data@, from as int, to as int, byte),
        from <= res <= to,
{
    let mut i = from;
    while i < to && data[i] != byte
        invariant
            from <= i <= to <= data@.len(),
            find_byte(data@, from as int, to as int, byte) == find_byte(
                data@,
                i as int,
                to as int,
                byte,
            ),
        decreases to - i,
    {
        i += 1;
    }
    i
}

fn skip_blanks_in(data: &Vec<u8>, from: usize, to: usize) -> (res: usize)
    requires
        from <= to <= data@.len(),
    ensures
        res == skip_blanks(data@, from as int, to as int),
        from <= res <= to,
{
    let mut i = from;
    while i < to && (data[i] == 0x20 || data[i] == 0x09)
        invariant
            from <= i <= to <= data@.len(),
            skip_blanks(data@, from as int, to as int) == skip_blanks(data@, i as int, to as int),
        decreases to - i,
    {
        i += 1;
    }
    i
}

fn drop_blanks_in(data: &Vec<u8>, from: usize, to: usize) -> (res: usize)
    requires
        from <= to <= data@.len(),
    ensures
        res == drop_blanks(data@, from as int, to as int),
        from <= res <= to,
{
    let mut i = to;
    while i > from && (data[i - 1] == 0x20 || data[i - 1] == 0x09)
        invariant
            from <= i <= to <= data@.len(),
            drop_blanks(data@, from as int, to as int) == drop_blanks(data@, from as int, i as int),
        decreases i - from,
    {
        i -= 1;
    }
    i
}

fn copy_range(data: &Vec<u8>, from: usize, to: usize) -> (res: Vec<u8>)
    requires
        from <= to <= data@.len(),
    ensures
        res@ == data@.subrange(from as int, to as int),
{
    let mut out: Vec<u8> = Vec::new();
    let mut i = from;
    while i < to
        invariant
            from <= i <= to <= data@.len(),
            out@ == data@.subrange(from as int, i as int),
        decreases to - i,
    {
        out.push(data[i]);
        assert(out@ =~= data@.subrange(from as int, i + 1));
        i += 1;
    }
    out
}

fn same_bytes(first: &Vec<u8>, second: &Vec<u8>) -> (res: bool)
    ensures
        res == (first@ == second@),
{
    if first.len() != second.len() {
        return false;
    }
    let mut i: usize = 0;
    while i < first.len()
        invariant
            first@.len() == second@.len(),
            i <= first@.len(),
            forall|j: int| 0 <= j < i ==> first@[j] == second@[j],
        decreases first.len() - i,
    {
        if first[i] != second[i] {
            return false;
        }
        i += 1;
    }
    assert(first@ =~= second@);
    true
}

fn append_bytes(out: &mut Vec<u8>, bytes: &Vec<u8>)
    ensures
        final(out)@ == old(out)@ + bytes@,
{
    let mut i: usize = 0;
    while i < bytes.len()
        invariant
            i <= bytes@.len(),
            out@ == old(out)@ + bytes@.take(i as int),
        decreases bytes.len() - i,
    {
        out.push(bytes[i]);
        assert(out@ =~= old(out)@ + bytes@.take(i + 1));
        i += 1;
    }
    assert(bytes@.take(i as int) =~= bytes@);
}

fn append_decimal_bytes(out: &mut Vec<u8>, value: u64)
    ensures
        final(out)@ == old(out)@ + decimal_bytes(value as nat),
    decreases value,
{
    if value >= 10 {
        append_decimal_bytes(out, value / 10);
    }
    out.push(0x30 + (value % 10) as u8);
    assert(out@ =~= old(out)@ + decimal_bytes(value as nat));
}

/// A line as the reader hands it on.
enum ReadLine {
    Comment,
    Group(Vec<u8>),
    Pair(Vec<u8>, Vec<u8>),
    Bad,
}

impl View for ReadLine {
    type V = Line;

    closed spec fn view(&self) -> Line {
        match *self {
            ReadLine::Comment => Line::Comment,
            ReadLine::Group(name) => Line::Group(name@),
            ReadLine::Pair(key, value) => Line::Pair(key@, value@),
            ReadLine::Bad => Line::Bad,
        }
    }
}

fn read_line(data: &Vec<u8>, from: usize, to: usize) -> (res: ReadLine)
    requires
        from <= to <= data@.len(),
    ensures
        res@ == classify(data@, from as int, to as int),
{
    let start = skip_blanks_in(data, from, to);
    let end = drop_blanks_in(data, start, to);
    if start >= end || data[start] == 0x23 {
        ReadLine::Comment
    } else if data[start] == 0x5b {
        if end - start >= 2 && data[end - 1] == 0x5d {
            ReadLine::Group(copy_range(data, start + 1, end - 1))
        } else {
            ReadLine::Bad
        }
    } else {
        let equals = find_byte_in(data, start, to, 0x3d);
        let key_end = drop_blanks_in(data, start, equals);
        if equals >= to || key_end <= start {
            ReadLine::Bad
        } else {
            let value_start = skip_blanks_in(data, equals + 1, to);
            ReadLine::Pair(copy_range(data, start, key_end), copy_range(data, value_start, to))
        }
    }
}

/// The views of a list of pairs.
pub open spec fn pairs_view(pairs: Seq<(Vec<u8>, Vec<u8>)>) -> Seq<(Seq<u8>, Seq<u8>)> {
    pairs.map_values(|p: (Vec<u8>, Vec<u8>)| (p.0@, p.1@))
}

/// What was read so far, followed by what is still to be read.
spec fn joined(
    read: Seq<(Seq<u8>, Seq<u8>)>,
    rest: Option<Seq<(Seq<u8>, Seq<u8>)>>,
) -> Option<Seq<(Seq<u8>, Seq<u8>)>> {
    match rest {
        Some(r) => Some(read + r),
        None => None,
    }
}

/// Reads the pairs of the playlist section.
pub fn read_pairs(data: &Vec<u8>) -> (res: Option<Vec<(Vec<u8>, Vec<u8>)>>)
    ensures
        match res {
            Some(pairs) => pairs_from(data@, 0, Place::Outside) == Some(pairs_view(pairs@)),
            None => pairs_from(data@, 0, Place::Outside) is None,
        },
{
    let section: Vec<u8> = vec![0x70u8, 0x6c, 0x61, 0x79, 0x6c, 0x69, 0x73, 0x74];
    assert(section@ =~= section_name());
    let mut pairs: Vec<(Vec<u8>, Vec<u8>)> = Vec::new();
    let mut outside = true;
    let mut inside = false;
    let mut pos: usize = 0;
    let ghost mut place = Place::Outside;
    assert(pairs_view(pairs@) + pairs_from(data@, 0, Place::Outside)->0 =~= pairs_from(
        data@,
        0,
        Place::Outside,
    )->0);
    while pos < data.len()
        invariant
            pos <= data@.len(),
            section@ == section_name(),
            place == if outside {
                Place::Outside
            } else if inside {
                Place::Playlist
            } else {
                Place::Elsewhere
            },
            pairs_from(data@, 0, Place::Outside) == joined(
                pairs_view(pairs@),
                pairs_from(data@, pos as int, place),
            ),
        decreases data@.len() - pos,
    {
        let end = find_byte_in(data, pos, data.len(), 0x0a);
        let ghost before = pairs_view(pairs@);
        let ghost rest = pairs_from(data@, end + 1, place);
        match read_line(data, pos, end) {
            ReadLine::Comment => {},
            ReadLine::Group(name) => {
                outside = false;
                inside = same_bytes(&name, &section);
                proof {
                    place = if inside {
                        Place::Playlist
                    } else {
                        Place::Elsewhere
                    };
                }
            },
            ReadLine::Pair(key, value) => {
                if outside {
                    return None;
                }
                if inside {
                    let ghost key_view = key@;
                    let ghost value_view = value@;
                    pairs.push((key, value));
                    proof {
                        assert(pairs_view(pairs@) =~= before.push((key_view, value_view)));
                        if rest is Some {
                            assert(before + (seq![(key_view, value_view)] + rest->0)
                                =~= before.push((key_view, value_view)) + rest->0);
                        }
                    }
                }
            },
            ReadLine::Bad => {
                return None;
            },
        }
        assert(pairs_from(data@, end + 1, place) == pairs_from(
            data@,
            if end < data@.len() {
                end + 1
            } else {
                data@.len() as int
            },
            place,
        ));
        pos = if end < data.len() {
            end + 1
        } else {
            data.len()
        };
    }
    proof {
        assert(pairs_from(data@, pos as int, place) == Some(Seq::<(Seq<u8>, Seq<u8>)>::empty()));
        assert(pairs_view(pairs@) + Seq::<(Seq<u8>, Seq<u8>)>::empty() =~= pairs_view(pairs@));
    }
    Some(pairs)
}

/// Finds the value that the pairs give for `key`.
fn find_value<'a>(pairs: &'a Vec<(Vec<u8>, Vec<u8>)>, key: &Vec<u8>) -> (res: Option<&'a Vec<u8>>)
    ensures
        match res {
            Some(value) => lookup(pairs_view(pairs@), key@) == Some(value@),
            None => lookup(pairs_view(pairs@), key@) is None,
        },
{
    let mut i = pairs.len();
    assert(pairs_view(pairs@).take(i as int) =~= pairs_view(pairs@));
    while i > 0
        invariant
            i <= pairs@.len(),
            lookup(pairs_view(pairs@), key@) == lookup(pairs_view(pairs@).take(i as int), key@),
        decreases i,
    {
        proof {
            let front = pairs_view(pairs@).take(i as int);
            assert(front.last() == (pairs@[i - 1].0@, pairs@[i - 1].1@));
            assert(front.drop_last() =~= pairs_view(pairs@).take(i - 1));
        }
        if same_bytes(&pairs[i - 1].0, key) {
            return Some(&pairs[i - 1].1);
        }
        i -= 1;
    }
    None
}

/// A number does not shrink when digits are put behind it.
proof fn lemma_number_grows(text: Seq<u8>, i: int)
    requires
        1 <= i <= text.len(),
        number_of(text) is Some,
    ensures
        number_of(text.take(i)) is Some,
        number_of(text.take(i))->0 <= number_of(text)->0,
    decreases text.len() - i,
{
    if i == text.len() {
        assert(text.take(i) =~= text);
    } else {
        assert(text.drop_last().take(i) =~= text.take(i));
        lemma_number_grows(text.drop_last(), i);
    }
}

/// The number that a run of digits stands for, 0 where it is no number or
/// too large a number.
fn read_count(text: &Vec<u8>) -> (res: u64)
    ensures
        res == match number_of(text@) {
            Some(n) => if n <= u64::MAX {
                n
            } else {
                0
            },
            None => 0,
        },
{
    if text.len() == 0 {
        return 0;
    }
    let mut value: u64 = 0;
    let mut i: usize = 0;
    while i < text.len()
        invariant
            i <= text@.len(),
            i > 0 ==> number_of(text@.take(i as int)) == Some(value as nat),
            i == 0 ==> value == 0,
        decreases text.len() - i,
    {
        let byte = text[i];
        proof {
            let next = text@.take(i + 1);
            assert(next.last() == byte);
            assert(next.drop_last() =~= text@.take(i as int));
        }
        if byte < 0x30 || byte > 0x39 {
            proof {
                if number_of(text@) is Some {
                    lemma_number_grows(text@, i + 1);
                }
            }
            return 0;
        }
        let d = (byte - 0x30) as u64;
        if value > (u64::MAX - d) / 10 {
            proof {
                if number_of(text@) is Some {
                    lemma_number_grows(text@, i + 1);
                }
            }
            return 0;
        }
        value = value * 10 + d;
        i += 1;
    }
    assert(text@.take(i as int) =~= text@);
    value
}

/// Reads a snapshot: the paths that it names, in order. `None` stands for a
/// damaged snapshot. A count that is missing or is no number counts as 0,
/// and an entry that is missing is passed over.
pub fn load_cached_songs(data: &Vec<u8>) -> (res: Option<Vec<Vec<u8>>>)
    ensures
        match res {
            Some(paths) => spec_load(data@) == Some(paths@.map_values(|p: Vec<u8>| p@)),
            None => spec_load(data@) is None,
        },
{
    let pairs = match read_pairs(data) {
        Some(pairs) => pairs,
        None => {
            return None;
        },
    };
    let count_name: Vec<u8> = vec![
        0x4eu8,
        0x75,
        0x6d,
        0x62,
        0x65,
        0x72,
        0x4f,
        0x66,
        0x45,
        0x6e,
        0x74,
        0x72,
        0x69,
        0x65,
        0x73,
    ];
    assert(count_name@ =~= count_key());
    let count = match find_value(&pairs, &count_name) {
        Some(text) => read_count(text),
        None => 0,
    };
    let mut paths: Vec<Vec<u8>> = Vec::new();
    let mut i: u64 = 0;
    assert(paths@.map_values(|p: Vec<u8>| p@) =~= entries(pairs_view(pairs@), 0));
    while i < count
        invariant
            i <= count,
            count == entry_count(pairs_view(pairs@)),
            paths@.map_values(|p: Vec<u8>| p@) == entries(pairs_view(pairs@), i as nat),
        decreases count - i,
    {
        let mut key: Vec<u8> = vec![0x46u8, 0x69, 0x6c, 0x65];
        append_decimal_bytes(&mut key, i);
        assert(key@ =~= file_key(i as nat));
        let ghost before = paths@.map_values(|p: Vec<u8>| p@);
        match find_value(&pairs, &key) {
            Some(path) => {
                paths.push(copy_range(path, 0, path.len()));
                assert(path@.subrange(0, path@.len() as int) =~= path@);
                assert(paths@.map_values(|p: Vec<u8>| p@) =~= before.push(path@));
            },
            None => {},
        }
        i += 1;
    }
    Some(paths)
}

/// Writes the snapshot of a playlist from the paths of its files, in
/// order.
pub fn store_playlist(paths: &Vec<Vec<u8>>) -> (res: Vec<u8>)
    ensures
        res@ == spec_store(paths@.map_values(|p: Vec<u8>| p@)),
{
    let ghost views = paths@.map_values(|p: Vec<u8>| p@);
    let mut out: Vec<u8> = vec![
        0x5bu8, 0x70, 0x6c, 0x61, 0x79, 0x6c, 0x69, 0x73, 0x74, 0x5d, 0x0a, 0x58, 0x2d, 0x47, 0x4e,
        0x4f, 0x4d, 0x45, 0x2d, 0x54, 0x69, 0x74, 0x6c, 0x65, 0x3d, 0x41, 0x6d, 0x62, 0x65, 0x72,
        0x6f, 0x6c, 0x27, 0x73, 0x20, 0x63, 0x75, 0x72, 0x72, 0x65, 0x6e, 0x74, 0x20, 0x70, 0x6c,
        0x61, 0x79, 0x6c, 0x69, 0x73, 0x74, 0x0a, 0x4e, 0x75, 0x6d, 0x62, 0x65, 0x72, 0x4f, 0x66,
        0x45, 0x6e, 0x74, 0x72, 0x69, 0x65, 0x73, 0x3d,
    ];
    assert(out@ =~= head_lines());
    append_decimal_bytes(&mut out, paths.len() as u64);
    out.push(0x0a);
    let ghost head = out@;
    let mut i: usize = 0;
    assert(entry_lines(views, paths@.len()) =~= Seq::<u8>::empty());
    while i < paths.len()
        invariant
            i <= paths@.len(),
            views == paths@.map_values(|p: Vec<u8>| p@),
            head == head_lines() + decimal_bytes(paths@.len()) + seq![0x0au8],
            out@ + entry_lines(views, i as nat) == head + entry_lines(views, 0),
        decreases paths.len() - i,
    {
        let ghost before = out@;
        out.push(0x46);
        out.push(0x69);
        out.push(0x6c);
        out.push(0x65);
        append_decimal_bytes(&mut out, i as u64);
        out.push(0x3d);
        append_bytes(&mut out, &paths[i]);
        out.push(0x0a);
        proof {
            assert(out@ =~= before + (file_key(i as nat) + seq![0x3du8] + views[i as int] + seq![
                0x0au8,
            ]));
            assert(before + entry_lines(views, i as nat) =~= out@ + entry_lines(
                views,
                (i + 1) as nat,
            ));
        }
        i += 1;
    }
    assert(out@ + Seq::<u8>::empty() =~= out@);
    assert(out@ =~= spec_store(views));
    out
}

/// A search in a stretch of `data` that holds `line` goes as the search in
/// `line` itself.
proof fn lemma_search_in_line(data: Seq<u8>, at: int, line: Seq<u8>, from: int, to: int, byte: u8)
    requires
        0 <= at,
        0 <= from <= to <= line.len(),
        at + line.len() <= data.len(),
        forall|k: int| 0 <= k < line.len() ==> data[at + k] == line[k],
    ensures
        find_byte(data, at + from, at + to, byte) == at + find_byte(line, from, to, byte),
        skip_blanks(data, at + from, at + to) == at + skip_blanks(line, from, to),
        drop_blanks(data, at + from, at + to) == at + drop_blanks(line, from, to),
    decreases to - from,
{
    if from < to {
        lemma_search_in_line(data, at, line, from + 1, to, byte);
        lemma_search_in_line(data, at, line, from, to - 1, byte);
    }
}

/// A line is told what it is by its own bytes, wherever it stands.
proof fn lemma_classify_in_line(data: Seq<u8>, at: int, line: Seq<u8>)
    requires
        0 <= at,
        at + line.len() <= data.len(),
        forall|k: int| 0 <= k < line.len() ==> data[at + k] == line[k],
    ensures
        classify(data, at, at + line.len()) == classify(line, 0, line.len() as int),
{
    let n = line.len() as int;
    lemma_search_in_line(data, at, line, 0, n, 0x3d);
    lemma_search_bounds(line, 0, n, 0x3d);
    let start = skip_blanks(line, 0, n);
    lemma_search_in_line(data, at, line, start, n, 0x3d);
    lemma_search_bounds(line, start, n, 0x3d);
    let end = drop_blanks(line, start, n);
    let equals = find_byte(line, start, n, 0x3d);
    lemma_search_in_line(data, at, line, start, equals, 0x3d);
    lemma_search_bounds(line, start, equals, 0x3d);
    let key_end = drop_blanks(line, start, equals);
    if equals < n {
        lemma_search_in_line(data, at, line, equals + 1, n, 0x3d);
        lemma_search_bounds(line, equals + 1, n, 0x3d);
        let value_start = skip_blanks(line, equals + 1, n);
        assert(data.subrange(at + value_start, at + n) =~= line.subrange(value_start, n));
    }
    assert(data.subrange(at + start, at + key_end) =~= line.subrange(start, key_end));
    if start < end {
        assert(data[at + start] == line[start]);
        assert(data[at + end - 1] == line[end - 1]);
        if end - start >= 2 {
            assert(data.subrange(at + start + 1, at + end - 1) =~= line.subrange(start + 1, end - 1));
        }
    }
}

/// A stretch without the byte that is looked for is searched to its end.
proof fn lemma_find_absent(data: Seq<u8>, from: int, to: int, byte: u8)
    requires
        from <= to,
        forall|k: int| from <= k < to ==> data[k] != byte,
    ensures
        find_byte(data, from, to, byte) == to,
    decreases to - from,
{
    if from < to {
        lemma_find_absent(data, from + 1, to, byte);
    }
}

/// A byte is found where it first stands.
proof fn lemma_find_first(data: Seq<u8>, from: int, at: int, to: int, byte: u8)
    requires
        from <= at < to,
        data[at] == byte,
        forall|k: int| from <= k < at ==> data[k] != byte,
    ensures
        find_byte(data, from, to, byte) == at,
    decreases at - from,
{
    if from < at {
        lemma_find_first(data, from + 1, at, to, byte);
    }
}

/// Blanks are dropped no further than the last byte that is no blank.
proof fn lemma_drop_blanks_stops(data: Seq<u8>, from: int, at: int, to: int)
    requires
        from <= at < to,
        !is_blank(data[at]),
    ensures
        at < drop_blanks(data, from, to) <= to,
    decreases to - at,
{
    if is_blank(data[to - 1]) {
        lemma_drop_blanks_stops(data, from, at, to - 1);
    }
}

/// Whether a key can be written in front of a value: it is not empty, has
/// no blank at either end, no sign that ends it, and does not look like a
/// comment or the head of a section.
pub open spec fn is_key(key: Seq<u8>) -> bool {
    &&& key.len() > 0
    &&& !is_blank(key[0])
    &&& !is_blank(key.last())
    &&& key[0] != 0x23
    &&& key[0] != 0x5b
    &&& forall|k: int| 0 <= k < key.len() ==> key[k] != 0x3d && key[k] != 0x0a
}

/// Whether a value can be written behind a key and read back: it starts
/// with no blank and runs over no end of line.
pub open spec fn is_value(value: Seq<u8>) -> bool {
    &&& value.len() > 0 ==> !is_blank(value[0])
    &&& forall|k: int| 0 <= k < value.len() ==> value[k] != 0x0a
}

/// A key, the sign, and a value make a line that is read as that pair.
proof fn lemma_pair_line(key: Seq<u8>, value: Seq<u8>)
    requires
        is_key(key),
        is_value(value),
    ensures
        classify(key + seq![0x3du8] + value, 0, (key.len() + 1 + value.len()) as int)
            == Line::Pair(key, value),
{
    let line = key + seq![0x3du8] + value;
    let n = line.len() as int;
    let k = key.len() as int;
    assert(line[0] == key[0]);
    assert(line[k - 1] == key.last());
    assert(line[k] == 0x3d);
    assert(skip_blanks(line, 0, n) == 0);
    lemma_drop_blanks_stops(line, 0, 0, n);
    assert forall|j: int| 0 <= j < k implies line[j] != 0x3d by {
        assert(line[j] == key[j]);
    }
    lemma_find_first(line, 0, k, n, 0x3d);
    lemma_drop_blanks_stops(line, 0, k - 1, k);
    assert(line.subrange(0, k) =~= key);
    if value.len() > 0 {
        assert(line[k + 1] == value[0]);
        assert(skip_blanks(line, k + 1, n) == k + 1);
    } else {
        assert(skip_blanks(line, k + 1, n) == n);
    }
    assert(line.subrange(k + 1, n) =~= value);
}

/// The pairs that are read from `data` where it holds, from `at` on, a
/// line that is a pair, an end of line, and more.
proof fn lemma_read_pair_line(data: Seq<u8>, at: int, key: Seq<u8>, value: Seq<u8>)
    requires
        0 <= at,
        is_key(key),
        is_value(value),
        at + key.len() + 1 + value.len() < data.len(),
        data.subrange(at, at + key.len() + 1 + value.len()) == key + seq![0x3du8] + value,
        data[at + key.len() + 1 + value.len()] == 0x0a,
    ensures
        pairs_from(data, at, Place::Playlist) == match pairs_from(
            data,
            at + key.len() + 2 + value.len(),
            Place::Playlist,
        ) {
            Some(rest) => Some(seq![(key, value)] + rest),
            None => None,
        },
{
    let line = key + seq![0x3du8] + value;
    let n = line.len() as int;
    assert forall|k: int| 0 <= k < n implies data[at + k] == line[k] && line[k] != 0x0a by {
        assert(data.subrange(at, at + n)[k] == data[at + k]);
        if k < key.len() {
            assert(line[k] == key[k]);
        } else if k > key.len() {
            assert(line[k] == value[k - key.len() - 1]);
        }
    }
    assert forall|j: int| at <= j < at + n implies data[j] != 0x0a by {
        let k = j - at;
        assert(data[at + k] == line[k] && line[k] != 0x0a);
    }
    lemma_find_first(data, at, at + n, data.len() as int, 0x0a);
    lemma_classify_in_line(data, at, line);
    lemma_pair_line(key, value);
}

/// The digits of a number are digits, and there is at least one.
proof fn lemma_decimal_is_digits(value: nat)
    ensures
        decimal_bytes(value).len() > 0,
        forall|k: int|
            0 <= k < decimal_bytes(value).len() ==> 0x30 <= #[trigger] decimal_bytes(value)[k]
                <= 0x39,
    decreases value,
{
    if value >= 10 {
        lemma_decimal_is_digits(value / 10);
    }
}

/// A number is read back from its digits.
proof fn lemma_number_of_decimal(value: nat)
    ensures
        number_of(decimal_bytes(value)) == Some(value),
    decreases value,
{
    lemma_decimal_is_digits(value);
    if value >= 10 {
        lemma_number_of_decimal(value / 10);
        lemma_decimal_is_digits(value / 10);
        let text = decimal_bytes(value);
        assert(text.drop_last() =~= decimal_bytes(value / 10));
        assert(text.last() == (0x30 + value % 10) as u8);
    } else {
        assert(decimal_bytes(value).last() == (0x30 + value) as u8);
    }
}

/// The key of an entry can be written in front of a value, and no two
/// entries share a key.
proof fn lemma_file_key(index: nat, other: nat)
    ensures
        is_key(file_key(index)),
        file_key(index)[0] == 0x46,
        file_key(index) == file_key(other) ==> index == other,
{
    lemma_decimal_is_digits(index);
    let key = file_key(index);
    let digits = decimal_bytes(index);
    assert(key[0] == 0x46);
    assert(key.last() == digits.last());
    assert forall|k: int| 0 <= k < key.len() implies key[k] != 0x3d && key[k] != 0x0a by {
        if k >= 4 {
            assert(key[k] == digits[k - 4]);
        }
    }
    if file_key(index) == file_key(other) {
        assert(decimal_bytes(index) =~= file_key(index).skip(4));
        assert(decimal_bytes(other) =~= file_key(other).skip(4));
        lemma_number_of_decimal(index);
        lemma_number_of_decimal(other);
    }
}

/// The pairs that the lines of the entries from `from` on are read as.
pub open spec fn entry_pairs(paths: Seq<Seq<u8>>, from: nat) -> Seq<(Seq<u8>, Seq<u8>)>
    decreases paths.len() - from,
{
    if from >= paths.len() {
        Seq::empty()
    } else {
        seq![(file_key(from), paths[from as int])] + entry_pairs(paths, from + 1)
    }
}

/// The lines of the entries are read as the pairs of the entries.
proof fn lemma_read_entry_lines(data: Seq<u8>, at: int, paths: Seq<Seq<u8>>, from: nat)
    requires
        0 <= at <= data.len(),
        from <= paths.len(),
        forall|i: int| 0 <= i < paths.len() ==> is_value(#[trigger] paths[i]),
        data.subrange(at, data.len() as int) == entry_lines(paths, from),
    ensures
        pairs_from(data, at, Place::Playlist) == Some(entry_pairs(paths, from)),
    decreases paths.len() - from,
{
    if from < paths.len() {
        let key = file_key(from);
        let value = paths[from as int];
        let line = key + seq![0x3du8] + value;
        let rest = entry_lines(paths, from + 1);
        let tail = data.subrange(at, data.len() as int);
        let n = line.len() as int;
        lemma_file_key(from, from);
        assert(tail == line + seq![0x0au8] + rest);
        assert(data.len() - at == n + 1 + rest.len());
        assert(data.subrange(at, at + n) =~= line) by {
            assert forall|k: int| 0 <= k < n implies data[at + k] == line[k] by {
                assert(tail[k] == data[at + k]);
            }
        }
        assert(data[at + n] == 0x0a) by {
            assert(tail[n] == data[at + n]);
        }
        assert(data.subrange(at + n + 1, data.len() as int) =~= rest) by {
            assert forall|k: int| 0 <= k < rest.len() implies data[at + n + 1 + k] == rest[k] by {
                assert(tail[n + 1 + k] == data[at + n + 1 + k]);
            }
        }
        lemma_read_pair_line(data, at, key, value);
        lemma_read_entry_lines(data, at + n + 1, paths, from + 1);
    } else {
        assert(data.subrange(at, data.len() as int).len() == 0);
    }
}

/// The key of the title line.
pub open spec fn title_key() -> Seq<u8> {
    seq![0x58u8, 0x2d, 0x47, 0x4e, 0x4f, 0x4d, 0x45, 0x2d, 0x54, 0x69, 0x74, 0x6c, 0x65]
}

/// The title that every snapshot carries.
pub open spec fn title_value() -> Seq<u8> {
    seq![
        0x41u8, 0x6d, 0x62, 0x65, 0x72, 0x6f, 0x6c, 0x27, 0x73, 0x20, 0x63, 0x75, 0x72, 0x72,
        0x65, 0x6e, 0x74, 0x20, 0x70, 0x6c, 0x61, 0x79, 0x6c, 0x69, 0x73, 0x74,
    ]
}

/// The entries as pairs: entry `k` behind `from` is the path with that
/// number under the key of that number.
proof fn lemma_entry_pairs(paths: Seq<Seq<u8>>, from: nat)
    requires
        from <= paths.len(),
    ensures
        entry_pairs(paths, from).len() == paths.len() - from,
        forall|k: int|
            0 <= k < paths.len() - from ==> #[trigger] entry_pairs(paths, from)[k] == (
                file_key((from + k) as nat),
                paths[from + k],
            ),
    decreases paths.len() - from,
{
    if from < paths.len() {
        lemma_entry_pairs(paths, from + 1);
        assert forall|k: int| 0 <= k < paths.len() - from implies #[trigger] entry_pairs(
            paths,
            from,
        )[k] == (file_key((from + k) as nat), paths[from + k]) by {
            if k > 0 {
                assert(entry_pairs(paths, from)[k] == entry_pairs(paths, from + 1)[k - 1]);
            }
        }
    }
}

/// The value of a key is that of the last pair with the key.
proof fn lemma_lookup_last(pairs: Seq<(Seq<u8>, Seq<u8>)>, at: int, key: Seq<u8>)
    requires
        0 <= at < pairs.len(),
        pairs[at].0 == key,
        forall|j: int| at < j < pairs.len() ==> (#[trigger] pairs[j]).0 != key,
    ensures
        lookup(pairs, key) == Some(pairs[at].1),
    decreases pairs.len() - at,
{
    if at < pairs.len() - 1 {
        assert(pairs.last() == pairs[pairs.len() - 1]);
        let front = pairs.drop_last();
        assert(front[at] == pairs[at]);
        assert forall|j: int| at < j < front.len() implies (#[trigger] front[j]).0 != key by {
            assert(front[j] == pairs[j]);
        }
        lemma_lookup_last(front, at, key);
    }
}

/// The pairs of a snapshot: the title, the count, and the entries.
pub open spec fn stored_pairs(paths: Seq<Seq<u8>>) -> Seq<(Seq<u8>, Seq<u8>)> {
    seq![(title_key(), title_value()), (count_key(), decimal_bytes(paths.len()))] + entry_pairs(
        paths,
        0,
    )
}

/// A snapshot is read as its pairs.
proof fn lemma_read_stored(paths: Seq<Seq<u8>>)
    requires
        forall|i: int| 0 <= i < paths.len() ==> is_value(#[trigger] paths[i]),
    ensures
        pairs_from(spec_store(paths), 0, Place::Outside) == Some(stored_pairs(paths)),
{
    let data = spec_store(paths);
    let count = decimal_bytes(paths.len());
    let d = count.len() as int;
    let head: Seq<u8> = seq![
        0x5bu8, 0x70, 0x6c, 0x61, 0x79, 0x6c, 0x69, 0x73, 0x74, 0x5d, 0x0a, 0x58, 0x2d, 0x47, 0x4e,
        0x4f, 0x4d, 0x45, 0x2d, 0x54, 0x69, 0x74, 0x6c, 0x65, 0x3d, 0x41, 0x6d, 0x62, 0x65, 0x72,
        0x6f, 0x6c, 0x27, 0x73, 0x20, 0x63, 0x75, 0x72, 0x72, 0x65, 0x6e, 0x74, 0x20, 0x70, 0x6c,
        0x61, 0x79, 0x6c, 0x69, 0x73, 0x74, 0x0a, 0x4e, 0x75, 0x6d, 0x62, 0x65, 0x72, 0x4f, 0x66,
        0x45, 0x6e, 0x74, 0x72, 0x69, 0x65, 0x73, 0x3d,
    ];
    assert(head =~= head_lines());
    lemma_decimal_is_digits(paths.len());
    assert(data.len() == 68 + d + 1 + entry_lines(paths, 0).len());
    assert forall|j: int| 0 <= j < 68 implies data[j] == head[j] by {}
    assert forall|j: int| 0 <= j < d implies data[68 + j] == count[j] by {}
    assert(data[68 + d] == 0x0a);

    // the head of the section
    let group: Seq<u8> = seq![0x5bu8, 0x70, 0x6c, 0x61, 0x79, 0x6c, 0x69, 0x73, 0x74, 0x5d];
    assert forall|k: int| 0 <= k < group.len() implies data[0 + k] == group[k] by {
        assert(data[k] == head[k]);
    }
    assert forall|j: int| 0 <= j < 10 implies data[j] != 0x0a by {
        assert(data[j] == head[j]);
    }
    assert(data[10] == head[10]);
    lemma_find_first(data, 0, 10, data.len() as int, 0x0a);
    lemma_classify_in_line(data, 0, group);
    assert(skip_blanks(group, 0, 10) == 0);
    lemma_drop_blanks_stops(group, 0, 9, 10);
    assert(group.subrange(1, 9) =~= section_name());
    assert(classify(data, 0, 10) == Line::Group(section_name()));
    assert(pairs_from(data, 0, Place::Outside) == pairs_from(data, 11, Place::Playlist));

    // the title
    assert(is_key(title_key()));
    assert(is_value(title_value()));
    assert(data.subrange(11, 51) =~= title_key() + seq![0x3du8] + title_value()) by {
        assert forall|k: int| 0 <= k < 40 implies data[11 + k] == (title_key() + seq![0x3du8]
            + title_value())[k] by {
            assert(data[11 + k] == head[11 + k]);
        }
    }
    assert(data[51] == head[51]);
    lemma_read_pair_line(data, 11, title_key(), title_value());

    // the count
    assert(is_key(count_key()));
    assert(is_value(count));
    assert(data.subrange(52, 68 + d) =~= count_key() + seq![0x3du8] + count) by {
        assert forall|k: int| 0 <= k < 16 + d implies data[52 + k] == (count_key() + seq![0x3du8]
            + count)[k] by {
            if k < 16 {
                assert(data[52 + k] == head[52 + k]);
            } else {
                assert(data[68 + (k - 16)] == count[k - 16]);
            }
        }
    }
    lemma_read_pair_line(data, 52, count_key(), count);

    // the entries
    assert(data.subrange(69 + d, data.len() as int) =~= entry_lines(paths, 0));
    lemma_read_entry_lines(data, 69 + d, paths, 0);
    assert(seq![(title_key(), title_value())] + (seq![(count_key(), count)] + entry_pairs(
        paths,
        0,
    )) =~= stored_pairs(paths));
}

/// The entries that are read from the pairs of a snapshot are its paths.
proof fn lemma_entries_of_stored(paths: Seq<Seq<u8>>, count: nat)
    requires
        count <= paths.len(),
    ensures
        entries(stored_pairs(paths), count) == paths.take(count as int),
    decreases count,
{
    let pairs = stored_pairs(paths);
    lemma_entry_pairs(paths, 0);
    if count > 0 {
        lemma_entries_of_stored(paths, (count - 1) as nat);
        let i = (count - 1) as nat;
        let at: int = 2 + (i as int);
        assert(pairs[at] == entry_pairs(paths, 0)[i as int]);
        assert forall|j: int| at < j < pairs.len() implies (#[trigger] pairs[j]).0 != file_key(
            i,
        ) by {
            assert(pairs[j] == entry_pairs(paths, 0)[j - 2]);
            lemma_file_key(i, (j - 2) as nat);
        }
        lemma_lookup_last(pairs, at, file_key(i));
        assert(paths.take(count as int) =~= paths.take(count - 1).push(paths[i as int]));
    } else {
        assert(paths.take(0) =~= Seq::<Seq<u8>>::empty());
    }
}

/// A snapshot that was written is read back as it was: the paths come out
/// as they went in, in their order. This holds of paths that can stand in a
/// line of their own, which every absolute path without an end of line
/// does.
pub proof fn lemma_snapshot_round_trip(paths: Seq<Seq<u8>>)
    requires
        paths.len() <= u64::MAX,
        forall|i: int| 0 <= i < paths.len() ==> is_value(#[trigger] paths[i]),
    ensures
        spec_load(spec_store(paths)) == Some(paths),
{
    let pairs = stored_pairs(paths);
    lemma_read_stored(paths);
    lemma_entry_pairs(paths, 0);
    assert forall|j: int| 1 < j < pairs.len() implies (#[trigger] pairs[j]).0 != count_key() by {
        assert(pairs[j] == entry_pairs(paths, 0)[j - 2]);
        lemma_file_key((j - 2) as nat, 0);
    }
    lemma_lookup_last(pairs, 1, count_key());
    lemma_number_of_decimal(paths.len());
    assert(entry_count(pairs) == paths.len());
    lemma_entries_of_stored(paths, paths.len());
    assert(paths.take(paths.len() as int) =~= paths);
}

} // verus!
