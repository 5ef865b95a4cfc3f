//! Shaping of what is read from media files into what the player shows:
//! titles and artists from tags, cover images as data URLs, track
//! durations and their `m:ss` display.

use vstd::prelude::*;
use vstd::string::StringExecFns;
use crate::text::{str_equal, decimal, decimal_pad2, push_decimal, push_char};
use crate::paths::{default_title_of, file_title, lower_extension, lower_extension_of};
use crate::stream::opt_view;

verus! {

/// The standard Base64 encoding (RFC 4648 alphabet, with `=` padding) of
/// `data`, as `base64::engine::general_purpose::STANDARD` produces it.
pub uninterp spec fn base64_standard(data: Seq<u8>) -> Seq<char>;

/// Inputs for which the length of the Base64 text fits in `usize`.
pub open spec fn base64_fits(len: int) -> bool {
    len / 3 * 4 + 4 <= usize::MAX
}

/// Encodes `data` with `base64`'s `STANDARD` engine (`Engine::encode`).
/// The result is named by `base64_standard`; no property of it is stated.
/// `Engine::encode` panics when the output length overflows `usize`,
/// which the `requires` rules out.
#[verifier::external_body]
fn base64_encode(data: &[u8]) -> (r: String)
    requires
        base64_fits(data@.len() as int),
    ensures
        r@ == base64_standard(data@),
{
    base64::Engine::encode(&base64::engine::general_purpose::STANDARD, data)
}

/// A `data:` URL that embeds `data` with the given MIME type.
pub open spec fn data_url_of(mime: Seq<char>, data: Seq<u8>) -> Seq<char> {
    "data:"@ + mime + ";base64,"@ + base64_standard(data)
}

/// Builds a `data:` URL that embeds `data` with the given MIME type.
pub fn data_url(mime: &str, data: &[u8]) -> (r: String)
    requires
        base64_fits(data@.len() as int),
    ensures
        r@ == data_url_of(mime@, data@),
{
    let mut url = "data:".to_owned();
    url.append(mime);
    url.append(";base64,");
    let encoded = base64_encode(data);
    url.append(encoded.as_str());
    url
}

/// The image type guessed from the first bytes of an ID3 picture.
pub open spec fn sniff_id3_picture(data: Seq<u8>) -> Seq<char> {
    if data.len() > 4 && data[0] == 0x89 && data[1] == 0x50 {
        "image/png"@
    } else {
        "image/jpeg"@
    }
}

/// Guesses the type of an ID3 picture: PNG by its signature, else JPEG.
pub fn sniff_id3_picture_type(data: &[u8]) -> (r: &'static str)
    ensures
        r@ == sniff_id3_picture(data@),
{
    if data.len() > 4 {
        if data[0] == 0xFF && data[1] == 0xD8 {
            "image/jpeg"
        } else if data[0] == 0x89 && data[1] == 0x50 {
            "image/png"
        } else {
            "image/jpeg"
        }
    } else {
        "image/jpeg"
    }
}

/// The image type guessed from the first bytes of an embedded picture.
pub open spec fn sniff_visual(data: Seq<u8>) -> Seq<char> {
    if data.len() > 4 && !(data[0] == 0xFF && data[1] == 0xD8) {
        if data[0] == 0x89 && data[1] == 0x50 && data[2] == 0x4E && data[3] == 0x47 {
            "image/png"@
        } else if data[0] == 0x47 && data[1] == 0x49 && data[2] == 0x46 {
            "image/gif"@
        } else {
            "image/jpeg"@
        }
    } else {
        "image/jpeg"@
    }
}

/// Guesses the type of an embedded picture: PNG or GIF by signature, else
/// JPEG.
pub fn sniff_visual_type(data: &[u8]) -> (r: &'static str)
    ensures
        r@ == sniff_visual(data@),
{
    if data.len() > 4 {
        if data[0] == 0xFF && data[1] == 0xD8 {
            "image/jpeg"
        } else if data[0] == 0x89 && data[1] == 0x50 && data[2] == 0x4E && data[3] == 0x47 {
            "image/png"
        } else if data[0] == 0x47 && data[1] == 0x49 && data[2] == 0x46 {
            "image/gif"
        } else {
            "image/jpeg"
        }
    } else {
        "image/jpeg"
    }
}

/// The cover URL of an ID3 picture: its declared MIME type, or a guess from
/// its bytes when none is declared.
pub open spec fn id3_cover_of(declared: Seq<char>, data: Seq<u8>) -> Seq<char> {
    let mime = if declared.len() > 0 {
        declared
    } else {
        sniff_id3_picture(data)
    };
    data_url_of(mime, data)
}

/// The cover URL of an ID3 picture.
pub fn id3_cover_url(declared_mime: &str, data: &[u8]) -> (r: String)
    requires
        base64_fits(data@.len() as int),
    ensures
        r@ == id3_cover_of(declared_mime@, data@),
{
    if declared_mime.is_empty() {
        data_url(sniff_id3_picture_type(data), data)
    } else {
        data_url(declared_mime, data)
    }
}

/// The cover URL of an embedded picture; none for an empty picture.
pub open spec fn visual_cover_of(declared: Seq<char>, data: Seq<u8>) -> Option<Seq<char>> {
    if data.len() == 0 {
        None
    } else {
        let mime = if declared.len() > 0 {
            declared
        } else {
            sniff_visual(data)
        };
        Some(data_url_of(mime, data))
    }
}

/// The cover URL of an embedded picture.
pub fn visual_cover_url(declared_mime: &str, data: &[u8]) -> (r: Option<String>)
    requires
        base64_fits(data@.len() as int),
    ensures
        opt_view(r) == visual_cover_of(declared_mime@, data@),
{
    if data.len() == 0 {
        None
    } else if declared_mime.is_empty() {
        Some(data_url(sniff_visual_type(data), data))
    } else {
        Some(data_url(declared_mime, data))
    }
}

/// The standard meaning of a tag, where the container gives one.
#[derive(Clone, Copy, Debug, PartialEq, Eq, Structural)]
pub enum StandardKey {
    TrackTitle,
    Artist,
    Album,
    Other,
}

/// One metadata tag: standard meaning, raw key and value text.
pub struct MetaTag {
    pub std_key: Option<StandardKey>,
    pub key: String,
    pub value: String,
}

/// Title, artist and album found in tags.
pub struct TagText {
    pub title: Option<String>,
    pub artist: Option<String>,
    pub album: Option<String>,
}

/// The view of found tag text.
pub open spec fn tag_text_view(t: TagText) -> (Option<Seq<char>>, Option<Seq<char>>, Option<Seq<char>>) {
    (opt_view(t.title), opt_view(t.artist), opt_view(t.album))
}

/// Raw keys that name the title.
pub open spec fn is_title_key(k: Seq<char>) -> bool {
    k == "title"@ || k == "TIT2"@ || k == "Title"@ || k == "TITLE"@
}

/// Raw keys that name the artist.
pub open spec fn is_artist_key(k: Seq<char>) -> bool {
    k == "artist"@ || k == "TPE1"@ || k == "Artist"@ || k == "ARTIST"@
}

/// Raw keys that name the album.
pub open spec fn is_album_key(k: Seq<char>) -> bool {
    k == "album"@ || k == "TALB"@ || k == "Album"@ || k == "ALBUM"@
}

/// Found text after reading one more tag: its standard meaning, then its
/// raw key, each overwrite the field they name.
pub open spec fn apply_tag(
    acc: (Option<Seq<char>>, Option<Seq<char>>, Option<Seq<char>>),
    t: MetaTag,
) -> (Option<Seq<char>>, Option<Seq<char>>, Option<Seq<char>>) {
    let v = Some(t.value@);
    let a = match t.std_key {
        Some(StandardKey::TrackTitle) => (v, acc.1, acc.2),
        Some(StandardKey::Artist) => (acc.0, v, acc.2),
        Some(StandardKey::Album) => (acc.0, acc.1, v),
        _ => acc,
    };
    if is_title_key(t.key@) {
        (v, a.1, a.2)
    } else if is_artist_key(t.key@) {
        (a.0, v, a.2)
    } else if is_album_key(t.key@) {
        (a.0, a.1, v)
    } else {
        a
    }
}

/// Title, artist and album from a list of tags: the last tag naming a
/// field wins.
pub open spec fn collect_tags(tags: Seq<MetaTag>) -> (Option<Seq<char>>, Option<Seq<char>>, Option<Seq<char>>)
    decreases tags.len(),
{
    if tags.len() == 0 {
        (None, None, None)
    } else {
        apply_tag(collect_tags(tags.drop_last()), tags.last())
    }
}

/// A tag whose standard meaning is title, artist or album sets that field
/// to its value, whatever its raw key; the other fields keep what earlier
/// tags gave unless the raw key names them.
pub proof fn lemma_standard_key_sets_field(tags: Seq<MetaTag>, t: MetaTag)
    ensures
        t.std_key == Some(StandardKey::TrackTitle) ==> collect_tags(tags.push(t)).0 == Some(t.value@),
        t.std_key == Some(StandardKey::Artist) ==> collect_tags(tags.push(t)).1 == Some(t.value@),
        t.std_key == Some(StandardKey::Album) ==> collect_tags(tags.push(t)).2 == Some(t.value@),
{
    assert(tags.push(t).drop_last() =~= tags);
}

/// Length and first two characters of a raw key, which tell the listed
/// keys apart.
spec fn key_sig(k: Seq<char>) -> (int, char, char) {
    (k.len() as int, k[0], k[1])
}

/// The raw keys of the title (`title`, `TIT2`, `Title`, `TITLE`), artist
/// (`artist`, `TPE1`, `Artist`, `ARTIST`) and album (`album`, `TALB`, `Album`,
/// `ALBUM`) set that field to the tag's value.
pub proof fn lemma_raw_key_sets_field(tags: Seq<MetaTag>, t: MetaTag)
    ensures
        (t.key@ == "title"@ || t.key@ == "TIT2"@ || t.key@ == "Title"@ || t.key@ == "TITLE"@)
            ==> collect_tags(tags.push(t)).0 == Some(t.value@),
        (t.key@ == "artist"@ || t.key@ == "TPE1"@ || t.key@ == "Artist"@ || t.key@ == "ARTIST"@)
            ==> collect_tags(tags.push(t)).1 == Some(t.value@),
        (t.key@ == "album"@ || t.key@ == "TALB"@ || t.key@ == "Album"@ || t.key@ == "ALBUM"@)
            ==> collect_tags(tags.push(t)).2 == Some(t.value@),
{
    reveal_strlit("title");
    assert(key_sig("title"@) == (5int, 't', 'i'));
    reveal_strlit("TIT2");
    assert(key_sig("TIT2"@) == (4int, 'T', 'I'));
    reveal_strlit("Title");
    assert(key_sig("Title"@) == (5int, 'T', 'i'));
    reveal_strlit("TITLE");
    assert(key_sig("TITLE"@) == (5int, 'T', 'I'));
    reveal_strlit("artist");
    assert(key_sig("artist"@) == (6int, 'a', 'r'));
    reveal_strlit("TPE1");
    assert(key_sig("TPE1"@) == (4int, 'T', 'P'));
    reveal_strlit("Artist");
    assert(key_sig("Artist"@) == (6int, 'A', 'r'));
    reveal_strlit("ARTIST");
    assert(key_sig("ARTIST"@) == (6int, 'A', 'R'));
    reveal_strlit("album");
    assert(key_sig("album"@) == (5int, 'a', 'l'));
    reveal_strlit("TALB");
    assert(key_sig("TALB"@) == (4int, 'T', 'A'));
    reveal_strlit("Album");
    assert(key_sig("Album"@) == (5int, 'A', 'l'));
    reveal_strlit("ALBUM");
    assert(key_sig("ALBUM"@) == (5int, 'A', 'L'));
    assert(tags.push(t).drop_last() =~= tags);
}

/// A tag with no standard meaning of interest and a raw key naming none of
/// the fields changes nothing that was found.
pub proof fn lemma_unrelated_tag_ignored(tags: Seq<MetaTag>, t: MetaTag)
    requires
        t.std_key is None || t.std_key == Some(StandardKey::Other),
        !(t.key@ == "title"@ || t.key@ == "TIT2"@ || t.key@ == "Title"@ || t.key@ == "TITLE"@),
        !(t.key@ == "artist"@ || t.key@ == "TPE1"@ || t.key@ == "Artist"@ || t.key@ == "ARTIST"@),
        !(t.key@ == "album"@ || t.key@ == "TALB"@ || t.key@ == "Album"@ || t.key@ == "ALBUM"@),
    ensures
        collect_tags(tags.push(t)) == collect_tags(tags),
{
    assert(tags.push(t).drop_last() =~= tags);
}

/// Nothing is found in an empty list of tags.
pub proof fn lemma_no_tags()
    ensures
        collect_tags(Seq::<MetaTag>::empty()) == (None::<Seq<char>>, None::<Seq<char>>, None::<Seq<char>>),
{
}

fn key_in(k: &str, a: &str, b: &str, c: &str, d: &str) -> (r: bool)
    ensures
        r == (k@ == a@ || k@ == b@ || k@ == c@ || k@ == d@),
{
    str_equal(k, a) || str_equal(k, b) || str_equal(k, c) || str_equal(k, d)
}

/// Reads title, artist and album out of a list of tags.
pub fn collect_tag_text(tags: &Vec<MetaTag>) -> (r: TagText)
    ensures
        tag_text_view(r) == collect_tags(tags@),
{
    let mut acc = TagText { title: None, artist: None, album: None };
    let n = tags.len();
    for i in 0..n
        invariant
            n == tags@.len(),
            tag_text_view(acc) == collect_tags(tags@.take(i as int)),
    {
        assert(tags@.take(i + 1).drop_last() =~= tags@.take(i as int));
        let t = &tags[i];
        match t.std_key {
            Some(StandardKey::TrackTitle) => {
                acc.title = Some(t.value.clone());
            },
            Some(StandardKey::Artist) => {
                acc.artist = Some(t.value.clone());
            },
            Some(StandardKey::Album) => {
                acc.album = Some(t.value.clone());
            },
            _ => {},
        }
        let k = t.key.as_str();
        if key_in(k, "title", "TIT2", "Title", "TITLE") {
            acc.title = Some(t.value.clone());
        } else if key_in(k, "artist", "TPE1", "Artist", "ARTIST") {
            acc.artist = Some(t.value.clone());
        } else if key_in(k, "album", "TALB", "Album", "ALBUM") {
            acc.album = Some(t.value.clone());
        }
    }
    assert(tags@.take(n as int) =~= tags@);
    acc
}

/// The text shown for a media file.
pub struct SongText {
    pub title: String,
    pub artist: String,
    pub album: String,
}

/// The view of shown text.
pub open spec fn song_text_view(s: SongText) -> (Seq<char>, Seq<char>, Seq<char>) {
    (s.title@, s.artist@, s.album@)
}

/// What stands for an unknown artist or album.
pub open spec fn unknown() -> Seq<char> {
    "Desconocido"@
}

/// A found text, or a fallback.
pub open spec fn or_else(o: Option<Seq<char>>, d: Seq<char>) -> Seq<char> {
    match o {
        Some(v) => v,
        None => d,
    }
}

/// The shown text of an audio file: what the tags give, else the file's
/// stem as title and "Desconocido" as artist and album.
pub open spec fn song_text_of(
    found: (Option<Seq<char>>, Option<Seq<char>>, Option<Seq<char>>),
    path: Seq<char>,
) -> (Seq<char>, Seq<char>, Seq<char>) {
    (or_else(found.0, default_title_of(path)), or_else(found.1, unknown()), or_else(found.2, unknown()))
}

/// The shown text of an audio file from the text its tags give.
pub fn song_text(found: TagText, path: &str) -> (r: SongText)
    ensures
        song_text_view(r) == song_text_of(tag_text_view(found), path@),
{
    let title = match found.title {
        Some(t) => t,
        None => file_title(path),
    };
    let artist = match found.artist {
        Some(a) => a,
        None => "Desconocido".to_owned(),
    };
    let album = match found.album {
        Some(a) => a,
        None => "Desconocido".to_owned(),
    };
    SongText { title, artist, album }
}

/// The shown text of a video: its stem, "Video", "Videos".
pub fn video_song_text(path: &str) -> (r: SongText)
    ensures
        song_text_view(r) == (default_title_of(path@), "Video"@, "Videos"@),
{
    SongText { title: file_title(path), artist: "Video".to_owned(), album: "Videos".to_owned() }
}

/// The shown text of an audio file whose metadata could not be read.
pub fn unreadable_song_text(path: &str) -> (r: SongText)
    ensures
        song_text_view(r) == (default_title_of(path@), unknown(), unknown()),
{
    SongText {
        title: file_title(path),
        artist: "Desconocido".to_owned(),
        album: "Desconocido".to_owned(),
    }
}

/// Whether an audio file's metadata is read from ID3 tags (MP3 files).
pub fn uses_id3_tags(path: &str) -> (r: bool)
    ensures
        r == (lower_extension_of(path@) == Some("mp3"@)),
{
    match lower_extension(path) {
        Some(e) => str_equal(e.as_str(), "mp3"),
        None => false,
    }
}

/// A track's time base (`numer / denom` seconds per tick).
#[derive(Clone, Copy, Debug, PartialEq, Eq, Structural)]
pub struct TimeBaseValue {
    pub numer: u32,
    pub denom: u32,
}

/// What a track says of its length.
#[derive(Clone, Copy, Debug, PartialEq, Eq, Structural)]
pub struct TrackTiming {
    pub time_base: Option<TimeBaseValue>,
    pub n_frames: Option<u64>,
}

/// Whole seconds of `ts` ticks of `numer / denom` seconds, wrapping at
/// 2^64 as `TimeBase::calc_time` does.
pub open spec fn whole_seconds(numer: u32, denom: u32, ts: u64) -> u64 {
    ((ts as int * numer as int / denom as int) % 0x1_0000_0000_0000_0000int) as u64
}

/// Whole seconds of `ts` ticks, by `symphonia`'s `TimeBase::calc_time`
/// (the `seconds` field of its result). Its documentation promises an
/// accurate result whose seconds wrap on overflow; the contract states the
/// whole seconds as the exact quotient, wrapped. `calc_time` asserts a
/// non-zero numerator and denominator, which the `requires` demands.
#[verifier::external_body]
fn calc_whole_seconds(numer: u32, denom: u32, ts: u64) -> (r: u64)
    requires
        numer > 0,
        denom > 0,
    ensures
        r == whole_seconds(numer, denom, ts),
{
    symphonia::core::units::TimeBase::new(numer, denom).calc_time(ts).seconds
}

/// A track whose length can be computed has a non-zero time base.
pub open spec fn time_base_ok(t: TrackTiming) -> bool {
    match (t.time_base, t.n_frames) {
        (Some(tb), Some(_)) => tb.numer > 0 && tb.denom > 0,
        _ => true,
    }
}

/// A track's length in whole seconds, when it gives a time base and a
/// frame count.
pub open spec fn track_seconds_of(t: TrackTiming) -> Option<u64> {
    match (t.time_base, t.n_frames) {
        (Some(tb), Some(n)) => Some(whole_seconds(tb.numer, tb.denom, n)),
        _ => None,
    }
}

/// A track's length in whole seconds.
pub fn track_seconds(t: &TrackTiming) -> (r: Option<u64>)
    requires
        time_base_ok(*t),
    ensures
        r == track_seconds_of(*t),
{
    match (t.time_base, t.n_frames) {
        (Some(tb), Some(n)) => Some(calc_whole_seconds(tb.numer, tb.denom, n)),
        _ => None,
    }
}

/// The longest plausible (under a day) track length of a video, 0 if none.
pub open spec fn longest_track(tracks: Seq<TrackTiming>) -> u64
    decreases tracks.len(),
{
    if tracks.len() == 0 {
        0
    } else {
        let m = longest_track(tracks.drop_last());
        match track_seconds_of(tracks.last()) {
            Some(d) => if d > m && d < 86400 {
                d
            } else {
                m
            },
            None => m,
        }
    }
}

/// The length of a video from its tracks: the longest track under a day,
/// if any track gives a positive one.
pub fn longest_track_seconds(tracks: &Vec<TrackTiming>) -> (r: Option<u64>)
    requires
        forall|i: int| 0 <= i < tracks@.len() ==> time_base_ok(#[trigger] tracks@[i]),
    ensures
        r == (if longest_track(tracks@) > 0 {
            Some(longest_track(tracks@))
        } else {
            None
        }),
        r matches Some(d) ==> 0 < d < 86400,
{
    let mut best: u64 = 0;
    let n = tracks.len();
    for i in 0..n
        invariant
            n == tracks@.len(),
            forall|j: int| 0 <= j < tracks@.len() ==> time_base_ok(#[trigger] tracks@[j]),
            best == longest_track(tracks@.take(i as int)),
            best < 86400,
    {
        assert(tracks@.take(i + 1).drop_last() =~= tracks@.take(i as int));
        assert(tracks@.take(i + 1).last() == tracks@[i as int]);
        match track_seconds(&tracks[i]) {
            Some(d) => {
                if d > best && d < 86400 {
                    best = d;
                }
            },
            None => {},
        }
    }
    assert(tracks@.take(n as int) =~= tracks@);
    if best > 0 {
        Some(best)
    } else {
        None
    }
}

/// Raw tag keys that give a video's duration.
pub open spec fn is_duration_key(k: Seq<char>) -> bool {
    k == "duration"@ || k == "DURATION"@ || k == "Duration"@
}

/// Whether a raw tag key gives a video's duration.
pub fn is_duration_tag_key(k: &str) -> (r: bool)
    ensures
        r == is_duration_key(k@),
{
    str_equal(k, "duration") || str_equal(k, "DURATION") || str_equal(k, "Duration")
}

/// A duration of `total` whole seconds as `m:ss`.
pub open spec fn duration_text(total: nat) -> Seq<char> {
    decimal(total / 60) + seq![':'] + decimal_pad2(total % 60)
}

/// Shows a duration of `total_seconds` whole seconds as `m:ss` (minutes
/// unbounded, seconds two digits); zero shows as `0:00`.
pub fn format_duration(total_seconds: u64) -> (r: String)
    ensures
        r@ == duration_text(total_seconds as nat),
{
    let minutes = total_seconds / 60;
    let secs = total_seconds % 60;
    let mut s = String::new();
    push_decimal(&mut s, minutes);
    push_char(&mut s, ':');
    if secs < 10 {
        push_char(&mut s, '0');
    }
    push_decimal(&mut s, secs);
    assert(s@ =~= duration_text(total_seconds as nat));
    s
}

} // verus!
