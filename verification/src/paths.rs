//! Classification of media files by the extension of their file name.

use vstd::prelude::*;
use vstd::string::StrSliceExecFns;
use crate::text::{str_equal, substring};
use crate::stream::opt_view;

verus! {

/// The final component of a path, as `std::path::Path::file_name` gives it
/// for the platform the program is built for.
pub uninterp spec fn path_file_name(path: Seq<char>) -> Option<Seq<char>>;

/// The lower-case form of a text, as `str::to_lowercase` gives it (Unicode
/// lower-case mapping).
pub uninterp spec fn lowercase(s: Seq<char>) -> Seq<char>;

/// Calls `std::path::Path::file_name` on `path`. The result is named by
/// `path_file_name`; no property of it is stated here.
#[verifier::external_body]
fn file_name(path: &str) -> (r: Option<String>)
    ensures
        opt_view(r) == path_file_name(path@),
{
    match std::path::Path::new(path).file_name() {
        Some(n) => Some(n.to_string_lossy().into_owned()),
        None => None,
    }
}

/// Calls `str::to_lowercase` on `s`. The result is named by `lowercase`; no
/// property of it is stated here.
#[verifier::external_body]
fn to_lowercase(s: &str) -> (r: String)
    ensures
        r@ == lowercase(s@),
{
    s.to_lowercase()
}

/// Index of the last occurrence of `c` in `s`.
pub open spec fn last_index_of(s: Seq<char>, c: char) -> Option<int>
    decreases s.len(),
{
    if s.len() == 0 {
        None
    } else if s.last() == c {
        Some(s.len() - 1)
    } else {
        last_index_of(s.drop_last(), c)
    }
}

/// The position of the dot that separates stem and extension in a file
/// name: the last `.`, unless it is the first character or the name is `..`.
pub open spec fn extension_dot(name: Seq<char>) -> Option<int> {
    if name == seq!['.', '.'] {
        None
    } else {
        match last_index_of(name, '.') {
            Some(k) => if k > 0 {
                Some(k)
            } else {
                None
            },
            None => None,
        }
    }
}

/// The extension of a file name: the text after its final `.`; none when the
/// name has no `.` or begins with `.` and has no other.
pub open spec fn name_extension(name: Seq<char>) -> Option<Seq<char>> {
    match extension_dot(name) {
        Some(k) => Some(name.skip(k + 1)),
        None => None,
    }
}

/// The stem of a file name: the text before its final `.`, or the whole
/// name when it has no extension.
pub open spec fn name_stem(name: Seq<char>) -> Seq<char> {
    match extension_dot(name) {
        Some(k) => name.take(k),
        None => name,
    }
}

/// The lower-cased extension of the file a path names.
pub open spec fn lower_extension_of(path: Seq<char>) -> Option<Seq<char>> {
    match path_file_name(path) {
        Some(n) => match name_extension(n) {
            Some(e) => Some(lowercase(e)),
            None => None,
        },
        None => None,
    }
}

/// The stem of the file a path names.
pub open spec fn file_stem_of(path: Seq<char>) -> Option<Seq<char>> {
    match path_file_name(path) {
        Some(n) => Some(name_stem(n)),
        None => None,
    }
}

/// The last occurrence of a character lies within the text.
pub proof fn lemma_last_index_of_bounds(s: Seq<char>, c: char)
    ensures
        last_index_of(s, c) matches Some(k) ==> 0 <= k < s.len() && s[k] == c,
    decreases s.len(),
{
    if s.len() > 0 && s.last() != c {
        lemma_last_index_of_bounds(s.drop_last(), c);
    }
}

/// Index of the last occurrence of `c` in `s`.
pub fn rfind_char(s: &str, c: char) -> (r: Option<usize>)
    ensures
        match r {
            Some(k) => last_index_of(s@, c) == Some(k as int),
            None => last_index_of(s@, c) is None,
        },
        r matches Some(k) ==> k < s@.len(),
{
    proof {
        lemma_last_index_of_bounds(s@, c);
    }
    let n = s.unicode_len();
    let mut i: usize = n;
    assert(s@.take(n as int) =~= s@);
    while i > 0
        invariant
            n == s@.len(),
            i <= n,
            last_index_of(s@, c) == last_index_of(s@.take(i as int), c),
        decreases i,
    {
        assert(s@.take(i as int).drop_last() =~= s@.take(i - 1));
        if s.get_char(i - 1) == c {
            return Some(i - 1);
        }
        i = i - 1;
    }
    None
}

/// Position of the dot that starts the extension of a file name.
fn find_extension_dot(name: &str) -> (r: Option<usize>)
    ensures
        match r {
            Some(k) => extension_dot(name@) == Some(k as int),
            None => extension_dot(name@) is None,
        },
        r matches Some(k) ==> k < name@.len(),
{
    proof {
        reveal_strlit("..");
    }
    assert(".."@ =~= seq!['.', '.']);
    if str_equal(name, "..") {
        return None;
    }
    match rfind_char(name, '.') {
        Some(k) => if k > 0 {
            Some(k)
        } else {
            None
        },
        None => None,
    }
}

/// The lower-cased extension of the file a path names.
pub fn lower_extension(path: &str) -> (r: Option<String>)
    ensures
        opt_view(r) == lower_extension_of(path@),
{
    match file_name(path) {
        None => None,
        Some(name) => match find_extension_dot(name.as_str()) {
            None => None,
            Some(k) => {
                let n = name.as_str().unicode_len();
                let ext = substring(name.as_str(), k + 1, n);
                assert(ext@ =~= name@.skip(k + 1));
                Some(to_lowercase(ext.as_str()))
            },
        },
    }
}

/// The extension of the file a path names, as written.
pub open spec fn extension_of(path: Seq<char>) -> Option<Seq<char>> {
    match path_file_name(path) {
        Some(n) => name_extension(n),
        None => None,
    }
}

/// The extension of the file a path names (`Path::extension`).
pub fn file_extension(path: &str) -> (r: Option<String>)
    ensures
        opt_view(r) == extension_of(path@),
{
    match file_name(path) {
        None => None,
        Some(name) => match find_extension_dot(name.as_str()) {
            None => None,
            Some(k) => {
                let n = name.as_str().unicode_len();
                let ext = substring(name.as_str(), k + 1, n);
                assert(ext@ =~= name@.skip(k + 1));
                Some(ext)
            },
        },
    }
}

/// The format hint used when probing a video: its lower-case extension,
/// with `mp4` files probed as `m4v` and `mpg` files as `mpeg`.
pub open spec fn video_probe_hint_of(path: Seq<char>) -> Option<Seq<char>> {
    match lower_extension_of(path) {
        Some(e) => if e == "mp4"@ || e == "m4v"@ {
            Some("m4v"@)
        } else if e == "mpeg"@ || e == "mpg"@ {
            Some("mpeg"@)
        } else {
            Some(e)
        },
        None => None,
    }
}

/// The format hint used when probing a video for its duration.
pub fn video_probe_hint(path: &str) -> (r: Option<String>)
    ensures
        opt_view(r) == video_probe_hint_of(path@),
{
    match lower_extension(path) {
        Some(e) => if str_equal(e.as_str(), "mp4") || str_equal(e.as_str(), "m4v") {
            Some("m4v".to_owned())
        } else if str_equal(e.as_str(), "mpeg") || str_equal(e.as_str(), "mpg") {
            Some("mpeg".to_owned())
        } else {
            Some(e)
        },
        None => None,
    }
}

/// The stem of the file a path names (`Path::file_stem`).
pub fn file_stem(path: &str) -> (r: Option<String>)
    ensures
        opt_view(r) == file_stem_of(path@),
{
    match file_name(path) {
        None => None,
        Some(name) => match find_extension_dot(name.as_str()) {
            None => Some(name),
            Some(k) => {
                let stem = substring(name.as_str(), 0, k);
                assert(stem@ =~= name@.take(k as int));
                Some(stem)
            },
        },
    }
}

/// The title a media file gets when its tags give none: the stem of its
/// file name, or the empty text when the path names no file.
pub open spec fn default_title_of(path: Seq<char>) -> Seq<char> {
    match file_stem_of(path) {
        Some(s) => s,
        None => Seq::empty(),
    }
}

/// The stem of the file a path names, or the empty text.
pub fn file_title(path: &str) -> (r: String)
    ensures
        r@ == default_title_of(path@),
{
    match file_stem(path) {
        Some(s) => s,
        None => String::new(),
    }
}

/// Extensions handled as video.
pub open spec fn is_video_ext(e: Seq<char>) -> bool {
    ||| e == "mp4"@
    ||| e == "m4v"@
    ||| e == "webm"@
    ||| e == "mov"@
    ||| e == "mkv"@
    ||| e == "avi"@
    ||| e == "flv"@
    ||| e == "wmv"@
    ||| e == "mpeg"@
    ||| e == "mpg"@
    ||| e == "3gp"@
    ||| e == "ogv"@
}

/// Whether an extension is one handled as video.
pub fn is_video_ext_name(e: &str) -> (r: bool)
    ensures
        r == is_video_ext(e@),
{
    str_equal(e, "mp4") || str_equal(e, "m4v") || str_equal(e, "webm") || str_equal(e, "mov")
        || str_equal(e, "mkv") || str_equal(e, "avi") || str_equal(e, "flv") || str_equal(e, "wmv")
        || str_equal(e, "mpeg") || str_equal(e, "mpg") || str_equal(e, "3gp") || str_equal(e, "ogv")
}

/// The file a path names has a video extension (in any letter case).
pub open spec fn is_video_path(path: Seq<char>) -> bool {
    match lower_extension_of(path) {
        Some(e) => is_video_ext(e),
        None => false,
    }
}

/// Whether the file a path names is a video, judged by its extension.
pub fn is_video_extension(path: &str) -> (r: bool)
    ensures
        r == is_video_path(path@),
{
    match lower_extension(path) {
        Some(e) => is_video_ext_name(e.as_str()),
        None => false,
    }
}

/// Extensions of the files the player opens from the command line or from
/// a drop onto its window.
pub open spec fn is_playable_ext(e: Seq<char>) -> bool {
    ||| e == "mp3"@
    ||| e == "wav"@
    ||| e == "ogg"@
    ||| e == "flac"@
    ||| e == "m4a"@
    ||| e == "aac"@
    ||| e == "mp4"@
    ||| e == "m4v"@
    ||| e == "webm"@
    ||| e == "mov"@
    ||| e == "mkv"@
    ||| e == "avi"@
}

/// Whether an extension is one the player opens when given a file.
pub fn is_playable_ext_name(e: &str) -> (r: bool)
    ensures
        r == is_playable_ext(e@),
{
    str_equal(e, "mp3") || str_equal(e, "wav") || str_equal(e, "ogg") || str_equal(e, "flac")
        || str_equal(e, "m4a") || str_equal(e, "aac") || str_equal(e, "mp4") || str_equal(e, "m4v")
        || str_equal(e, "webm") || str_equal(e, "mov") || str_equal(e, "mkv") || str_equal(e, "avi")
}

/// The file a path names has a playable extension (in any letter case).
pub open spec fn is_playable_path(path: Seq<char>) -> bool {
    match lower_extension_of(path) {
        Some(e) => is_playable_ext(e),
        None => false,
    }
}

/// Whether the file a path names is one the player opens when given it.
pub fn is_playable_media(path: &str) -> (r: bool)
    ensures
        r == is_playable_path(path@),
{
    match lower_extension(path) {
        Some(e) => is_playable_ext_name(e.as_str()),
        None => false,
    }
}

/// The paths of a list that name playable media files, in their order.
pub open spec fn playable_paths(paths: Seq<String>) -> Seq<String> {
    paths.filter(|p: String| is_playable_path(p@))
}

/// Keeps the paths that name playable media files, in their order.
pub fn filter_playable_paths(paths: &Vec<String>) -> (r: Vec<String>)
    ensures
        r@ == playable_paths(paths@),
{
    let mut out: Vec<String> = Vec::new();
    let n = paths.len();
    let ghost pred = |p: String| is_playable_path(p@);
    for i in 0..n
        invariant
            n == paths@.len(),
            pred == (|p: String| is_playable_path(p@)),
            out@ =~= paths@.take(i as int).filter(pred),
    {
        proof {
            reveal_with_fuel(Seq::<_>::filter, 1);
        }
        assert(paths@.take(i + 1).drop_last() =~= paths@.take(i as int));
        if is_playable_media(paths[i].as_str()) {
            out.push(paths[i].clone());
        }
    }
    assert(paths@.take(n as int) =~= paths@);
    out
}

/// The MIME type served for a (lower-case) extension.
pub open spec fn mime_for_extension(e: Seq<char>) -> Seq<char> {
    if e == "mp3"@ {
        "audio/mpeg"@
    } else if e == "wav"@ {
        "audio/wav"@
    } else if e == "ogg"@ {
        "audio/ogg"@
    } else if e == "aac"@ {
        "audio/aac"@
    } else if e == "m4a"@ {
        "audio/mp4"@
    } else if e == "mp4"@ {
        "video/mp4"@
    } else if e == "m4v"@ {
        "video/mp4"@
    } else if e == "webm"@ {
        "video/webm"@
    } else if e == "mov"@ {
        "video/quicktime"@
    } else if e == "mkv"@ {
        "video/x-matroska"@
    } else if e == "flac"@ {
        "audio/flac"@
    } else if e == "avi"@ {
        "video/x-msvideo"@
    } else if e == "wmv"@ {
        "video/x-ms-wmv"@
    } else if e == "flv"@ {
        "video/x-flv"@
    } else if e == "mpeg"@ || e == "mpg"@ {
        "video/mpeg"@
    } else if e == "3gp"@ {
        "video/3gpp"@
    } else if e == "ogv"@ {
        "video/ogg"@
    } else {
        "application/octet-stream"@
    }
}

/// The MIME type for a (lower-case) extension.
pub fn mime_for_extension_name(e: &str) -> (r: &'static str)
    ensures
        r@ == mime_for_extension(e@),
{
    if str_equal(e, "mp3") {
        "audio/mpeg"
    } else if str_equal(e, "wav") {
        "audio/wav"
    } else if str_equal(e, "ogg") {
        "audio/ogg"
    } else if str_equal(e, "aac") {
        "audio/aac"
    } else if str_equal(e, "m4a") {
        "audio/mp4"
    } else if str_equal(e, "mp4") {
        "video/mp4"
    } else if str_equal(e, "m4v") {
        "video/mp4"
    } else if str_equal(e, "webm") {
        "video/webm"
    } else if str_equal(e, "mov") {
        "video/quicktime"
    } else if str_equal(e, "mkv") {
        "video/x-matroska"
    } else if str_equal(e, "flac") {
        "audio/flac"
    } else if str_equal(e, "avi") {
        "video/x-msvideo"
    } else if str_equal(e, "wmv") {
        "video/x-ms-wmv"
    } else if str_equal(e, "flv") {
        "video/x-flv"
    } else if str_equal(e, "mpeg") || str_equal(e, "mpg") {
        "video/mpeg"
    } else if str_equal(e, "3gp") {
        "video/3gpp"
    } else if str_equal(e, "ogv") {
        "video/ogg"
    } else {
        "application/octet-stream"
    }
}

/// The MIME type of the file a path names; `None` when it has no extension.
pub open spec fn mime_type_of(path: Seq<char>) -> Option<Seq<char>> {
    match lower_extension_of(path) {
        Some(e) => Some(mime_for_extension(e)),
        None => None,
    }
}

/// The MIME type the streaming server sends for a file.
pub fn get_mime_type(path: &str) -> (r: Option<&'static str>)
    ensures
        match r {
            Some(m) => mime_type_of(path@) == Some(m@),
            None => mime_type_of(path@) is None,
        },
{
    match lower_extension(path) {
        Some(e) => Some(mime_for_extension_name(e.as_str())),
        None => None,
    }
}

/// Assumed bit rate (bits per second) of a video by its lower-case extension.
pub open spec fn video_bit_rate(ext: Option<Seq<char>>) -> u64 {
    match ext {
        Some(e) => if e == "mp4"@ || e == "m4v"@ {
            500_000
        } else if e == "mkv"@ {
            600_000
        } else if e == "avi"@ {
            800_000
        } else if e == "mov"@ {
            700_000
        } else if e == "webm"@ {
            400_000
        } else if e == "flv"@ {
            300_000
        } else if e == "wmv"@ {
            450_000
        } else if e == "mpeg"@ || e == "mpg"@ {
            350_000
        } else if e == "3gp"@ {
            200_000
        } else if e == "ogv"@ {
            400_000
        } else {
            500_000
        },
        None => 500_000,
    }
}

/// Assumed data rate, in bytes per second, of the video a path names; it
/// estimates a duration from the file size when the container gives none.
pub fn estimated_bytes_per_second(path: &str) -> (r: u64)
    ensures
        r == video_bit_rate(lower_extension_of(path@)) / 8,
{
    let bits: u64 = match lower_extension(path) {
        Some(e) => {
            let e = e.as_str();
            if str_equal(e, "mp4") || str_equal(e, "m4v") {
                500_000
            } else if str_equal(e, "mkv") {
                600_000
            } else if str_equal(e, "avi") {
                800_000
            } else if str_equal(e, "mov") {
                700_000
            } else if str_equal(e, "webm") {
                400_000
            } else if str_equal(e, "flv") {
                300_000
            } else if str_equal(e, "wmv") {
                450_000
            } else if str_equal(e, "mpeg") || str_equal(e, "mpg") {
                350_000
            } else if str_equal(e, "3gp") {
                200_000
            } else if str_equal(e, "ogv") {
                400_000
            } else {
                500_000
            }
        },
        None => 500_000,
    };
    bits / 8
}


/// Length and first three characters of an extension, which tell the
/// listed extensions apart.
spec fn ext_sig(e: Seq<char>) -> (int, char, char, char) {
    (e.len() as int, e[0], e[1], e[2])
}

/// Files are videos exactly when their lower-cased extension is one of
/// mp4, m4v, webm, mov, mkv, avi, flv, wmv, mpeg, mpg, 3gp, ogv; the audio
/// extensions mp3, wav, ogg, flac, m4a, aac are not videos.
pub proof fn lemma_video_extensions(p: Seq<char>)
    ensures
        is_video_path(p) <==> (lower_extension_of(p) matches Some(e) && (e == "mp4"@ || e == "m4v"@ || e == "webm"@ || e == "mov"@ || e == "mkv"@ || e == "avi"@ || e == "flv"@ || e == "wmv"@ || e == "mpeg"@ || e == "mpg"@ || e == "3gp"@ || e == "ogv"@)),
        (lower_extension_of(p) matches Some(e) && (e == "mp3"@ || e == "wav"@ || e == "ogg"@ || e == "flac"@ || e == "m4a"@ || e == "aac"@)) ==> !is_video_path(p),
        lower_extension_of(p) is None ==> !is_video_path(p),
{
    reveal_strlit("3gp");
    assert(ext_sig("3gp"@) == (3int, '3', 'g', 'p'));
    reveal_strlit("aac");
    assert(ext_sig("aac"@) == (3int, 'a', 'a', 'c'));
    reveal_strlit("avi");
    assert(ext_sig("avi"@) == (3int, 'a', 'v', 'i'));
    reveal_strlit("flac");
    assert(ext_sig("flac"@) == (4int, 'f', 'l', 'a'));
    reveal_strlit("flv");
    assert(ext_sig("flv"@) == (3int, 'f', 'l', 'v'));
    reveal_strlit("m4a");
    assert(ext_sig("m4a"@) == (3int, 'm', '4', 'a'));
    reveal_strlit("m4v");
    assert(ext_sig("m4v"@) == (3int, 'm', '4', 'v'));
    reveal_strlit("mkv");
    assert(ext_sig("mkv"@) == (3int, 'm', 'k', 'v'));
    reveal_strlit("mov");
    assert(ext_sig("mov"@) == (3int, 'm', 'o', 'v'));
    reveal_strlit("mp3");
    assert(ext_sig("mp3"@) == (3int, 'm', 'p', '3'));
    reveal_strlit("mp4");
    assert(ext_sig("mp4"@) == (3int, 'm', 'p', '4'));
    reveal_strlit("mpeg");
    assert(ext_sig("mpeg"@) == (4int, 'm', 'p', 'e'));
    reveal_strlit("mpg");
    assert(ext_sig("mpg"@) == (3int, 'm', 'p', 'g'));
    reveal_strlit("ogg");
    assert(ext_sig("ogg"@) == (3int, 'o', 'g', 'g'));
    reveal_strlit("ogv");
    assert(ext_sig("ogv"@) == (3int, 'o', 'g', 'v'));
    reveal_strlit("wav");
    assert(ext_sig("wav"@) == (3int, 'w', 'a', 'v'));
    reveal_strlit("webm");
    assert(ext_sig("webm"@) == (4int, 'w', 'e', 'b'));
    reveal_strlit("wmv");
    assert(ext_sig("wmv"@) == (3int, 'w', 'm', 'v'));
}

/// The player opens a given or dropped file exactly when its lower-cased
/// extension is one of mp3, wav, ogg, flac, m4a, aac, mp4, m4v, webm, mov,
/// mkv, avi; other video types (flv, wmv, mpeg, mpg, 3gp, ogv) are not
/// opened that way.
pub proof fn lemma_playable_extensions(p: Seq<char>)
    ensures
        is_playable_path(p) <==> (lower_extension_of(p) matches Some(e) && (e == "mp3"@ || e == "wav"@ || e == "ogg"@ || e == "flac"@ || e == "m4a"@ || e == "aac"@ || e == "mp4"@ || e == "m4v"@ || e == "webm"@ || e == "mov"@ || e == "mkv"@ || e == "avi"@)),
        (lower_extension_of(p) matches Some(e) && (e == "flv"@ || e == "wmv"@ || e == "mpeg"@ || e == "mpg"@ || e == "3gp"@ || e == "ogv"@))
            ==> !is_playable_path(p),
{
    reveal_strlit("3gp");
    assert(ext_sig("3gp"@) == (3int, '3', 'g', 'p'));
    reveal_strlit("aac");
    assert(ext_sig("aac"@) == (3int, 'a', 'a', 'c'));
    reveal_strlit("avi");
    assert(ext_sig("avi"@) == (3int, 'a', 'v', 'i'));
    reveal_strlit("flac");
    assert(ext_sig("flac"@) == (4int, 'f', 'l', 'a'));
    reveal_strlit("flv");
    assert(ext_sig("flv"@) == (3int, 'f', 'l', 'v'));
    reveal_strlit("m4a");
    assert(ext_sig("m4a"@) == (3int, 'm', '4', 'a'));
    reveal_strlit("m4v");
    assert(ext_sig("m4v"@) == (3int, 'm', '4', 'v'));
    reveal_strlit("mkv");
    assert(ext_sig("mkv"@) == (3int, 'm', 'k', 'v'));
    reveal_strlit("mov");
    assert(ext_sig("mov"@) == (3int, 'm', 'o', 'v'));
    reveal_strlit("mp3");
    assert(ext_sig("mp3"@) == (3int, 'm', 'p', '3'));
    reveal_strlit("mp4");
    assert(ext_sig("mp4"@) == (3int, 'm', 'p', '4'));
    reveal_strlit("mpeg");
    assert(ext_sig("mpeg"@) == (4int, 'm', 'p', 'e'));
    reveal_strlit("mpg");
    assert(ext_sig("mpg"@) == (3int, 'm', 'p', 'g'));
    reveal_strlit("ogg");
    assert(ext_sig("ogg"@) == (3int, 'o', 'g', 'g'));
    reveal_strlit("ogv");
    assert(ext_sig("ogv"@) == (3int, 'o', 'g', 'v'));
    reveal_strlit("wav");
    assert(ext_sig("wav"@) == (3int, 'w', 'a', 'v'));
    reveal_strlit("webm");
    assert(ext_sig("webm"@) == (4int, 'w', 'e', 'b'));
    reveal_strlit("wmv");
    assert(ext_sig("wmv"@) == (3int, 'w', 'm', 'v'));
}

/// The MIME type of each known extension, and generic binary data for any
/// other extension.
pub proof fn lemma_mime_table(p: Seq<char>)
    ensures
        lower_extension_of(p) == Some("mp3"@) ==> mime_type_of(p) == Some("audio/mpeg"@),
        lower_extension_of(p) == Some("wav"@) ==> mime_type_of(p) == Some("audio/wav"@),
        lower_extension_of(p) == Some("ogg"@) ==> mime_type_of(p) == Some("audio/ogg"@),
        lower_extension_of(p) == Some("aac"@) ==> mime_type_of(p) == Some("audio/aac"@),
        lower_extension_of(p) == Some("m4a"@) ==> mime_type_of(p) == Some("audio/mp4"@),
        lower_extension_of(p) == Some("mp4"@) ==> mime_type_of(p) == Some("video/mp4"@),
        lower_extension_of(p) == Some("m4v"@) ==> mime_type_of(p) == Some("video/mp4"@),
        lower_extension_of(p) == Some("webm"@) ==> mime_type_of(p) == Some("video/webm"@),
        lower_extension_of(p) == Some("mov"@) ==> mime_type_of(p) == Some("video/quicktime"@),
        lower_extension_of(p) == Some("mkv"@) ==> mime_type_of(p) == Some("video/x-matroska"@),
        lower_extension_of(p) == Some("flac"@) ==> mime_type_of(p) == Some("audio/flac"@),
        lower_extension_of(p) == Some("avi"@) ==> mime_type_of(p) == Some("video/x-msvideo"@),
        lower_extension_of(p) == Some("wmv"@) ==> mime_type_of(p) == Some("video/x-ms-wmv"@),
        lower_extension_of(p) == Some("flv"@) ==> mime_type_of(p) == Some("video/x-flv"@),
        lower_extension_of(p) == Some("mpeg"@) ==> mime_type_of(p) == Some("video/mpeg"@),
        lower_extension_of(p) == Some("mpg"@) ==> mime_type_of(p) == Some("video/mpeg"@),
        lower_extension_of(p) == Some("3gp"@) ==> mime_type_of(p) == Some("video/3gpp"@),
        lower_extension_of(p) == Some("ogv"@) ==> mime_type_of(p) == Some("video/ogg"@),
        (lower_extension_of(p) matches Some(e) && !(e == "mp3"@ || e == "wav"@ || e == "ogg"@ || e == "aac"@ || e == "m4a"@ || e == "mp4"@ || e == "m4v"@ || e == "webm"@ || e == "mov"@ || e == "mkv"@ || e == "flac"@ || e == "avi"@ || e == "wmv"@ || e == "flv"@ || e == "mpeg"@ || e == "mpg"@ || e == "3gp"@ || e == "ogv"@))
            ==> mime_type_of(p) == Some("application/octet-stream"@),
        lower_extension_of(p) is None ==> mime_type_of(p) is None,
{
    reveal_strlit("mp3");
    assert(ext_sig("mp3"@) == (3int, 'm', 'p', '3'));
    reveal_strlit("wav");
    assert(ext_sig("wav"@) == (3int, 'w', 'a', 'v'));
    reveal_strlit("ogg");
    assert(ext_sig("ogg"@) == (3int, 'o', 'g', 'g'));
    reveal_strlit("aac");
    assert(ext_sig("aac"@) == (3int, 'a', 'a', 'c'));
    reveal_strlit("m4a");
    assert(ext_sig("m4a"@) == (3int, 'm', '4', 'a'));
    reveal_strlit("mp4");
    assert(ext_sig("mp4"@) == (3int, 'm', 'p', '4'));
    reveal_strlit("m4v");
    assert(ext_sig("m4v"@) == (3int, 'm', '4', 'v'));
    reveal_strlit("webm");
    assert(ext_sig("webm"@) == (4int, 'w', 'e', 'b'));
    reveal_strlit("mov");
    assert(ext_sig("mov"@) == (3int, 'm', 'o', 'v'));
    reveal_strlit("mkv");
    assert(ext_sig("mkv"@) == (3int, 'm', 'k', 'v'));
    reveal_strlit("flac");
    assert(ext_sig("flac"@) == (4int, 'f', 'l', 'a'));
    reveal_strlit("avi");
    assert(ext_sig("avi"@) == (3int, 'a', 'v', 'i'));
    reveal_strlit("wmv");
    assert(ext_sig("wmv"@) == (3int, 'w', 'm', 'v'));
    reveal_strlit("flv");
    assert(ext_sig("flv"@) == (3int, 'f', 'l', 'v'));
    reveal_strlit("mpeg");
    assert(ext_sig("mpeg"@) == (4int, 'm', 'p', 'e'));
    reveal_strlit("mpg");
    assert(ext_sig("mpg"@) == (3int, 'm', 'p', 'g'));
    reveal_strlit("3gp");
    assert(ext_sig("3gp"@) == (3int, '3', 'g', 'p'));
    reveal_strlit("ogv");
    assert(ext_sig("ogv"@) == (3int, 'o', 'g', 'v'));
}


/// The assumed data rate of a video, in bytes per second, by its
/// lower-cased extension (one eighth of the assumed bit rate); 62 500 for
/// any other extension or none.
pub proof fn lemma_bit_rate_table(p: Seq<char>)
    ensures
        lower_extension_of(p) == Some("mp4"@) ==> video_bit_rate(lower_extension_of(p)) / 8 == 62500,
        lower_extension_of(p) == Some("m4v"@) ==> video_bit_rate(lower_extension_of(p)) / 8 == 62500,
        lower_extension_of(p) == Some("mkv"@) ==> video_bit_rate(lower_extension_of(p)) / 8 == 75000,
        lower_extension_of(p) == Some("avi"@) ==> video_bit_rate(lower_extension_of(p)) / 8 == 100000,
        lower_extension_of(p) == Some("mov"@) ==> video_bit_rate(lower_extension_of(p)) / 8 == 87500,
        lower_extension_of(p) == Some("webm"@) ==> video_bit_rate(lower_extension_of(p)) / 8 == 50000,
        lower_extension_of(p) == Some("flv"@) ==> video_bit_rate(lower_extension_of(p)) / 8 == 37500,
        lower_extension_of(p) == Some("wmv"@) ==> video_bit_rate(lower_extension_of(p)) / 8 == 56250,
        lower_extension_of(p) == Some("mpeg"@) ==> video_bit_rate(lower_extension_of(p)) / 8 == 43750,
        lower_extension_of(p) == Some("mpg"@) ==> video_bit_rate(lower_extension_of(p)) / 8 == 43750,
        lower_extension_of(p) == Some("3gp"@) ==> video_bit_rate(lower_extension_of(p)) / 8 == 25000,
        lower_extension_of(p) == Some("ogv"@) ==> video_bit_rate(lower_extension_of(p)) / 8 == 50000,
        (lower_extension_of(p) matches Some(e) && !(e == "mp4"@ || e == "m4v"@ || e == "mkv"@ || e == "avi"@ || e == "mov"@ || e == "webm"@ || e == "flv"@ || e == "wmv"@ || e == "mpeg"@ || e == "mpg"@ || e == "3gp"@ || e == "ogv"@))
            ==> video_bit_rate(lower_extension_of(p)) / 8 == 62500,
        lower_extension_of(p) is None ==> video_bit_rate(lower_extension_of(p)) / 8 == 62500,
{
    reveal_strlit("mp4");
    assert(ext_sig("mp4"@) == (3int, 'm', 'p', '4'));
    reveal_strlit("m4v");
    assert(ext_sig("m4v"@) == (3int, 'm', '4', 'v'));
    reveal_strlit("mkv");
    assert(ext_sig("mkv"@) == (3int, 'm', 'k', 'v'));
    reveal_strlit("avi");
    assert(ext_sig("avi"@) == (3int, 'a', 'v', 'i'));
    reveal_strlit("mov");
    assert(ext_sig("mov"@) == (3int, 'm', 'o', 'v'));
    reveal_strlit("webm");
    assert(ext_sig("webm"@) == (4int, 'w', 'e', 'b'));
    reveal_strlit("flv");
    assert(ext_sig("flv"@) == (3int, 'f', 'l', 'v'));
    reveal_strlit("wmv");
    assert(ext_sig("wmv"@) == (3int, 'w', 'm', 'v'));
    reveal_strlit("mpeg");
    assert(ext_sig("mpeg"@) == (4int, 'm', 'p', 'e'));
    reveal_strlit("mpg");
    assert(ext_sig("mpg"@) == (3int, 'm', 'p', 'g'));
    reveal_strlit("3gp");
    assert(ext_sig("3gp"@) == (3int, '3', 'g', 'p'));
    reveal_strlit("ogv");
    assert(ext_sig("ogv"@) == (3int, 'o', 'g', 'v'));
}

} // verus!
