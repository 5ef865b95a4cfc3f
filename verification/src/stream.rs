//! Request handling of the local audio streaming server: picking the file
//! parameter out of a request target and interpreting `Range` headers.

use vstd::prelude::*;
use vstd::string::StrSliceExecFns;
use vstd::string::StringExecFns;
use crate::text::{
    occurs_at, has_prefix, first_occurrence, parse_u64_spec, find, starts_with,
    substring, parse_u64, decimal, push_decimal, lemma_first_occurrence, lemma_no_occurrence,
    lemma_decimal_digits, lemma_parse_decimal, is_digit,
};
use crate::urlcodec::{
    url_encoded, url_decoded, url_encode, url_decode, all_encoded_chars, is_encoded_char,
    lemma_url_roundtrip,
};
use crate::paths::{get_mime_type, mime_type_of};

verus! {

/// The query marker that introduces the file parameter.
pub open spec fn file_param_marker() -> Seq<char> {
    seq!['?', 'f', 'i', 'l', 'e', '=']
}

/// The unit prefix of a byte `Range` header.
pub open spec fn bytes_unit_prefix() -> Seq<char> {
    seq!['b', 'y', 't', 'e', 's', '=']
}

/// How far an open-ended range (`bytes=N-`) reaches: five mebibytes.
pub open spec fn open_range_span() -> int {
    5242880int
}

/// The file parameter of a request target: the text after the first
/// `?file=` up to the next `&` (or to the end).
pub open spec fn file_param_of(url: Seq<char>) -> Option<Seq<char>> {
    match first_occurrence(url, file_param_marker()) {
        Some(q) => {
            let after = url.skip(q + 6);
            match first_occurrence(after, seq!['&']) {
                Some(a) => Some(after.take(a)),
                None => Some(after),
            }
        },
        None => None,
    }
}

/// The view of an optional string.
pub open spec fn opt_view(o: Option<String>) -> Option<Seq<char>> {
    match o {
        Some(s) => Some(s@),
        None => None,
    }
}

/// Extracts the value of the `file` query parameter from a request target,
/// without decoding it.
pub fn extract_file_param(url: &str) -> (r: Option<String>)
    ensures
        opt_view(r) == file_param_of(url@),
{
    proof {
        reveal_strlit("?file=");
        reveal_strlit("&");
    }
    assert("?file="@ =~= file_param_marker());
    assert("&"@ =~= seq!['&']);
    match find(url, "?file=") {
        None => None,
        Some(q) => {
            let n = url.unicode_len();
            let after = substring(url, q + 6, n);
            assert(after@ =~= url@.skip(q + 6));
            match find(after.as_str(), "&") {
                Some(a) => {
                    let p = substring(after.as_str(), 0, a);
                    assert(p@ =~= after@.take(a as int));
                    Some(p)
                },
                None => Some(after),
            }
        },
    }
}

/// The smaller of two integers.
pub open spec fn min_int(a: int, b: int) -> int {
    if a < b {
        a
    } else {
        b
    }
}

/// The parts of a byte range header: the text before and after its only `-`.
pub open spec fn range_parts(s: Seq<char>) -> Option<(Seq<char>, Seq<char>)> {
    let r = s.skip(6);
    if !has_prefix(s, bytes_unit_prefix()) {
        None
    } else {
        match first_occurrence(r, seq!['-']) {
            None => None,
            Some(k) => {
                let p1 = r.skip(k + 1);
                if first_occurrence(p1, seq!['-']) is Some {
                    None
                } else {
                    Some((r.take(k), p1))
                }
            },
        }
    }
}

/// The first byte a well-formed range header asks for.
pub open spec fn range_start(s: Seq<char>) -> Option<u64> {
    match range_parts(s) {
        Some((p0, _)) => parse_u64_spec(p0),
        None => None,
    }
}

/// Inputs on which the range computation overflows: an open-ended range
/// whose five-mebibyte reach exceeds `u64`, or any open-ended range of an
/// empty file (`file_size - 1` underflows).
pub open spec fn range_overflows(s: Seq<char>, file_size: u64) -> bool {
    match (range_parts(s), range_start(s)) {
        (Some((_, p1)), Some(start)) => p1.len() == 0 && (start + open_range_span() > u64::MAX
            || file_size == 0),
        _ => false,
    }
}

/// The byte range a `Range: bytes=START-END` header selects in a file of
/// `file_size` bytes: a missing END reaches five mebibytes past START; the
/// end is clipped to the last byte; a start past the end or past the file
/// selects nothing.
pub open spec fn range_bounds(s: Seq<char>, file_size: u64) -> Option<(u64, u64)> {
    match (range_parts(s), range_start(s)) {
        (Some((_, p1)), Some(start)) => {
            let end: Option<int> = if p1.len() == 0 {
                Some(min_int(start + open_range_span(), file_size - 1))
            } else {
                match parse_u64_spec(p1) {
                    Some(e) => Some(e as int),
                    None => None,
                }
            };
            match end {
                Some(e) => if start > e || start >= file_size {
                    None
                } else {
                    Some((start, min_int(e, file_size - 1) as u64))
                },
                None => None,
            }
        },
        _ => None,
    }
}

/// Whether a `Range` header value is one on which the range computation
/// overflows (see `range_overflows`); such a header must not be handed to
/// `parse_range_tauri_style`.
pub fn range_request_overflows(range_str: &str, file_size: u64) -> (r: bool)
    ensures
        r == range_overflows(range_str@, file_size),
{
    proof {
        reveal_strlit("bytes=");
        reveal_strlit("-");
    }
    assert("bytes="@ =~= bytes_unit_prefix());
    assert("-"@ =~= seq!['-']);
    if !starts_with(range_str, "bytes=") {
        return false;
    }
    let n = range_str.unicode_len();
    let rest = substring(range_str, 6, n);
    assert(rest@ =~= range_str@.skip(6));
    let k = match find(rest.as_str(), "-") {
        None => {
            return false;
        },
        Some(k) => k,
    };
    let rn = rest.as_str().unicode_len();
    let p0 = substring(rest.as_str(), 0, k);
    let p1 = substring(rest.as_str(), k + 1, rn);
    assert(p0@ =~= rest@.take(k as int));
    assert(p1@ =~= rest@.skip(k + 1));
    if find(p1.as_str(), "-").is_some() {
        return false;
    }
    match parse_u64(p0.as_str()) {
        None => false,
        Some(start) => p1.as_str().unicode_len() == 0 && (start > u64::MAX - 5242880 || file_size == 0),
    }
}

/// A text holds no `-`.
pub open spec fn dash_free(t: Seq<char>) -> bool {
    forall|i: int| 0 <= i < t.len() ==> t[i] != '-'
}

/// A header `bytes=` + digits + `-` + dash-free text splits at that `-`.
proof fn lemma_range_parts(start: u64, tail: Seq<char>)
    requires
        dash_free(tail),
    ensures
        range_parts(bytes_unit_prefix() + decimal(start as nat) + seq!['-'] + tail) == Some(
            (decimal(start as nat), tail),
        ),
        range_start(bytes_unit_prefix() + decimal(start as nat) + seq!['-'] + tail) == Some(start),
{
    let a = decimal(start as nat);
    lemma_decimal_digits(start as nat);
    lemma_parse_decimal(start);
    let s = bytes_unit_prefix() + a + seq!['-'] + tail;
    let r = s.skip(6);
    assert(s.subrange(0, 6) =~= bytes_unit_prefix());
    assert(r =~= a + seq!['-'] + tail);
    let k = a.len() as int;
    assert(r.subrange(k, k + 1) =~= seq!['-']);
    assert forall|j: int| 0 <= j < k implies !occurs_at(r, seq!['-'], j) by {
        assert(r[j] == a[j]);
        assert(is_digit(a[j]));
        if occurs_at(r, seq!['-'], j) {
            assert(r.subrange(j, j + 1)[0] == r[j]);
        }
    }
    lemma_first_occurrence(r, seq!['-'], k);
    assert(r.take(k) =~= a);
    assert(r.skip(k + 1) =~= tail);
    assert forall|j: int| !occurs_at(tail, seq!['-'], j) by {
        if occurs_at(tail, seq!['-'], j) {
            assert(tail.subrange(j, j + 1)[0] == tail[j]);
        }
    }
    lemma_no_occurrence(tail, seq!['-']);
}

/// A closed range `bytes=START-END` whose start lies in the file selects
/// exactly the bytes START to END, the end cut only at the last byte of the
/// file; no five-mebibyte limit applies to it.
pub proof fn lemma_closed_range(start: u64, end: u64, file_size: u64)
    requires
        start <= end,
        start < file_size,
    ensures
        ({
            let h = bytes_unit_prefix() + decimal(start as nat) + seq!['-'] + decimal(end as nat);
            &&& !range_overflows(h, file_size)
            &&& range_bounds(h, file_size) == Some(
                (start, if end < file_size { end } else { (file_size - 1) as u64 }),
            )
        }),
{
    lemma_decimal_digits(end as nat);
    lemma_parse_decimal(end);
    lemma_range_parts(start, decimal(end as nat));
}

/// An open range `bytes=START-` whose start lies in the file selects the
/// bytes from START to five mebibytes past it, cut at the last byte of the
/// file.
pub proof fn lemma_open_range(start: u64, file_size: u64)
    requires
        start < file_size,
        start + 5242880 <= u64::MAX,
    ensures
        ({
            let h = bytes_unit_prefix() + decimal(start as nat) + seq!['-'];
            &&& !range_overflows(h, file_size)
            &&& range_bounds(h, file_size) == Some(
                (start, if start + 5242880 < file_size { (start + 5242880) as u64 } else { (file_size - 1) as u64 }),
            )
        }),
{
    lemma_range_parts(start, Seq::<char>::empty());
    assert(bytes_unit_prefix() + decimal(start as nat) + seq!['-'] + Seq::<char>::empty()
        =~= bytes_unit_prefix() + decimal(start as nat) + seq!['-']);
}

/// Interprets a `Range` header value for a file of `file_size` bytes.
pub fn parse_range_tauri_style(range_str: &str, file_size: u64) -> (r: Option<(u64, u64)>)
    requires
        !range_overflows(range_str@, file_size),
    ensures
        r == range_bounds(range_str@, file_size),
        r matches Some((start, end)) ==> start <= end < file_size,
{
    proof {
        reveal_strlit("bytes=");
        reveal_strlit("-");
    }
    assert("bytes="@ =~= bytes_unit_prefix());
    assert("-"@ =~= seq!['-']);
    if !starts_with(range_str, "bytes=") {
        return None;
    }
    let n = range_str.unicode_len();
    let rest = substring(range_str, 6, n);
    assert(rest@ =~= range_str@.skip(6));
    let k = match find(rest.as_str(), "-") {
        None => {
            return None;
        },
        Some(k) => k,
    };
    let rn = rest.as_str().unicode_len();
    let p0 = substring(rest.as_str(), 0, k);
    let p1 = substring(rest.as_str(), k + 1, rn);
    assert(p0@ =~= rest@.take(k as int));
    assert(p1@ =~= rest@.skip(k + 1));
    if find(p1.as_str(), "-").is_some() {
        return None;
    }
    let start = match parse_u64(p0.as_str()) {
        None => {
            return None;
        },
        Some(v) => v,
    };
    let end: u64 = if p1.as_str().unicode_len() == 0 {
        let default_end = start + 5 * 1024 * 1024;
        let last = file_size - 1;
        if default_end < last {
            default_end
        } else {
            last
        }
    } else {
        match parse_u64(p1.as_str()) {
            None => {
                return None;
            },
            Some(v) => v,
        }
    };
    if start > end || start >= file_size {
        None
    } else {
        let last = file_size - 1;
        Some((start, if end < last { end } else { last }))
    }
}

/// Where a request goes.
pub enum Route {
    /// A CORS preflight (`OPTIONS`) request.
    Preflight,
    /// A request for a file, with the still-encoded `file` parameter.
    ServeFile(String),
    /// A request under `/audio` without a `file` parameter.
    MissingFileParam,
    /// Anything else.
    NotFound,
}

/// The view of a `Route`.
pub enum RouteView {
    Preflight,
    ServeFile(Seq<char>),
    MissingFileParam,
    NotFound,
}

/// The view of a `Route`.
pub open spec fn route_view(r: Route) -> RouteView {
    match r {
        Route::Preflight => RouteView::Preflight,
        Route::ServeFile(p) => RouteView::ServeFile(p@),
        Route::MissingFileParam => RouteView::MissingFileParam,
        Route::NotFound => RouteView::NotFound,
    }
}

/// The path prefix of file requests.
pub open spec fn audio_prefix() -> Seq<char> {
    seq!['/', 'a', 'u', 'd', 'i', 'o']
}

/// Routing of a request by its method and target.
pub open spec fn route_of(is_options: bool, url: Seq<char>) -> RouteView {
    if is_options {
        RouteView::Preflight
    } else if has_prefix(url, audio_prefix()) {
        match file_param_of(url) {
            Some(p) => RouteView::ServeFile(p),
            None => RouteView::MissingFileParam,
        }
    } else {
        RouteView::NotFound
    }
}

/// Decides where a request goes.
pub fn route_request(is_options: bool, url: &str) -> (r: Route)
    ensures
        route_view(r) == route_of(is_options, url@),
{
    proof {
        reveal_strlit("/audio");
    }
    assert("/audio"@ =~= audio_prefix());
    if is_options {
        Route::Preflight
    } else if starts_with(url, "/audio") {
        match extract_file_param(url) {
            Some(p) => Route::ServeFile(p),
            None => Route::MissingFileParam,
        }
    } else {
        Route::NotFound
    }
}

/// One response header.
pub struct HttpHeader {
    pub name: String,
    pub value: String,
}

/// What a response carries.
pub enum ResponseBody {
    /// Nothing.
    Empty,
    /// A short text message.
    Text(String),
    /// The bytes `start..=end` of the requested file.
    FileRange { start: u64, end: u64 },
    /// The whole requested file.
    WholeFile,
}

/// The view of a response body.
pub enum BodyView {
    Empty,
    Text(Seq<char>),
    FileRange { start: u64, end: u64 },
    WholeFile,
}

/// A response to send: status code, body and headers (in order).
pub struct ResponsePlan {
    pub status: u16,
    pub body: ResponseBody,
    pub headers: Vec<HttpHeader>,
}

/// The view of a response body.
pub open spec fn body_view(b: ResponseBody) -> BodyView {
    match b {
        ResponseBody::Empty => BodyView::Empty,
        ResponseBody::Text(t) => BodyView::Text(t@),
        ResponseBody::FileRange { start, end } => BodyView::FileRange { start, end },
        ResponseBody::WholeFile => BodyView::WholeFile,
    }
}

/// The headers as name-value pairs.
pub open spec fn headers_view(hs: Seq<HttpHeader>) -> Seq<(Seq<char>, Seq<char>)> {
    hs.map_values(|h: HttpHeader| (h.name@, h.value@))
}

/// The view of a response plan.
pub open spec fn plan_view(p: ResponsePlan) -> (u16, BodyView, Seq<(Seq<char>, Seq<char>)>) {
    (p.status, body_view(p.body), headers_view(p.headers@))
}

/// The header that lets any origin read the response.
pub open spec fn cors_header() -> (Seq<char>, Seq<char>) {
    ("Access-Control-Allow-Origin"@, "*"@)
}

/// The response lets any origin read it.
pub open spec fn allows_any_origin(p: ResponsePlan) -> bool {
    headers_view(p.headers@).contains(cors_header())
}

fn header(name: &str, value: &str) -> (h: HttpHeader)
    ensures
        h.name@ == name@,
        h.value@ == value@,
{
    HttpHeader { name: name.to_owned(), value: value.to_owned() }
}

/// The answer to a CORS preflight request: `200`, no body, any origin,
/// `GET` and `OPTIONS`, any header.
pub open spec fn preflight_plan() -> (u16, BodyView, Seq<(Seq<char>, Seq<char>)>) {
    (200u16, BodyView::Empty, seq![
        cors_header(),
        ("Access-Control-Allow-Methods"@, "GET, OPTIONS"@),
        ("Access-Control-Allow-Headers"@, "*"@),
    ])
}

/// The answer to a CORS preflight request.
pub fn preflight_response() -> (r: ResponsePlan)
    ensures
        plan_view(r) == preflight_plan(),
        allows_any_origin(r),
{
    let mut headers: Vec<HttpHeader> = Vec::new();
    headers.push(header("Access-Control-Allow-Origin", "*"));
    headers.push(header("Access-Control-Allow-Methods", "GET, OPTIONS"));
    headers.push(header("Access-Control-Allow-Headers", "*"));
    let r = ResponsePlan { status: 200, body: ResponseBody::Empty, headers };
    assert(headers_view(r.headers@) =~= seq![
        cors_header(),
        ("Access-Control-Allow-Methods"@, "GET, OPTIONS"@),
        ("Access-Control-Allow-Headers"@, "*"@),
    ]);
    assert(headers_view(r.headers@)[0] == cors_header());
    r
}

/// A text response with the given status.
pub fn text_response(status: u16, message: &str) -> (r: ResponsePlan)
    ensures
        plan_view(r) == (status, BodyView::Text(message@), seq![cors_header()]),
        allows_any_origin(r),
{
    let mut headers: Vec<HttpHeader> = Vec::new();
    headers.push(header("Access-Control-Allow-Origin", "*"));
    let r = ResponsePlan { status, body: ResponseBody::Text(message.to_owned()), headers };
    assert(headers_view(r.headers@) =~= seq![cors_header()]);
    assert(headers_view(r.headers@)[0] == cors_header());
    r
}

/// The response to a request that does not ask for a file.
pub fn route_response(route: &Route) -> (r: Option<ResponsePlan>)
    ensures
        match route_view(*route) {
            RouteView::Preflight => r matches Some(p) && plan_view(p) == preflight_plan(),
            RouteView::MissingFileParam => r matches Some(p) && plan_view(p) == (400u16, BodyView::Text(
                "Missing file param"@), seq![cors_header()]),
            RouteView::NotFound => r matches Some(p) && plan_view(p) == (404u16, BodyView::Text(
                "Not Found"@), seq![cors_header()]),
            RouteView::ServeFile(_) => r is None,
        },
        r matches Some(p) ==> allows_any_origin(p),
{
    match route {
        Route::Preflight => Some(preflight_response()),
        Route::MissingFileParam => Some(text_response(400, "Missing file param")),
        Route::NotFound => Some(text_response(404, "Not Found")),
        Route::ServeFile(_) => None,
    }
}

/// Ways serving a file can fail.
pub enum ServeFailure {
    /// The `file` parameter does not decode to UTF-8 text.
    BadEncoding,
    /// No file at the decoded path.
    FileMissing,
    /// The file's size could not be read.
    NoMetadata,
    /// The file could not be opened.
    OpenFailed,
    /// Seeking to the start of the range failed.
    SeekFailed,
    /// Reading the range failed.
    ReadRangeFailed,
    /// Reading the whole file failed.
    ReadFailed,
}

/// Status and message for each failure.
pub open spec fn failure_status(f: ServeFailure) -> (u16, Seq<char>) {
    match f {
        ServeFailure::BadEncoding => (400u16, "Invalid file path encoding"@),
        ServeFailure::FileMissing => (404u16, "File not found"@),
        ServeFailure::NoMetadata => (500u16, "Error getting file metadata"@),
        ServeFailure::OpenFailed => (500u16, "Error opening file"@),
        ServeFailure::SeekFailed => (500u16, "Error seeking file"@),
        ServeFailure::ReadRangeFailed => (500u16, "Error reading file range"@),
        ServeFailure::ReadFailed => (500u16, "Error reading file"@),
    }
}

/// The response to a failure while serving a file.
pub fn failure_response(f: ServeFailure) -> (r: ResponsePlan)
    ensures
        plan_view(r) == (failure_status(f).0, BodyView::Text(failure_status(f).1), seq![cors_header()]),
        allows_any_origin(r),
{
    match f {
        ServeFailure::BadEncoding => text_response(400, "Invalid file path encoding"),
        ServeFailure::FileMissing => text_response(404, "File not found"),
        ServeFailure::NoMetadata => text_response(500, "Error getting file metadata"),
        ServeFailure::OpenFailed => text_response(500, "Error opening file"),
        ServeFailure::SeekFailed => text_response(500, "Error seeking file"),
        ServeFailure::ReadRangeFailed => text_response(500, "Error reading file range"),
        ServeFailure::ReadFailed => text_response(500, "Error reading file"),
    }
}

/// Decodes the `file` parameter into a file path.
pub fn decode_file_param(encoded: &str) -> (r: Result<String, ServeFailure>)
    ensures
        match r {
            Ok(p) => url_decoded(encoded@) == Some(p@),
            Err(e) => url_decoded(encoded@) is None && e == ServeFailure::BadEncoding,
        },
{
    match url_decode(encoded) {
        Ok(p) => Ok(p),
        Err(_) => Err(ServeFailure::BadEncoding),
    }
}

/// The MIME type sent for a file: by extension, else generic binary data.
pub open spec fn serving_mime_of(path: Seq<char>) -> Seq<char> {
    match mime_type_of(path) {
        Some(m) => m,
        None => "application/octet-stream"@,
    }
}

/// The MIME type sent for a file.
pub fn serving_mime_type(path: &str) -> (r: &'static str)
    ensures
        r@ == serving_mime_of(path@),
{
    match get_mime_type(path) {
        Some(m) => m,
        None => "application/octet-stream",
    }
}

/// How a file request is answered, once the file's size is known.
pub enum FilePlan {
    /// Send the bytes `start..=end`.
    Partial { start: u64, end: u64 },
    /// The range header selects nothing.
    Unsatisfiable,
    /// No range header: send the whole file.
    Whole,
}

/// The plan for a file of `file_size` bytes and an optional `Range` header.
pub open spec fn file_plan_of(range: Option<Seq<char>>, file_size: u64) -> FilePlan {
    match range {
        Some(h) => match range_bounds(h, file_size) {
            Some((start, end)) => FilePlan::Partial { start, end },
            None => FilePlan::Unsatisfiable,
        },
        None => FilePlan::Whole,
    }
}

/// The view of an optional header value.
pub open spec fn opt_str_view(o: Option<&str>) -> Option<Seq<char>> {
    match o {
        Some(s) => Some(s@),
        None => None,
    }
}

/// Decides how a file request is answered.
pub fn plan_file_response(range: Option<&str>, file_size: u64) -> (r: FilePlan)
    requires
        range matches Some(h) ==> !range_overflows(h@, file_size),
    ensures
        r == file_plan_of(opt_str_view(range), file_size),
        r matches FilePlan::Partial { start, end } ==> start <= end < file_size,
{
    match range {
        Some(h) => match parse_range_tauri_style(h, file_size) {
            Some((start, end)) => FilePlan::Partial { start, end },
            None => FilePlan::Unsatisfiable,
        },
        None => FilePlan::Whole,
    }
}

/// The `Content-Range` value for bytes `start..=end` of `size`.
pub open spec fn content_range(start: u64, end: u64, size: u64) -> Seq<char> {
    "bytes "@ + decimal(start as nat) + "-"@ + decimal(end as nat) + "/"@ + decimal(size as nat)
}

/// The `206 Partial Content` response for bytes `start..=end` of a file.
pub open spec fn partial_plan(start: u64, end: u64, size: u64, mime: Seq<char>) -> (
    u16,
    BodyView,
    Seq<(Seq<char>, Seq<char>)>,
) {
    (206u16, BodyView::FileRange { start, end }, seq![
        ("Content-Range"@, content_range(start, end, size)),
        ("Accept-Ranges"@, "bytes"@),
        ("Content-Type"@, mime),
        cors_header(),
    ])
}

/// The `200 OK` response carrying a whole file.
pub open spec fn whole_file_plan(mime: Seq<char>) -> (u16, BodyView, Seq<(Seq<char>, Seq<char>)>) {
    (200u16, BodyView::WholeFile, seq![("Content-Type"@, mime), cors_header(), ("Accept-Ranges"@, "bytes"@)])
}

/// The `206 Partial Content` response for bytes `start..=end` of a file.
pub fn partial_response(start: u64, end: u64, file_size: u64, mime: &str) -> (r: ResponsePlan)
    ensures
        plan_view(r) == partial_plan(start, end, file_size, mime@),
        allows_any_origin(r),
{
    let mut range_value = "bytes ".to_owned();
    push_decimal(&mut range_value, start);
    range_value.append("-");
    push_decimal(&mut range_value, end);
    range_value.append("/");
    push_decimal(&mut range_value, file_size);
    let mut headers: Vec<HttpHeader> = Vec::new();
    headers.push(HttpHeader { name: "Content-Range".to_owned(), value: range_value });
    headers.push(header("Accept-Ranges", "bytes"));
    headers.push(header("Content-Type", mime));
    headers.push(header("Access-Control-Allow-Origin", "*"));
    let r = ResponsePlan { status: 206, body: ResponseBody::FileRange { start, end }, headers };
    let ghost expected = seq![
        ("Content-Range"@, content_range(start, end, file_size)),
        ("Accept-Ranges"@, "bytes"@),
        ("Content-Type"@, mime@),
        cors_header(),
    ];
    assert(headers_view(r.headers@) =~= expected);
    assert(headers_view(r.headers@)[3] == cors_header());
    r
}

/// The `200 OK` response carrying a whole file.
pub fn whole_file_response(mime: &str) -> (r: ResponsePlan)
    ensures
        plan_view(r) == whole_file_plan(mime@),
        allows_any_origin(r),
{
    let mut headers: Vec<HttpHeader> = Vec::new();
    headers.push(header("Content-Type", mime));
    headers.push(header("Access-Control-Allow-Origin", "*"));
    headers.push(header("Accept-Ranges", "bytes"));
    let r = ResponsePlan { status: 200, body: ResponseBody::WholeFile, headers };
    assert(headers_view(r.headers@) =~= seq![
        ("Content-Type"@, mime@),
        cors_header(),
        ("Accept-Ranges"@, "bytes"@),
    ]);
    assert(headers_view(r.headers@)[1] == cors_header());
    r
}

/// The response for a file request once the plan is made and, for a
/// partial answer, the range was read: `416` for an unsatisfiable range.
pub fn file_plan_response(plan: FilePlan, file_size: u64, mime: &str) -> (r: ResponsePlan)
    ensures
        match plan {
            FilePlan::Partial { start, end } => plan_view(r) == partial_plan(start, end, file_size, mime@),
            FilePlan::Unsatisfiable => plan_view(r) == (416u16, BodyView::Text(
                "Range Not Satisfiable"@), seq![cors_header()]),
            FilePlan::Whole => plan_view(r) == whole_file_plan(mime@),
        },
        allows_any_origin(r),
{
    match plan {
        FilePlan::Partial { start, end } => partial_response(start, end, file_size, mime),
        FilePlan::Unsatisfiable => text_response(416, "Range Not Satisfiable"),
        FilePlan::Whole => whole_file_response(mime),
    }
}

/// Origin of the local streaming server on `port`.
pub open spec fn stream_origin(port: u16) -> Seq<char> {
    "http://127.0.0.1:"@ + decimal(port as nat)
}

/// The query that asks for a file, before the encoded path.
pub open spec fn file_query_prefix() -> Seq<char> {
    audio_prefix() + file_param_marker()
}

/// The request target naming a file.
pub open spec fn stream_target(path: Seq<char>) -> Seq<char> {
    file_query_prefix() + url_encoded(path)
}

/// The URL under which the streaming server serves a file.
pub fn stream_url(port: u16, file_path: &str) -> (r: String)
    ensures
        r@ == stream_origin(port) + stream_target(file_path@),
{
    proof {
        reveal_strlit("/audio?file=");
    }
    let mut url = "http://127.0.0.1:".to_owned();
    push_decimal(&mut url, port as u64);
    url.append("/audio?file=");
    let encoded = url_encode(file_path);
    url.append(encoded.as_str());
    assert("/audio?file="@ =~= file_query_prefix());
    assert(url@ =~= stream_origin(port) + stream_target(file_path@));
    url
}

/// The file marker first occurs right after `/audio` in a file query.
proof fn lemma_marker_after_prefix(enc: Seq<char>)
    ensures
        first_occurrence(file_query_prefix() + enc, file_param_marker()) == Some(6int),
        has_prefix(file_query_prefix() + enc, audio_prefix()),
        (file_query_prefix() + enc).skip(12) == enc,
{
    let t = file_query_prefix() + enc;
    assert(t.subrange(0, 6) =~= audio_prefix());
    assert(t.subrange(6, 12) =~= file_param_marker());
    assert forall|j: int| 0 <= j < 6 implies !occurs_at(t, file_param_marker(), j) by {
        assert(t[j] != '?');
        if occurs_at(t, file_param_marker(), j) {
            assert(t.subrange(j, j + 6)[0] == t[j]);
        }
    }
    lemma_first_occurrence(t, file_param_marker(), 6);
    assert(t.skip(12) =~= enc);
}

/// Percent-encoded text holds no `&`.
proof fn lemma_no_ampersand(enc: Seq<char>)
    requires
        all_encoded_chars(enc),
    ensures
        first_occurrence(enc, seq!['&']) is None,
{
    assert forall|j: int| !occurs_at(enc, seq!['&'], j) by {
        if occurs_at(enc, seq!['&'], j) {
            assert(enc.subrange(j, j + 1)[0] == enc[j]);
            assert(is_encoded_char(enc[j]));
        }
    }
    lemma_no_occurrence(enc, seq!['&']);
}

/// A URL built for a file leads back to that file: its request target is
/// routed as a request for a file, and the `file` parameter decodes to
/// exactly the path the URL was built from.
pub proof fn lemma_stream_url_resolves(path: Seq<char>)
    ensures
        route_of(false, stream_target(path)) == RouteView::ServeFile(url_encoded(path)),
        url_decoded(url_encoded(path)) == Some(path),
{
    lemma_url_roundtrip(path);
    let enc = url_encoded(path);
    lemma_marker_after_prefix(enc);
    lemma_no_ampersand(enc);
}

} // verus!
