//! Serving a video file, whole or in part.

use crate::config::Config;
use crate::encoding;
use crate::error;
use crate::error::AppError;
use crate::paths;
use crate::paths::MediaPath;
use crate::routes::stream;
use crate::text;
use std::sync::Arc;
use vstd::prelude::*;
use vstd::utf8;

verus! {

/// What videos are served with.
#[derive(Clone)]
pub struct StreamerState {
    pub config: Arc<Config>,
}

/// A header of a response.
#[derive(Debug, PartialEq, Eq)]
pub struct Header {
    pub name: String,
    pub value: String,
}

/// A part of a file: `length` bytes from `start`.
#[derive(Debug, Clone, Copy, PartialEq, Eq)]
pub struct Span {
    pub start: u64,
    pub length: u64,
}

/// The response to a request for a video: the status, the headers, and the part of the file
/// that makes the body, or none for the whole file.
#[derive(Debug, PartialEq, Eq)]
pub struct VideoResponse {
    pub status: u16,
    pub headers: Vec<Header>,
    pub span: Option<Span>,
}

/// The content of a [`VideoResponse`].
pub ghost struct VideoView {
    pub status: u16,
    pub headers: Seq<(Seq<char>, Seq<char>)>,
    pub span: Option<Span>,
}

impl View for Header {
    type V = (Seq<char>, Seq<char>);

    open spec fn view(&self) -> (Seq<char>, Seq<char>) {
        (self.name@, self.value@)
    }
}

impl View for VideoResponse {
    type V = VideoView;

    open spec fn view(&self) -> VideoView {
        VideoView {
            status: self.status,
            headers: self.headers@.map_values(|h: Header| h@),
            span: self.span,
        }
    }
}

/// Whether a text is the encoding of some bytes.
pub open spec fn is_base64(encoded: Seq<char>) -> bool {
    exists|bytes: Seq<u8>| #[trigger] encoding::base64(bytes) == encoded
}

/// The bytes that a text encodes.
pub open spec fn base64_bytes(encoded: Seq<char>) -> Seq<u8> {
    choose|bytes: Seq<u8>| #[trigger] encoding::base64(bytes) == encoded
}

/// The path text that the `path` parameter stands for, or the reason why it is refused.
pub open spec fn requested_path(parameter: Option<Seq<char>>) -> Result<Seq<char>, Seq<char>> {
    match parameter {
        None => Err("Missing path parameter"@),
        Some(encoded) => if !is_base64(encoded) {
            Err("Invalid base64 encoding"@)
        } else if !utf8::valid_utf8(base64_bytes(encoded)) {
            Err("Invalid UTF-8 in path"@)
        } else {
            Ok(utf8::decode_utf8(base64_bytes(encoded)))
        },
    }
}

/// The headers that let any page fetch the video in parts.
pub open spec fn sharing_headers() -> Seq<(Seq<char>, Seq<char>)> {
    seq![
        ("accept-ranges"@, "bytes"@),
        ("access-control-allow-origin"@, "*"@),
        ("access-control-allow-methods"@, "GET, HEAD, OPTIONS"@),
        ("access-control-allow-headers"@, "Range"@),
        ("access-control-expose-headers"@, "Content-Length, Content-Range, Accept-Ranges"@),
    ]
}

/// The response that holds the whole file.
pub open spec fn whole(mime_type: Seq<char>, file_size: u64) -> VideoView {
    VideoView {
        status: 200,
        headers: seq![
            ("content-type"@, mime_type),
            ("content-length"@, text::decimal(file_size as nat)),
        ] + sharing_headers(),
        span: None,
    }
}

/// What the `content-range` header says of the bytes from `start` to `end`.
pub open spec fn content_range(start: u64, end: u64, file_size: u64) -> Seq<char> {
    "bytes "@ + text::decimal(start as nat) + "-"@ + text::decimal(end as nat) + "/"@
        + text::decimal(file_size as nat)
}

/// The response that holds the bytes from `start` to `end`, both included.
pub open spec fn part(mime_type: Seq<char>, file_size: u64, start: u64, end: u64) -> VideoView {
    let length = end - start + 1;
    VideoView {
        status: 206,
        headers: seq![
            ("content-type"@, mime_type),
            ("content-length"@, text::decimal(length as nat)),
            ("content-range"@, content_range(start, end, file_size)),
        ] + sharing_headers(),
        span: Some(Span { start, length: length as u64 }),
    }
}

/// The text of the extension that a path is judged by: empty where there is none.
pub open spec fn judged_extension(path: Seq<u8>) -> Seq<char> {
    match paths::utf8_text(paths::extension(path)) {
        Some(ext) => ext,
        None => Seq::empty(),
    }
}

/// The parameter that a stream link carries for a text is read back as that text.
pub proof fn law_link_is_read_back(path_text: Seq<char>)
    ensures
        requested_path(Some(stream::path_parameter(path_text))) == Ok::<Seq<char>, Seq<char>>(
            path_text,
        ),
{
    broadcast use {utf8::encode_utf8_valid_utf8, utf8::encode_utf8_decode_utf8};

    let bytes = utf8::encode_utf8(path_text);
    let encoded = encoding::base64(bytes);
    assert(is_base64(encoded));
    encoding::law_base64_injective(bytes, base64_bytes(encoded));
}

/// The link to a file whose path is valid UTF-8 leads back to exactly that path.
pub proof fn law_link_leads_to_its_file(path: Seq<u8>)
    requires
        utf8::valid_utf8(path),
    ensures
        requested_path(Some(stream::path_parameter(utf8::decode_utf8(path)))) matches Ok(text)
            && utf8::encode_utf8(text) == path,
{
    broadcast use utf8::decode_utf8_encode_utf8;

    law_link_is_read_back(utf8::decode_utf8(path));
}

/// The part of a file that answers a range within the file lies within the file, and its length
/// is what the range asks for.
pub proof fn law_part_lies_in_file(mime_type: Seq<char>, file_size: u64, start: u64, end: u64)
    requires
        start <= end < file_size,
    ensures
        part(mime_type, file_size, start, end).span matches Some(span) && span.start == start
            && span.length == end - start + 1 && span.start + span.length <= file_size,
{
}

/// A parameter is refused where it is missing, where it encodes nothing, and where it encodes
/// bytes that are no text; each for its own reason.
pub proof fn law_refused_parameters(encoded: Seq<char>, bytes: Seq<u8>)
    ensures
        requested_path(None) == Err::<Seq<char>, Seq<char>>("Missing path parameter"@),
        (forall|b: Seq<u8>| #[trigger] encoding::base64(b) != encoded) ==> requested_path(
            Some(encoded),
        ) == Err::<Seq<char>, Seq<char>>("Invalid base64 encoding"@),
        !utf8::valid_utf8(bytes) ==> requested_path(Some(encoding::base64(bytes))) == Err::<
            Seq<char>,
            Seq<char>,
        >("Invalid UTF-8 in path"@),
{
    let own = encoding::base64(bytes);
    assert(is_base64(own));
    encoding::law_base64_injective(bytes, base64_bytes(own));
}

/// Different texts are never read from the same parameter, and what is read is what the
/// parameter encodes.
pub proof fn law_read_path_is_what_was_encoded(encoded: Seq<char>)
    ensures
        requested_path(Some(encoded)) matches Ok(path_text) ==> encoding::base64(
            utf8::encode_utf8(path_text),
        ) == encoded,
{
    broadcast use utf8::decode_utf8_encode_utf8;

}

proof fn lemma_header_names()
    ensures
        "content-length"@ != "content-type"@,
        "content-length"@ != "content-range"@,
        "content-length"@ != "accept-ranges"@,
        "content-length"@ != "access-control-allow-origin"@,
        "content-length"@ != "access-control-allow-methods"@,
        "content-length"@ != "access-control-allow-headers"@,
        "content-length"@ != "access-control-expose-headers"@,
        "content-type"@ != "content-range"@,
        "content-type"@ != "accept-ranges"@,
        "content-type"@ != "access-control-allow-origin"@,
        "content-type"@ != "access-control-allow-methods"@,
        "content-type"@ != "access-control-allow-headers"@,
        "content-type"@ != "access-control-expose-headers"@,
        "content-range"@ != "accept-ranges"@,
        "content-range"@ != "access-control-allow-origin"@,
        "content-range"@ != "access-control-allow-methods"@,
        "content-range"@ != "access-control-allow-headers"@,
        "content-range"@ != "access-control-expose-headers"@,
        "accept-ranges"@ != "access-control-allow-origin"@,
        "accept-ranges"@ != "access-control-allow-methods"@,
        "accept-ranges"@ != "access-control-allow-headers"@,
        "accept-ranges"@ != "access-control-expose-headers"@,
        "access-control-allow-origin"@ != "access-control-allow-methods"@,
        "access-control-allow-origin"@ != "access-control-allow-headers"@,
        "access-control-allow-origin"@ != "access-control-expose-headers"@,
        "access-control-allow-methods"@ != "access-control-allow-headers"@,
        "access-control-allow-methods"@ != "access-control-expose-headers"@,
        "access-control-allow-headers"@ != "access-control-expose-headers"@,
{
    reveal_strlit("content-length");
    reveal_strlit("content-type");
    reveal_strlit("content-range");
    reveal_strlit("accept-ranges");
    reveal_strlit("access-control-allow-origin");
    reveal_strlit("access-control-allow-methods");
    reveal_strlit("access-control-allow-headers");
    reveal_strlit("access-control-expose-headers");
    assert("content-length"@.len() == 14);
    assert("content-type"@.len() == 12);
    assert("content-range"@.len() == 13);
    assert("accept-ranges"@.len() == 13);
    assert("access-control-allow-origin"@.len() == 27);
    assert("access-control-allow-methods"@.len() == 28);
    assert("access-control-allow-headers"@.len() == 28);
    assert("access-control-expose-headers"@.len() == 29);
    assert("content-range"@[0] != "accept-ranges"@[0]);
    assert("access-control-allow-methods"@[21] != "access-control-allow-headers"@[21]);
}

/// A partial response says 206. Its content length, read as a number, is the length of the span
/// that makes the body, from the first to the last byte asked for; its content range names both
/// of these and the size of the file.
pub proof fn law_partial_response(
    mime_type: Seq<char>,
    file_size: u64,
    start: u64,
    end: u64,
    name: Seq<char>,
    value: Seq<char>,
)
    requires
        start <= end,
        end - start < u64::MAX,
    ensures
        ({
            let response = part(mime_type, file_size, start, end);
            let sent = response.headers.contains((name, value));
            &&& response.status == 206
            &&& response.span matches Some(span) && span.start == start && span.start + span.length
                == end + 1
            &&& name == "content-length"@ ==> (sent <==> value == text::decimal(
                (end - start + 1) as nat,
            ))
            &&& name == "content-length"@ && sent ==> text::all_digits(value)
                && text::digits_value(value) == response.span->0.length
            &&& name == "content-type"@ ==> (sent <==> value == mime_type)
            &&& name == "content-range"@ ==> (sent <==> value == "bytes "@ + text::decimal(
                start as nat,
            ) + "-"@ + text::decimal(end as nat) + "/"@ + text::decimal(file_size as nat))
            &&& name != "content-length"@ && name != "content-range"@ ==> (sent <==> whole(
                mime_type,
                file_size,
            ).headers.contains((name, value)))
        }),
{
    lemma_header_names();
    text::lemma_decimal_value((end - start + 1) as nat);
    let all = part(mime_type, file_size, start, end).headers;
    assert(all.len() == 8);
    assert(all[0] == ("content-type"@, mime_type));
    assert(all[1] == ("content-length"@, text::decimal((end - start + 1) as nat)));
    assert(all[2].0 == "content-range"@);
    assert(all[3] == sharing_headers()[0]);
    assert(all[4] == sharing_headers()[1]);
    assert(all[5] == sharing_headers()[2]);
    assert(all[6] == sharing_headers()[3]);
    assert(all[7] == sharing_headers()[4]);
    let full = whole(mime_type, file_size).headers;
    assert(full.len() == 7);
    assert(full[0] == all[0]);
    assert(full[1].0 == "content-length"@);
    assert(full[2] == all[3]);
    assert(full[3] == all[4]);
    assert(full[4] == all[5]);
    assert(full[5] == all[6]);
    assert(full[6] == all[7]);
}

/// A full response says 200 and sends the whole file: its content length, read as a number, is
/// the size of the file, and it has no content range.
pub proof fn law_full_response(
    mime_type: Seq<char>,
    file_size: u64,
    name: Seq<char>,
    value: Seq<char>,
)
    ensures
        ({
            let response = whole(mime_type, file_size);
            let sent = response.headers.contains((name, value));
            &&& response.status == 200
            &&& response.span is None
            &&& name == "content-length"@ ==> (sent <==> value == text::decimal(file_size as nat))
            &&& name == "content-length"@ && sent ==> text::all_digits(value)
                && text::digits_value(value) == file_size
            &&& name == "content-type"@ ==> (sent <==> value == mime_type)
            &&& name == "content-range"@ ==> !sent
            &&& name == "accept-ranges"@ ==> (sent <==> value == "bytes"@)
            &&& name == "access-control-allow-origin"@ ==> (sent <==> value == "*"@)
            &&& name == "access-control-allow-methods"@ ==> (sent <==> value
                == "GET, HEAD, OPTIONS"@)
            &&& name == "access-control-allow-headers"@ ==> (sent <==> value == "Range"@)
            &&& name == "access-control-expose-headers"@ ==> (sent <==> value
                == "Content-Length, Content-Range, Accept-Ranges"@)
            &&& response.headers.len() == 7
        }),
{
    lemma_header_names();
    text::lemma_decimal_value(file_size as nat);
    let all = whole(mime_type, file_size).headers;
    assert(all.len() == 7);
    assert(all[0] == ("content-type"@, mime_type));
    assert(all[1] == ("content-length"@, text::decimal(file_size as nat)));
    assert(all[2] == sharing_headers()[0]);
    assert(all[3] == sharing_headers()[1]);
    assert(all[4] == sharing_headers()[2]);
    assert(all[5] == sharing_headers()[3]);
    assert(all[6] == sharing_headers()[4]);
}

/// No response names a header twice.
pub proof fn law_headers_are_named_once(
    mime_type: Seq<char>,
    file_size: u64,
    start: u64,
    end: u64,
    i: int,
    j: int,
)
    requires
        0 <= i < j,
    ensures
        j < whole(mime_type, file_size).headers.len() ==> whole(mime_type, file_size).headers[i].0
            != whole(mime_type, file_size).headers[j].0,
        j < part(mime_type, file_size, start, end).headers.len() ==> part(
            mime_type,
            file_size,
            start,
            end,
        ).headers[i].0 != part(mime_type, file_size, start, end).headers[j].0,
{
    lemma_header_names();
}

/// Two parts of which the second starts behind the last byte of the first leave no byte out
/// between them, and send none twice.
pub proof fn law_consecutive_parts_meet(
    mime_type: Seq<char>,
    file_size: u64,
    start: u64,
    middle: u64,
    end: u64,
)
    requires
        start <= middle < end < file_size,
    ensures
        ({
            let first = part(mime_type, file_size, start, middle).span->0;
            let second = part(mime_type, file_size, (middle + 1) as u64, end).span->0;
            let both = part(mime_type, file_size, start, end).span->0;
            &&& first.start == both.start
            &&& second.start == first.start + first.length
            &&& both.length == first.length + second.length
        }),
{
}

/// The content of a response is its status, its span, and the name and value of each header.
pub proof fn law_response_content(response: VideoResponse)
    ensures
        response@.status == response.status,
        response@.span == response.span,
        response@.headers.len() == response.headers@.len(),
        forall|i: int|
            0 <= i < response.headers@.len() ==> #[trigger] response@.headers[i] == (
                response.headers@[i].name@,
                response.headers@[i].value@,
            ),
{
}

/// The extension that a path is judged by is its own.
pub proof fn law_judged_extension(path: Seq<u8>)
    ensures
        match paths::utf8_text(paths::extension(path)) {
            Some(ext) => judged_extension(path) == ext,
            None => judged_extension(path).len() == 0,
        },
{
}

/// Reads the `path` parameter.
pub fn decode_path(parameter: Option<&str>) -> (res: Result<String, AppError>)
    ensures
        match (requested_path(match parameter { Some(p) => Some(p@), None => None }), res) {
            (Ok(path), Ok(text)) => text@ == path,
            (Err(reason), Err(e)) => e.reason() == reason,
            _ => false,
        },
{
    let encoded_path = match parameter {
        Some(encoded_path) => encoded_path,
        None => {
            return Err(error::invalid_path("Missing path parameter"));
        },
    };
    let path_bytes = match encoding::base64_decode(encoded_path) {
        Ok(path_bytes) => path_bytes,
        Err(_) => {
            return Err(error::invalid_path("Invalid base64 encoding"));
        },
    };
    proof {
        encoding::law_base64_injective(path_bytes@, base64_bytes(encoded_path@));
    }
    match String::from_utf8(path_bytes) {
        Ok(path) => Ok(path),
        Err(_) => Err(error::invalid_path("Invalid UTF-8 in path")),
    }
}

/// Accepts a path if it and the media directory could be resolved; the errors say why not.
pub fn validate_path(
    resolved: Result<MediaPath, String>,
    resolved_media: Result<MediaPath, String>,
) -> (res: Result<MediaPath, AppError>)
    ensures
        match (resolved, resolved_media) {
            (Err(e), _) => res matches Err(refusal) && refusal.reason() == "Cannot resolve path: "@
                + e@,
            (Ok(_), Err(e)) => res matches Err(refusal) && refusal.reason()
                == "Cannot resolve media path: "@ + e@,
            (Ok(path), Ok(_)) => res == Ok::<MediaPath, AppError>(path),
        },
{
    let path = match resolved {
        Ok(path) => path,
        Err(e) => {
            let mut reason = "Cannot resolve path: ".to_owned();
            reason.append(e.as_str());
            return Err(AppError::InvalidPath(reason));
        },
    };
    match resolved_media {
        Ok(_) => Ok(path),
        Err(e) => {
            let mut reason = "Cannot resolve media path: ".to_owned();
            reason.append(e.as_str());
            Err(AppError::InvalidPath(reason))
        },
    }
}

/// The media type of the file at a path, judged by its extension.
pub fn mime_type(path: &MediaPath) -> (res: String)
    ensures
        res@ == encoding::media_type(judged_extension(path@)),
        judged_extension(path@).len() == 0 ==> res@ == "application/octet-stream"@,
        match paths::utf8_text(paths::extension(path@)) {
            Some(ext) => res@ == encoding::media_type(ext),
            None => res@ == "application/octet-stream"@,
        },
{
    match path.extension() {
        Some(ext) => encoding::guess_media_type(ext.as_str()),
        None => encoding::guess_media_type(String::new().as_str()),
    }
}

fn header(name: &str, value: String) -> (res: Header)
    ensures
        res@ == (name@, value@),
{
    Header { name: name.to_owned(), value }
}

/// Adds the headers that let any page fetch the video in parts.
fn add_sharing_headers(headers: &mut Vec<Header>)
    ensures
        final(headers)@.map_values(|h: Header| h@) == old(headers)@.map_values(|h: Header| h@)
            + sharing_headers(),
{
    let ghost before = headers@;
    headers.push(header("accept-ranges", "bytes".to_owned()));
    headers.push(header("access-control-allow-origin", "*".to_owned()));
    headers.push(header("access-control-allow-methods", "GET, HEAD, OPTIONS".to_owned()));
    headers.push(header("access-control-allow-headers", "Range".to_owned()));
    headers.push(
        header(
            "access-control-expose-headers",
            "Content-Length, Content-Range, Accept-Ranges".to_owned(),
        ),
    );
    assert(headers@.map_values(|h: Header| h@) =~= before.map_values(|h: Header| h@)
        + sharing_headers());
}

/// The response that holds the whole file.
pub fn full_response(mime_type: String, file_size: u64) -> (res: VideoResponse)
    ensures
        res@ == whole(mime_type@, file_size),
{
    let mut headers: Vec<Header> = Vec::new();
    headers.push(header("content-type", mime_type));
    headers.push(header("content-length", text::decimal_text(file_size)));
    assert(headers@.map_values(|h: Header| h@) =~= seq![
        ("content-type"@, mime_type@),
        ("content-length"@, text::decimal(file_size as nat)),
    ]);
    add_sharing_headers(&mut headers);
    VideoResponse { status: 200, headers, span: None }
}

/// The response that holds the bytes from `start` to `end`, both included.
pub fn partial_response(mime_type: String, file_size: u64, start: u64, end: u64) -> (res:
    VideoResponse)
    requires
        start <= end,
        end - start < u64::MAX,
    ensures
        res@ == part(mime_type@, file_size, start, end),
{
    let content_length: u64 = end - start + 1;
    let mut range = "bytes ".to_owned();
    range.append(text::decimal_text(start).as_str());
    range.append("-");
    range.append(text::decimal_text(end).as_str());
    range.append("/");
    range.append(text::decimal_text(file_size).as_str());
    let mut headers: Vec<Header> = Vec::new();
    headers.push(header("content-type", mime_type));
    headers.push(header("content-length", text::decimal_text(content_length)));
    headers.push(header("content-range", range));
    assert(headers@.map_values(|h: Header| h@) =~= seq![
        ("content-type"@, mime_type@),
        ("content-length"@, text::decimal((end - start + 1) as nat)),
        ("content-range"@, content_range(start, end, file_size)),
    ]);
    add_sharing_headers(&mut headers);
    VideoResponse {
        status: 206,
        headers,
        span: Some(Span { start, length: content_length }),
    }
}

/// Answers a request for a video. The range header is missing, not readable as text, or a text
/// that `parse_range_header` turns into the first and last byte asked for.
pub fn video_inner<P: Fn(&str, u64) -> Result<(u64, u64), AppError>>(
    mime_type: String,
    file_size: u64,
    range_header: Option<Option<&str>>,
    parse_range_header: P,
) -> (res: Result<VideoResponse, AppError>)
    requires
        forall|range: &str| call_requires(parse_range_header, (range, file_size)),
        forall|range: &str, start: u64, end: u64|
            call_ensures(parse_range_header, (range, file_size), Ok((start, end))) ==> start <= end
                && end - start < u64::MAX,
    ensures
        match range_header {
            None => res matches Ok(response) && response@ == whole(mime_type@, file_size),
            Some(None) => res matches Err(e) && e.reason() == "Invalid range header"@,
            Some(Some(range)) => match res {
                Ok(response) => exists|start: u64, end: u64|
                    call_ensures(parse_range_header, (range, file_size), Ok((start, end)))
                        && response@ == #[trigger] part(mime_type@, file_size, start, end),
                Err(e) => call_ensures(parse_range_header, (range, file_size), Err(e)),
            },
        },
{
    match range_header {
        None => Ok(full_response(mime_type, file_size)),
        Some(None) => Err(error::invalid_path("Invalid range header")),
        Some(Some(range)) => match parse_range_header(range, file_size) {
            Ok((start, end)) => Ok(partial_response(mime_type, file_size, start, end)),
            Err(e) => Err(e),
        },
    }
}

} // verus!
