//! Adapter to a host's control interface: sessions that an authorizing host offers, and the
//! exchange that opens one.

use crate::acquisition::arena::consumer::ArenaConsumer;
use crate::acquisition::socket::{CpuSetupClient, SocketError};
use crate::error::CaptureTransferError;
use crate::json::{escapes_are_plain, json_contents, json_string, json_text};
use crate::text::{
    characters, collect, debug_form, debug_text, decimal, decimal_text, is_whitespace, same_text,
    whitespace,
};
use vstd::prelude::*;
use vstd::utf8::encode_utf8;

verus! {

#[derive(Debug, Clone, Copy, PartialEq, Eq, Structural)]
pub enum PixelFormat {
    Unknown,
    Bgra8Unorm,
    Rgba8Unorm,
}

#[derive(Debug, PartialEq, Eq)]
pub struct SyntheticSession {
    pub session_id: String,
    pub source_id: u64,
    pub track_id: u64,
    pub fd_socket_path: String,
}

impl Clone for SyntheticSession {
    fn clone(&self) -> (result: Self)
        ensures
            result == *self,
    {
        SyntheticSession {
            session_id: self.session_id.clone(),
            source_id: self.source_id,
            track_id: self.track_id,
            fd_socket_path: self.fd_socket_path.clone(),
        }
    }
}

pub struct SessionInfo {
    pub session_id: String,
    pub source_id: u64,
    pub track_id: u64,
    pub width: u32,
    pub height: u32,
    pub stride: u32,
    pub pixel_format: PixelFormat,
    pub fd_socket_path: String,
    /// Caller-supplied agent token for protected sessions. `None` keeps the public setup flow
    /// used by synthetic sessions.
    pub bearer_token: Option<String>,
}

impl Clone for SessionInfo {
    fn clone(&self) -> (result: Self)
        ensures
            result == *self,
    {
        SessionInfo {
            session_id: self.session_id.clone(),
            source_id: self.source_id,
            track_id: self.track_id,
            width: self.width,
            height: self.height,
            stride: self.stride,
            pixel_format: self.pixel_format,
            fd_socket_path: self.fd_socket_path.clone(),
            bearer_token: match &self.bearer_token {
                Some(token) => Some(token.clone()),
                None => None,
            },
        }
    }
}

pub open spec fn pixel_format_name(format: PixelFormat) -> Seq<char> {
    match format {
        PixelFormat::Unknown => "Unknown"@,
        PixelFormat::Bgra8Unorm => "Bgra8Unorm"@,
        PixelFormat::Rgba8Unorm => "Rgba8Unorm"@,
    }
}

impl PixelFormat {
    /// The name of the format.
    pub fn name(self) -> (result: &'static str)
        ensures
            result@ == pixel_format_name(self),
    {
        match self {
            PixelFormat::Unknown => "Unknown",
            PixelFormat::Bgra8Unorm => "Bgra8Unorm",
            PixelFormat::Rgba8Unorm => "Rgba8Unorm",
        }
    }
}

impl SessionInfo {
    /// The session in words, without its token.
    pub open spec fn text(self) -> Seq<char> {
        "SessionInfo { session_id: "@ + debug_form(self.session_id@) + ", source_id: "@ + decimal(
            self.source_id as nat,
        ) + ", track_id: "@ + decimal(self.track_id as nat) + ", width: "@ + decimal(
            self.width as nat,
        ) + ", height: "@ + decimal(self.height as nat) + ", stride: "@ + decimal(
            self.stride as nat,
        ) + ", pixel_format: "@ + pixel_format_name(self.pixel_format) + ", fd_socket_path: "@
            + debug_form(self.fd_socket_path@) + ", bearer_token: "@ + (
        if self.bearer_token is Some {
            "Some(\"<redacted>\")"@
        } else {
            "None"@
        }) + " }"@
    }

    /// The session in words. A token is only said to be there.
    pub fn describe(&self) -> (result: String)
        ensures
            result@ == self.text(),
    {
        let token = if self.bearer_token.is_some() {
            "Some(\"<redacted>\")"
        } else {
            "None"
        };
        String::from_str("SessionInfo { session_id: ").concat(
            debug_text(self.session_id.as_str()).as_str(),
        ).concat(", source_id: ").concat(decimal_text(self.source_id).as_str()).concat(
            ", track_id: ",
        ).concat(decimal_text(self.track_id).as_str()).concat(", width: ").concat(
            decimal_text(self.width as u64).as_str(),
        ).concat(", height: ").concat(decimal_text(self.height as u64).as_str()).concat(
            ", stride: ",
        ).concat(decimal_text(self.stride as u64).as_str()).concat(", pixel_format: ").concat(
            self.pixel_format.name(),
        ).concat(", fd_socket_path: ").concat(
            debug_text(self.fd_socket_path.as_str()).as_str(),
        ).concat(", bearer_token: ").concat(token).concat(" }")
    }
}

/// What a session says in words does not depend on its token.
pub proof fn tokens_are_never_shown(info: SessionInfo, other: SessionInfo)
    requires
        other == (SessionInfo { bearer_token: other.bearer_token, ..info }),
        info.bearer_token is Some,
        other.bearer_token is Some,
    ensures
        info.text() == other.text(),
{
}

/// Whether an error is a transport failure of this operation with this text.
pub open spec fn transport_error(
    error: CaptureTransferError,
    operation: Seq<char>,
    message: Seq<char>,
) -> bool {
    error matches CaptureTransferError::DaemonTransport { operation: at, message: why } && at@
        == operation && why@ == message
}

/// The pixel format that a name stands for.
pub open spec fn named_pixel_format(name: Seq<char>) -> Option<PixelFormat> {
    if name == "unknown"@ {
        Some(PixelFormat::Unknown)
    } else if name == "bgra8_unorm"@ {
        Some(PixelFormat::Bgra8Unorm)
    } else if name == "rgba8_unorm"@ {
        Some(PixelFormat::Rgba8Unorm)
    } else {
        None
    }
}

pub fn parse_pixel_format(value: &str) -> (result: Result<PixelFormat, CaptureTransferError>)
    ensures
        match named_pixel_format(value@) {
            Some(format) => result == Ok::<PixelFormat, CaptureTransferError>(format),
            None => result matches Err(error) && transport_error(
                error,
                "parse-pixel-format"@,
                value@,
            ),
        },
{
    if same_text(value, "unknown") {
        return Ok(PixelFormat::Unknown);
    }
    if same_text(value, "bgra8_unorm") {
        return Ok(PixelFormat::Bgra8Unorm);
    }
    if same_text(value, "rgba8_unorm") {
        return Ok(PixelFormat::Rgba8Unorm);
    }
    Err(
        CaptureTransferError::DaemonTransport {
            operation: "parse-pixel-format",
            message: String::from_str(value),
        },
    )
}

/// A session as the control interface describes it.
pub struct SessionInfoWire {
    pub session_id: String,
    pub source_id: u64,
    pub track_id: u64,
    pub width: u32,
    pub height: u32,
    pub stride: u32,
    pub pixel_format: String,
    pub fd_socket_path: String,
}

/// Takes a described session over: it has no token yet.
pub fn session_from_wire(wire: SessionInfoWire) -> (result: Result<SessionInfo, CaptureTransferError>)
    ensures
        match named_pixel_format(wire.pixel_format@) {
            Some(pixel_format) => result == Ok::<SessionInfo, CaptureTransferError>(
                SessionInfo {
                    session_id: wire.session_id,
                    source_id: wire.source_id,
                    track_id: wire.track_id,
                    width: wire.width,
                    height: wire.height,
                    stride: wire.stride,
                    pixel_format,
                    fd_socket_path: wire.fd_socket_path,
                    bearer_token: None,
                },
            ),
            None => result matches Err(error) && transport_error(
                error,
                "parse-pixel-format"@,
                wire.pixel_format@,
            ),
        },
{
    let pixel_format = match parse_pixel_format(wire.pixel_format.as_str()) {
        Ok(format) => format,
        Err(error) => {
            return Err(error);
        },
    };
    Ok(
        SessionInfo {
            session_id: wire.session_id,
            source_id: wire.source_id,
            track_id: wire.track_id,
            width: wire.width,
            height: wire.height,
            stride: wire.stride,
            pixel_format,
            fd_socket_path: wire.fd_socket_path,
            bearer_token: None,
        },
    )
}

/// The path of a session's resource.
pub fn session_path(session_id: &str) -> (result: String)
    ensures
        result@ == "/capture-sessions/"@ + session_id@,
{
    String::from_str("/capture-sessions/").concat(session_id)
}

/// A request without a body.
pub open spec fn request_text(method: Seq<char>, path: Seq<char>) -> Seq<char> {
    method + " "@ + path
        + " HTTP/1.1\r\nHost: porthole\r\nContent-Length: 0\r\nConnection: close\r\n\r\n"@
}

/// A request without a body, on a connection for it alone.
pub fn http_request(method: &str, path: &str) -> (result: String)
    ensures
        result@ == request_text(method@, path@),
{
    String::from_str(method).concat(" ").concat(path).concat(
        " HTTP/1.1\r\nHost: porthole\r\nContent-Length: 0\r\nConnection: close\r\n\r\n",
    )
}

/// Whether a blank line starts here.
pub open spec fn blank_line_at(text: Seq<char>, i: int) -> bool {
    &&& 0 <= i
    &&& i + 4 <= text.len()
    &&& text[i] == '\r'
    &&& text[i + 1] == '\n'
    &&& text[i + 2] == '\r'
    &&& text[i + 3] == '\n'
}

/// Where the first blank line starts, if there is one.
pub open spec fn first_blank_line(text: Seq<char>, at: int) -> bool {
    blank_line_at(text, at) && forall|j: int| 0 <= j < at ==> !#[trigger] blank_line_at(text, j)
}

/// Where the first line ends: at the first line feed, or at the end.
pub open spec fn line_end(text: Seq<char>, at: int) -> bool {
    &&& 0 <= at <= text.len()
    &&& at < text.len() ==> text[at] == '\n'
    &&& forall|j: int| 0 <= j < at ==> #[trigger] text[j] != '\n'
}

/// The line that ends here, without the carriage return that belongs to a line feed.
pub open spec fn line_to(text: Seq<char>, at: int) -> Seq<char> {
    if 0 < at < text.len() && text[at - 1] == '\r' {
        text.subrange(0, at - 1)
    } else {
        text.subrange(0, at)
    }
}

/// The end of the run of white space, or of other characters, that starts here.
pub open spec fn run_end(text: Seq<char>, from: int, white: bool) -> int
    decreases text.len() - from,
{
    if 0 <= from < text.len() && is_whitespace(text[from]) == white {
        run_end(text, from + 1, white)
    } else {
        from
    }
}

/// The second word of a line, if there is one.
pub open spec fn second_word(line: Seq<char>) -> Option<Seq<char>> {
    let first = run_end(line, 0, true);
    let gap = run_end(line, first, false);
    let start = run_end(line, gap, true);
    let end = run_end(line, start, false);
    if start < line.len() {
        Some(line.subrange(start, end))
    } else {
        None
    }
}

/// What a response comes to: its body if the status is 200.
pub open spec fn response_is(
    response: Seq<char>,
    blank: int,
    end: int,
    result: Result<String, CaptureTransferError>,
) -> bool {
    let headers = response.subrange(0, blank);
    let line = line_to(headers, end);
    if headers.len() == 0 {
        result matches Err(error) && transport_error(
            error,
            "parse-http"@,
            "missing status line"@,
        )
    } else if second_word(line) == Some("200"@) {
        result matches Ok(body) && body@ == response.subrange(
            blank + 4,
            response.len() as int,
        )
    } else {
        result matches Err(error) && transport_error(error, "http-status"@, line)
    }
}

fn find_run_end(chars: &Vec<char>, from: usize, white: bool) -> (result: usize)
    requires
        from <= chars@.len(),
    ensures
        result == run_end(chars@, from as int, white),
        from <= result <= chars@.len(),
{
    let mut i: usize = from;
    while i < chars.len() && whitespace(chars[i]) == white
        invariant
            from <= i <= chars@.len(),
            run_end(chars@, from as int, white) == run_end(chars@, i as int, white),
        decreases chars@.len() - i,
    {
        i = i + 1;
    }
    i
}

/// Takes a response apart. The status is the second word of its first line.
pub fn parse_http_response(response: &str) -> (result: Result<String, CaptureTransferError>)
    ensures
        (forall|at: int| !#[trigger] blank_line_at(response@, at)) ==> (result matches Err(error)
            && transport_error(error, "parse-http"@, "missing header/body separator"@)),
        forall|blank: int, end: int| #[trigger]
            first_blank_line(response@, blank) && #[trigger] line_end(
                response@.subrange(0, blank),
                end,
            ) ==> response_is(response@, blank, end, result),
{
    let chars = characters(response);
    let mut blank: usize = 0;
    while blank < chars.len() && !(chars.len() - blank >= 4 && chars[blank] == '\r' && chars[blank + 1]
        == '\n' && chars[blank + 2] == '\r' && chars[blank + 3] == '\n')
        invariant
            blank <= chars@.len(),
            forall|j: int| 0 <= j < blank ==> !#[trigger] blank_line_at(chars@, j),
        decreases chars@.len() - blank,
    {
        blank = blank + 1;
    }
    if blank == chars.len() {
        assert forall|at: int| !#[trigger] blank_line_at(response@, at) by {}
        return Err(
            CaptureTransferError::DaemonTransport {
                operation: "parse-http",
                message: String::from_str("missing header/body separator"),
            },
        );
    }
    assert(first_blank_line(response@, blank as int));
    assert forall|other: int| #[trigger] first_blank_line(response@, other) implies other == blank by {
        assert(blank_line_at(response@, other));
        assert(blank_line_at(response@, blank as int));
    }
    let ghost headers = response@.subrange(0, blank as int);
    if blank == 0 {
        return Err(
            CaptureTransferError::DaemonTransport {
                operation: "parse-http",
                message: String::from_str("missing status line"),
            },
        );
    }
    let mut end: usize = 0;
    while end < blank && chars[end] != '\n'
        invariant
            end <= blank <= chars@.len(),
            headers == chars@.subrange(0, blank as int),
            forall|j: int| 0 <= j < end ==> #[trigger] headers[j] != '\n',
        decreases blank - end,
    {
        end = end + 1;
    }
    assert(line_end(headers, end as int));
    assert forall|other: int| #[trigger] line_end(headers, other) implies other == end by {
        if other < end {
            assert(headers[other] != '\n');
        }
        if end < other {
            assert(headers[end as int] == '\n');
        }
    }
    let stop: usize = if end > 0 && end < blank && chars[end - 1] == '\r' {
        end - 1
    } else {
        end
    };
    let status_line = collect(&chars, 0, stop);
    assert(status_line@ =~= line_to(headers, end as int));
    let words = characters(status_line.as_str());
    let first: usize = find_run_end(&words, 0, true);
    let gap: usize = find_run_end(&words, first, false);
    let start: usize = find_run_end(&words, gap, true);
    let finish: usize = find_run_end(&words, start, false);
    let ok = start < words.len() && same_text(collect(&words, start, finish).as_str(), "200");
    assert(ok == (second_word(status_line@) == Some("200"@)));
    if !ok {
        return Err(
            CaptureTransferError::DaemonTransport {
                operation: "http-status",
                message: status_line,
            },
        );
    }
    Ok(collect(&chars, blank + 4, chars.len()))
}

/// Whether a value and its terminating zero byte go into a buffer of that many bytes: the value
/// holds no zero byte itself, and there is room for both.
pub open spec fn c_string_fits(value: Seq<char>, len: usize) -> bool {
    &&& len > 0
    &&& forall|i: int| 0 <= i < encode_utf8(value).len() ==> #[trigger] encode_utf8(value)[i] != 0
    &&& encode_utf8(value).len() + 1 <= len
}

/// The bytes that go into a C buffer of that many bytes, if they fit.
pub fn c_string_bytes(value: &str, len: usize) -> (result: Option<Vec<u8>>)
    ensures
        match result {
            Some(bytes) => c_string_fits(value@, len) && bytes@ == encode_utf8(value@).push(0),
            None => !c_string_fits(value@, len),
        },
{
    if len == 0 {
        return None;
    }
    let bytes = value.as_bytes();
    if bytes.len() >= len {
        return None;
    }
    let mut out: Vec<u8> = Vec::new();
    let mut i: usize = 0;
    while i < bytes.len()
        invariant
            i <= bytes@.len(),
            bytes@ == encode_utf8(value@),
            out@ == bytes@.take(i as int),
            forall|j: int| 0 <= j < i ==> #[trigger] bytes@[j] != 0,
        decreases bytes@.len() - i,
    {
        if bytes[i] == 0 {
            assert(encode_utf8(value@)[i as int] == 0);
            return None;
        }
        out.push(bytes[i]);
        assert(out@ =~= bytes@.take(i + 1));
        i = i + 1;
    }
    assert(bytes@.take(i as int) =~= bytes@);
    out.push(0);
    Some(out)
}

/// The request that opens a session, on a line of its own.
pub open spec fn open_text(info: SessionInfo) -> Seq<char> {
    "{\"bearer_token\":"@ + (match info.bearer_token {
        Some(token) => json_text(token@),
        None => "null"@,
    }) + ",\"op\":\"open_cpu_acquisition\",\"session_id\":"@ + json_text(info.session_id@)
        + ",\"track_id\":"@ + decimal(info.track_id as nat) + "}\n"@
}

/// The request that opens a session, on a line of its own.
pub fn open_request(info: &SessionInfo) -> (result: String)
    ensures
        result@ == open_text(*info),
{
    let token = match &info.bearer_token {
        Some(token) => json_string(token.as_str()),
        None => String::from_str("null"),
    };
    String::from_str("{\"bearer_token\":").concat(token.as_str()).concat(
        ",\"op\":\"open_cpu_acquisition\",\"session_id\":",
    ).concat(json_string(info.session_id.as_str()).as_str()).concat(",\"track_id\":").concat(
        decimal_text(info.track_id).as_str(),
    ).concat("}\n")
}

/// Whether no control character stands in a text.
pub open spec fn one_line(text: Seq<char>) -> bool {
    forall|i: int| 0 <= i < text.len() ==> #[trigger] text[i] >= ' '
}

proof fn lemma_json_is_one_line(text: Seq<char>)
    ensures
        one_line(json_text(text)),
{
    escapes_are_plain(text);
    let contents = json_contents(text);
    assert forall|i: int| 0 <= i < json_text(text).len() implies #[trigger] json_text(text)[i]
        >= ' ' by {
        if 1 <= i < 1 + contents.len() {
            assert(json_text(text)[i] == contents[i - 1]);
        }
    }
}

proof fn lemma_decimal_is_one_line(value: nat)
    ensures
        one_line(decimal(value)),
    decreases value,
{
    if value >= 10 {
        lemma_decimal_is_one_line(value / 10);
    }
}

/// An opening request is one line, whatever the token and the session's name hold: nothing of
/// them can pass for another request.
pub proof fn opening_requests_are_one_line(info: SessionInfo)
    ensures
        one_line(open_text(info).drop_last()),
        open_text(info).last() == '\n',
{
    reveal_strlit("{\"bearer_token\":");
    reveal_strlit("null");
    reveal_strlit(",\"op\":\"open_cpu_acquisition\",\"session_id\":");
    reveal_strlit(",\"track_id\":");
    reveal_strlit("}\n");
    if info.bearer_token is Some {
        lemma_json_is_one_line((info.bearer_token->0)@);
    }
    lemma_json_is_one_line(info.session_id@);
    lemma_decimal_is_one_line(info.track_id as nat);
    let token = match info.bearer_token {
        Some(token) => json_text(token@),
        None => "null"@,
    };
    let a = "{\"bearer_token\":"@;
    let b = ",\"op\":\"open_cpu_acquisition\",\"session_id\":"@;
    let c = ",\"track_id\":"@;
    let head = a + token + b + json_text(info.session_id@) + c + decimal(info.track_id as nat);
    assert(one_line(a) && one_line(token) && one_line(b) && one_line(c));
    assert(one_line(head));
    assert(open_text(info).drop_last() =~= head + seq!['}']);
}

/// The longest reply, in bytes.
pub const MAX_REPLY: usize = 0x4000;

/// A reply that is read byte by byte up to its line feed: nothing that follows it is taken.
pub struct ReplyReader {
    bytes: Vec<u8>,
    ended: bool,
}

impl ReplyReader {
    /// The bytes of the reply so far.
    pub closed spec fn spec_bytes(self) -> Seq<u8> {
        self.bytes@
    }

    /// Whether the line feed has come.
    pub closed spec fn spec_ended(self) -> bool {
        self.ended
    }

    pub fn new() -> (result: Self)
        ensures
            result.spec_bytes() == Seq::<u8>::empty(),
            !result.spec_ended(),
    {
        let reader = ReplyReader { bytes: Vec::new(), ended: false };
        assert(reader.bytes@ =~= Seq::empty());
        reader
    }

    /// Whether another byte may be read: a reply that is too long is refused before.
    pub fn wants(&self) -> (result: Result<bool, CaptureTransferError>)
        ensures
            if self.spec_ended() {
                result == Ok::<bool, CaptureTransferError>(false)
            } else if self.spec_bytes().len() >= MAX_REPLY {
                result matches Err(error) && transport_error(
                    error,
                    "open-cpu-session"@,
                    "oversized reply"@,
                )
            } else {
                result == Ok::<bool, CaptureTransferError>(true)
            },
    {
        if self.ended {
            return Ok(false);
        }
        if self.bytes.len() >= MAX_REPLY {
            return Err(
                CaptureTransferError::DaemonTransport {
                    operation: "open-cpu-session",
                    message: String::from_str("oversized reply"),
                },
            );
        }
        Ok(true)
    }

    /// Takes one byte.
    pub fn took(&mut self, byte: u8)
        requires
            !old(self).spec_ended(),
        ensures
            if byte == 10 {
                final(self).spec_ended() && final(self).spec_bytes() == old(self).spec_bytes()
            } else {
                !final(self).spec_ended() && final(self).spec_bytes()
                    == old(self).spec_bytes().push(byte)
            },
    {
        if byte == 10 {
            self.ended = true;
        } else {
            self.bytes.push(byte);
        }
    }

    /// The reply without its line feed.
    pub fn reply(&self) -> (result: &Vec<u8>)
        ensures
            result@ == self.spec_bytes(),
    {
        &self.bytes
    }
}

/// What the host answers.
pub enum OpenReply {
    CpuOpened,
    Rejected { message: String },
}

/// What an answer comes to.
pub fn opened(reply: OpenReply) -> (result: Result<(), CaptureTransferError>)
    ensures
        match reply {
            OpenReply::CpuOpened => result is Ok,
            OpenReply::Rejected { message } => result matches Err(error) && transport_error(
                error,
                "open-cpu-session"@,
                message@,
            ),
        },
{
    match reply {
        OpenReply::CpuOpened => Ok(()),
        OpenReply::Rejected { message } => Err(
            CaptureTransferError::DaemonTransport { operation: "open-cpu-session", message },
        ),
    }
}

/// An authorized CPU session uses the common arena for every acquisition. Setup is separate so
/// acquired frames can outlive both connection and API owners.
pub struct ConnectedSession<T> {
    pub setup: CpuSetupClient,
    pub consumer: ArenaConsumer<T>,
    pub info: SessionInfo,
}

impl<T> ConnectedSession<T> {
    /// Completes a session that the host opened, with what its holding request came to. The
    /// endpoint must be a trusted conforming producer, and this process the sole recipient of
    /// the process-bound mappings. Authorization does not authenticate the producer.
    pub fn connect(
        info: SessionInfo,
        setup: CpuSetupClient,
        admitted: Result<ArenaConsumer<T>, SocketError>,
    ) -> (result: Result<Self, CaptureTransferError>)
        ensures
            match admitted {
                Ok(consumer) => result == Ok::<ConnectedSession<T>, CaptureTransferError>(
                    ConnectedSession { setup, consumer, info },
                ),
                Err(why) => result matches Err(error) && transport_error(
                    error,
                    "admit-cpu-session"@,
                    why.text(),
                ),
            },
    {
        match admitted {
            Ok(consumer) => Ok(ConnectedSession { setup, consumer, info }),
            Err(why) => Err(
                CaptureTransferError::DaemonTransport {
                    operation: "admit-cpu-session",
                    message: why.message(),
                },
            ),
        }
    }
}

/// A run of characters that are all whitespace, or all not, ends where the next one is not.
proof fn lemma_run_end(text: Seq<char>, from: int, to: int, white: bool)
    requires
        0 <= from <= to <= text.len(),
        forall|i: int| from <= i < to ==> is_whitespace(#[trigger] text[i]) == white,
        to == text.len() || is_whitespace(text[to]) != white,
    ensures
        run_end(text, from, white) == to,
    decreases to - from,
{
    if from < to {
        lemma_run_end(text, from + 1, to, white);
    }
}

/// A response that reports success gives its body: what stands after the first empty line, to the
/// last character. `line` is its first line, a word of the protocol's version and the status 200
/// with or without words after it, and `rest` what follows the line before the empty one.
pub proof fn successful_responses_give_their_body(
    version: Seq<char>,
    words: Seq<char>,
    rest: Seq<char>,
    body: Seq<char>,
    response: &str,
    result: Result<String, CaptureTransferError>,
)
    requires
        version.len() > 0,
        forall|i: int| 0 <= i < version.len() ==> !is_whitespace(#[trigger] version[i]),
        words.len() > 0 ==> words[0] == ' ',
        forall|i: int| 0 <= i < words.len() ==> (#[trigger] words[i]) != '\n' && words[i] != '\r',
        rest.len() == 0 || (rest.len() >= 2 && rest[0] == '\r' && rest[1] == '\n'),
        response@ == version + " 200"@ + words + rest + "\r\n\r\n"@ + body,
        first_blank_line(
            response@,
            (version.len() + 4 + words.len() + rest.len()) as int,
        ),
        call_ensures(parse_http_response, (response,), result),
    ensures
        result matches Ok(text) && text@ == body,
{
    reveal_strlit(" 200");
    reveal_strlit("200");
    reveal_strlit("\r\n\r\n");
    let line = version + " 200"@ + words;
    let headers = line + rest;
    let blank = headers.len() as int;
    assert(response@.subrange(0, blank) =~= headers);
    assert(response@.subrange(blank + 4, response@.len() as int) =~= body);
    let end: int = if rest.len() == 0 {
        headers.len() as int
    } else {
        (line.len() + 1) as int
    };
    assert forall|j: int| 0 <= j < end implies #[trigger] headers[j] != '\n' by {
        if j < version.len() {
            assert(headers[j] == version[j]);
            assert(!is_whitespace(version[j]));
        } else if j < version.len() + 4 {
            assert(headers[j] == " 200"@[j - version.len()]);
        } else if j < line.len() {
            assert(headers[j] == words[j - version.len() - 4]);
        } else {
            assert(headers[j] == rest[0]);
        }
    }
    if rest.len() > 0 {
        assert(headers[end] == rest[1]);
        assert(headers[end - 1] == rest[0]);
    }
    assert(line_end(headers, end));
    let first = line_to(headers, end);
    let last = line.len() - 1;
    if rest.len() == 0 {
        assert(first =~= line);
    } else {
        assert(first =~= line);
    }
    let v = version.len() as int;
    assert(!is_whitespace(line[0])) by {
        assert(line[0] == version[0]);
    }
    lemma_run_end(line, 0, 0, true);
    assert forall|i: int| 0 <= i < v implies is_whitespace(#[trigger] line[i]) == false by {
        assert(line[i] == version[i]);
    }
    assert(line[v] == ' ' && line[v + 1] == '2' && line[v + 2] == '0' && line[v + 3] == '0');
    lemma_run_end(line, 0, v, false);
    lemma_run_end(line, v, v + 1, true);
    if words.len() > 0 {
        assert(line[v + 4] == words[0]);
    }
    lemma_run_end(line, v + 1, v + 4, false);
    assert(line.subrange(v + 1, v + 4) =~= "200"@);
}

/// A response that gives a body names the status 200 before its first empty line, and the body is
/// what stands after that line.
pub proof fn only_successful_responses_have_a_body(
    response: &str,
    blank: int,
    end: int,
    result: Result<String, CaptureTransferError>,
)
    requires
        call_ensures(parse_http_response, (response,), result),
        first_blank_line(response@, blank),
        line_end(response@.subrange(0, blank), end),
    ensures
        result matches Ok(text) ==> {
            &&& text@ == response@.subrange(blank + 4, response@.len() as int)
            &&& exists|p: int|
                0 <= p && p + 3 <= blank && (#[trigger] response@[p]) == '2' && response@[p + 1]
                    == '0' && response@[p + 2] == '0'
        },
{
    reveal_strlit("200");
    if result is Ok {
        let headers = response@.subrange(0, blank);
        let line = line_to(headers, end);
        let first = run_end(line, 0, true);
        let gap = run_end(line, first, false);
        let start = run_end(line, gap, true);
        let stop = run_end(line, start, false);
        lemma_run_end_bounds(line, 0, true);
        lemma_run_end_bounds(line, first, false);
        lemma_run_end_bounds(line, gap, true);
        lemma_run_end_bounds(line, start, false);
        let word = line.subrange(start, stop);
        assert(word == "200"@);
        assert(word[0] == line[start] && word[1] == line[start + 1] && word[2] == line[start + 2]);
        assert(response@[start] == '2');
    }
}

proof fn lemma_run_end_bounds(text: Seq<char>, from: int, white: bool)
    requires
        0 <= from <= text.len(),
    ensures
        from <= run_end(text, from, white) <= text.len(),
    decreases text.len() - from,
{
    if from < text.len() && is_whitespace(text[from]) == white {
        lemma_run_end_bounds(text, from + 1, white);
    }
}

/// A session is taken over from the host as it describes it, field by field, wherever its pixel
/// format has one of the known names; it carries no token until the caller gives it one.
pub proof fn sessions_are_taken_as_described(
    wire: SessionInfoWire,
    result: Result<SessionInfo, CaptureTransferError>,
)
    requires
        call_ensures(session_from_wire, (wire,), result),
    ensures
        result is Ok <==> wire.pixel_format@ == "unknown"@ || wire.pixel_format@ == "bgra8_unorm"@
            || wire.pixel_format@ == "rgba8_unorm"@,
        result matches Ok(info) ==> {
            &&& info.session_id == wire.session_id
            &&& info.source_id == wire.source_id
            &&& info.track_id == wire.track_id
            &&& info.width == wire.width
            &&& info.height == wire.height
            &&& info.stride == wire.stride
            &&& info.fd_socket_path == wire.fd_socket_path
            &&& info.bearer_token is None
            &&& wire.pixel_format@ == "bgra8_unorm"@ <==> info.pixel_format
                == PixelFormat::Bgra8Unorm
            &&& wire.pixel_format@ == "rgba8_unorm"@ <==> info.pixel_format
                == PixelFormat::Rgba8Unorm
        },
{
    reveal_strlit("unknown");
    reveal_strlit("bgra8_unorm");
    reveal_strlit("rgba8_unorm");
    assert("bgra8_unorm"@[0] != "rgba8_unorm"@[0]);
    assert("bgra8_unorm"@[0] != "unknown"@[0]);
    assert("rgba8_unorm"@[0] != "unknown"@[0]);
}

/// A request asks for one path with one method and no body, and closes the connection after it; a
/// session is asked for under its own identity.
pub proof fn requests_name_what_they_ask_for(
    method: &str,
    path: &str,
    request: String,
    session: &str,
    place: String,
)
    requires
        call_ensures(http_request, (method, path), request),
        call_ensures(session_path, (session,), place),
    ensures
        request@ == method@ + " "@ + path@
            + " HTTP/1.1\r\nHost: porthole\r\nContent-Length: 0\r\nConnection: close\r\n\r\n"@,
        place@ == "/capture-sessions/"@ + session@,
{
}

/// An opening request carries the session's identity, its track and the token that it has, and
/// nothing else changes it: sessions that differ in one of these are asked for differently.
pub proof fn opening_requests_carry_the_session(info: &SessionInfo, request: String)
    requires
        call_ensures(open_request, (info,), request),
    ensures
        request@ == "{\"bearer_token\":"@ + (match info.bearer_token {
            Some(token) => json_text(token@),
            None => "null"@,
        }) + ",\"op\":\"open_cpu_acquisition\",\"session_id\":"@ + json_text(info.session_id@)
            + ",\"track_id\":"@ + decimal(info.track_id as nat) + "}\n"@,
{
}

/// The host's answer is taken as it is: opened, or why not.
pub proof fn openings_are_answered(reply: OpenReply, result: Result<(), CaptureTransferError>)
    requires
        call_ensures(opened, (reply,), result),
    ensures
        result is Ok <==> reply is CpuOpened,
        reply matches OpenReply::Rejected { message } ==> (result matches Err(
            CaptureTransferError::DaemonTransport { message: why, .. },
        ) && why@ == message@),
{
}

/// What goes into a C buffer is the text's bytes and one zero byte after them, and only where all
/// of it fits and no zero byte stands inside.
pub proof fn c_strings_are_terminated(value: &str, len: usize, result: Option<Vec<u8>>)
    requires
        call_ensures(c_string_bytes, (value, len), result),
    ensures
        result matches Some(bytes) ==> {
            &&& bytes@.len() <= len
            &&& bytes@.len() > 0
            &&& bytes@.last() == 0
            &&& bytes@.drop_last() == encode_utf8(value@)
            &&& forall|i: int| 0 <= i < bytes@.len() - 1 ==> (#[trigger] bytes@[i]) != 0
        },
        result is None ==> encode_utf8(value@).len() >= len || exists|i: int|
            0 <= i < encode_utf8(value@).len() && (#[trigger] encode_utf8(value@)[i]) == 0,
{
    if result is Some {
        let bytes = result->0;
        assert(bytes@.drop_last() =~= encode_utf8(value@));
        assert forall|i: int| 0 <= i < bytes@.len() - 1 implies (#[trigger] bytes@[i]) != 0 by {
            assert(bytes@[i] == encode_utf8(value@)[i]);
        }
    }
}

} // verus!
