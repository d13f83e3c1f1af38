//! The local HTTP protocol that drives the light: the request line and its
//! route, reading a request body, the replies, and their framing.
use vstd::prelude::*;
use vstd::utf8::{
    decode_utf8, encode_utf8, is_ascii_chars, is_ascii_chars_encode_utf8, is_char_boundary,
    is_char_boundary_iff_not_is_continuation_byte, is_char_boundary_start_end_of_seq, valid_utf8,
};

use crate::status::{
    after_report, get_state, mode_name, payload_of, reported_mode, reported_state, AppData,
    StatePayload,
};
use crate::text::{
    all_digits, chars_of, decimal, is_digit, is_space, lemma_decimal_digits, lemma_parse_decimal, lower_code,
    trim_end, lower_eq, lower_eq_at, line_end, line_end_at, parse_usize, parse_usize_at,
    push_decimal, same_chars, skip_spaces_at, string_of, trim, trim_bounds, trim_start, word_end,
    word_end_at,
};

verus! {

broadcast use vstd::utf8::encode_utf8_decode_utf8, vstd::utf8::encode_utf8_valid_utf8;

// ── Outside calls ──────────────────────────────────────────────────

/// What `String::from_utf8_lossy` makes of bytes that are not valid UTF-8.
pub uninterp spec fn lossy_utf8(bytes: Seq<u8>) -> Seq<char>;

/// The text that `String::from_utf8_lossy` decodes: valid UTF-8 decodes to
/// its characters (as std documents); other input to what `lossy_utf8`
/// names.
pub open spec fn decode_replacing(bytes: Seq<u8>) -> Seq<char> {
    if valid_utf8(bytes) {
        decode_utf8(bytes)
    } else {
        lossy_utf8(bytes)
    }
}

/// `String::from_utf8_lossy`, owned. Claimed: valid UTF-8 decodes to its
/// characters unchanged; what invalid sequences become is left to the name
/// `lossy_utf8`.
#[verifier::external_body]
fn decode_lossy(bytes: &[u8]) -> (s: String)
    ensures
        valid_utf8(bytes@) ==> s@ == decode_utf8(bytes@),
        !valid_utf8(bytes@) ==> s@ == lossy_utf8(bytes@),
{
    String::from_utf8_lossy(bytes).into_owned()
}

/// The `mode` and `message` members that `serde_json` finds in a JSON
/// text, each present only when it is a string; `None` when the text is
/// not JSON.
pub uninterp spec fn json_status_fields(body: Seq<char>) -> Option<(Option<Seq<char>>, Option<Seq<char>>)>;

/// A status report as its JSON body gives it.
#[derive(Clone, Debug)]
pub struct StatusRequest {
    pub mode: Option<String>,
    pub message: Option<String>,
}

pub open spec fn opt_text(o: Option<String>) -> Option<Seq<char>> {
    match o {
        Some(s) => Some(s@),
        None => None,
    }
}

/// `serde_json::from_str::<Value>`, then `Value::get` and `Value::as_str`
/// for the members `mode` and `message`. Claimed: the result is what
/// `json_status_fields` names for `body`.
#[verifier::external_body]
fn decode_status_body(body: &str) -> (r: Option<StatusRequest>)
    ensures
        match json_status_fields(body@) {
            Some((m, t)) => r matches Some(q) && opt_text(q.mode) == m && opt_text(q.message) == t,
            None => r is None,
        },
{
    match serde_json::from_str::<serde_json::Value>(body) {
        Ok(v) => Some(
            StatusRequest {
                mode: v.get("mode").and_then(serde_json::Value::as_str).map(String::from),
                message: v.get("message").and_then(serde_json::Value::as_str).map(String::from),
            },
        ),
        Err(_) => None,
    }
}

// ── Request line and route ─────────────────────────────────────────

/// The first word of the first line of a request (its method).
pub open spec fn request_method(s: Seq<char>) -> Seq<char> {
    let t = trim_start(s.take(line_end(s) as int));
    t.take(word_end(t) as int)
}

/// The second word of the first line of a request (its path).
pub open spec fn request_path(s: Seq<char>) -> Seq<char> {
    let t = trim_start(s.take(line_end(s) as int));
    let u = trim_start(t.skip(word_end(t) as int));
    u.take(word_end(u) as int)
}

/// Where a request goes.
#[derive(Clone, Copy, Debug, PartialEq, Eq, Structural)]
pub enum Route {
    GetStatus,
    PostStatus,
    NotFound,
}

pub open spec fn route_of(method: Seq<char>, path: Seq<char>) -> Route {
    if method == "GET"@ && path == "/status"@ {
        Route::GetStatus
    } else if method == "POST"@ && path == "/status"@ {
        Route::PostStatus
    } else {
        Route::NotFound
    }
}

/// The method and path of a request, from the bytes at its start (decoded
/// with replacement of invalid UTF-8); a missing word is empty.
pub fn request_target(head: &[u8]) -> (r: (String, String))
    ensures
        r.0@ == request_method(decode_replacing(head@)),
        r.1@ == request_path(decode_replacing(head@)),
{
    let text = decode_lossy(head);
    let v = chars_of(text.as_str());
    let n = v.len();
    let e = line_end_at(&v, 0, n);
    let a = skip_spaces_at(&v, 0, e);
    let b = word_end_at(&v, a, e);
    let c = skip_spaces_at(&v, b, e);
    let d = word_end_at(&v, c, e);
    proof {
        let s = v@;
        assert(s.subrange(0, n as int) =~= s);
        assert(s.take(line_end(s) as int) =~= s.subrange(0, e as int));
        let t = s.subrange(a as int, e as int);
        assert(t.take(word_end(t) as int) =~= s.subrange(a as int, b as int));
        assert(t.skip(word_end(t) as int) =~= s.subrange(b as int, e as int));
        let u = s.subrange(c as int, e as int);
        assert(u.take(word_end(u) as int) =~= s.subrange(c as int, d as int));
    }
    (string_of(&v, a, b), string_of(&v, c, d))
}

/// The route of a request with this method and path.
pub fn route_request(method: &str, path: &str) -> (r: Route)
    ensures
        r == route_of(method@, path@),
{
    let m = chars_of(method);
    let p = chars_of(path);
    let to_status = same_chars(&p, &chars_of("/status"));
    if same_chars(&m, &chars_of("GET")) && to_status {
        Route::GetStatus
    } else if same_chars(&m, &chars_of("POST")) && to_status {
        Route::PostStatus
    } else {
        Route::NotFound
    }
}

// ── Replies ────────────────────────────────────────────────────────

/// The answer to a request, before it is written as JSON.
#[derive(Clone, Debug)]
pub enum HttpReply {
    /// `GET /status`: the whole current state.
    Status(StatePayload),
    /// `POST /status` accepted: the mode now shown.
    Updated { mode: String },
    /// `POST /status` whose body could not be read as JSON.
    InvalidBody,
    /// Any other request.
    NoRoute,
}

pub open spec fn status_line_of(r: HttpReply) -> Seq<char> {
    match r {
        HttpReply::Status(_) => "200 OK"@,
        HttpReply::Updated { .. } => "200 OK"@,
        HttpReply::InvalidBody => "400 Bad Request"@,
        HttpReply::NoRoute => "404 Not Found"@,
    }
}

pub open spec fn error_text_of(r: HttpReply) -> Option<Seq<char>> {
    match r {
        HttpReply::InvalidBody => Some("无效的 JSON 请求体"@),
        HttpReply::NoRoute => Some("未找到路由"@),
        _ => None,
    }
}

impl HttpReply {
    /// The status line of the reply (`200 OK`, ...).
    pub fn status_line(&self) -> (s: &'static str)
        ensures
            s@ == status_line_of(*self),
    {
        match self {
            HttpReply::Status(_) => "200 OK",
            HttpReply::Updated { .. } => "200 OK",
            HttpReply::InvalidBody => "400 Bad Request",
            HttpReply::NoRoute => "404 Not Found",
        }
    }

    /// The error text that a refusal carries.
    pub fn error_text(&self) -> (s: Option<&'static str>)
        ensures
            match error_text_of(*self) {
                Some(t) => s matches Some(x) && x@ == t,
                None => s is None,
            },
    {
        match self {
            HttpReply::InvalidBody => Some("无效的 JSON 请求体"),
            HttpReply::NoRoute => Some("未找到路由"),
            _ => None,
        }
    }
}

/// The reply to `GET /status`.
pub fn status_reply(data: &AppData, auto_start: bool) -> (r: HttpReply)
    ensures
        r matches HttpReply::Status(p) && p@ == payload_of(data@, auto_start),
{
    HttpReply::Status(get_state(data, auto_start))
}

/// The outcome of an accepted report: what the window is told, and the
/// reply.
#[derive(Clone, Debug)]
pub struct StatusChange {
    pub event: StatePayload,
    pub reply: HttpReply,
}

/// Records a status report received at `received_at` and says what to
/// tell the window and the reporter.
pub fn apply_status(data: &mut AppData, request: &StatusRequest, received_at: String, auto_start:
    bool) -> (c: StatusChange)
    ensures
        final(data)@ == after_report(
            old(data)@,
            opt_text(request.mode),
            opt_text(request.message),
            received_at@,
        ),
        c.event@ == payload_of(final(data)@, auto_start),
        c.reply matches HttpReply::Updated { mode } && mode@ == mode_name(
            reported_mode(opt_text(request.mode)),
        ),
{
    let mode = match &request.mode {
        Some(m) => Some(m.as_str()),
        None => None,
    };
    let message = match &request.message {
        Some(t) => Some(t.as_str()),
        None => None,
    };
    let state = reported_state(mode, message, received_at);
    let reply_mode = state.mode.clone();
    data.current_state = state;
    let event = get_state(data, auto_start);
    StatusChange { event, reply: HttpReply::Updated { mode: reply_mode } }
}

/// Records a status report received now.
pub fn handle_http(data: &mut AppData, request: &StatusRequest, auto_start: bool) -> (c:
    StatusChange)
    ensures
        exists|t: u64|
            final(data)@ == after_report(
                old(data)@,
                opt_text(request.mode),
                opt_text(request.message),
                decimal(t as nat),
            ),
        c.event@ == payload_of(final(data)@, auto_start),
        c.reply matches HttpReply::Updated { mode } && mode@ == mode_name(
            reported_mode(opt_text(request.mode)),
        ),
{
    let now = crate::status::now_iso();
    apply_status(data, request, now, auto_start)
}

/// The answer to `POST /status`: a body that could not be read as JSON is
/// refused with `400 Bad Request` and changes nothing; a report is
/// recorded, and the window is to be told the new state.
pub fn post_status(data: &mut AppData, request: Option<StatusRequest>, auto_start: bool) -> (r: (
    HttpReply,
    Option<StatePayload>,
))
    ensures
        match request {
            None => {
                &&& r.0 is InvalidBody
                &&& r.1 is None
                &&& final(data)@ == old(data)@
            },
            Some(q) => {
                &&& exists|t: u64|
                    final(data)@ == after_report(
                        old(data)@,
                        opt_text(q.mode),
                        opt_text(q.message),
                        decimal(t as nat),
                    )
                &&& r.1 matches Some(e) && e@ == payload_of(final(data)@, auto_start)
                &&& r.0 matches HttpReply::Updated { mode } && mode@ == mode_name(
                    reported_mode(opt_text(q.mode)),
                )
            },
        },
{
    match request {
        None => (HttpReply::InvalidBody, None),
        Some(q) => {
            let change = handle_http(data, &q, auto_start);
            (change.reply, Some(change.event))
        },
    }
}

// ── Reading a request body ─────────────────────────────────────────

/// Bytes `i..i+4` of `b` are `\r\n\r\n`, the end of the headers.
pub open spec fn blank_line_at(b: Seq<u8>, i: int) -> bool {
    &&& 0 <= i
    &&& i + 4 <= b.len()
    &&& b[i] == 13 && b[i + 1] == 10 && b[i + 2] == 13 && b[i + 3] == 10
}

/// The first `i >= from` where `b` holds `\r\n\r\n`.
pub open spec fn blank_line_from(b: Seq<u8>, from: int) -> Option<int>
    decreases b.len() - from,
{
    if from < 0 || from + 4 > b.len() {
        None
    } else if blank_line_at(b, from) {
        Some(from)
    } else {
        blank_line_from(b, from + 1)
    }
}

/// Where `b` first holds `\r\n\r\n`.
pub open spec fn blank_line(b: Seq<u8>) -> Option<int> {
    blank_line_from(b, 0)
}

/// The value of a `Content-Length` header line: the line starts with
/// `content-length:` in any ASCII case, and the rest, trimmed, parses as a
/// `usize`. (Lower-casing the rest of the line as well would change no
/// character that a `usize` may be written with.)
pub open spec fn header_value(line: Seq<char>) -> Option<nat> {
    if line.len() >= 15 && lower_eq(line.take(15), "content-length:"@) {
        parse_usize(trim(line.skip(15)))
    } else {
        None
    }
}

/// The value of the first line of `s` that is a well-formed
/// `Content-Length` header.
pub open spec fn content_length_in(s: Seq<char>) -> Option<nat>
    decreases s.len(),
{
    let e = line_end(s) as int;
    match header_value(s.take(e)) {
        Some(v) => Some(v),
        None => if e < s.len() {
            content_length_in(s.skip(e + 1))
        } else {
            None
        },
    }
}

/// The body length that the headers in `s` announce, 0 when none does.
pub open spec fn content_length(s: Seq<char>) -> nat {
    match content_length_in(s) {
        Some(v) => v,
        None => 0,
    }
}

/// The text after byte `header_end` of the decoded buffer, when that
/// offset falls on a character boundary.
pub open spec fn body_after(buffer: Seq<u8>, header_end: int) -> Option<Seq<char>> {
    let bytes = encode_utf8(decode_replacing(buffer));
    if is_char_boundary(bytes, header_end) {
        Some(decode_utf8(bytes.subrange(header_end, bytes.len() as int)))
    } else {
        None
    }
}

/// The report that the body after `header_end` holds.
pub open spec fn request_after(buffer: Seq<u8>, header_end: int) -> Option<
    (Option<Seq<char>>, Option<Seq<char>>),
> {
    match body_after(buffer, header_end) {
        Some(b) => json_status_fields(b),
        None => None,
    }
}

/// Where a reader is: still looking for the end of the headers, or
/// waiting until the buffer holds `wanted` bytes.
#[derive(Clone, Copy, Debug, PartialEq, Eq, Structural)]
pub enum ReadPhase {
    Headers,
    Body { header_end: usize, wanted: usize },
}

/// What to do after a chunk: read on, or stop with the report read (none
/// when the body is missing or not JSON).
#[derive(Debug)]
pub enum ReadStep {
    ReadMore,
    Done(Option<StatusRequest>),
}

/// The step is `Done` with exactly the report `want`.
pub open spec fn done_with(r: ReadStep, want: Option<(Option<Seq<char>>, Option<Seq<char>>)>) -> bool {
    match r {
        ReadStep::Done(Some(q)) => want == Some((opt_text(q.mode), opt_text(q.message))),
        ReadStep::Done(None) => want is None,
        ReadStep::ReadMore => false,
    }
}

/// Reads the body of a `POST` request chunk by chunk. The caller hands it
/// every chunk it reads, an empty one at the end of the stream, and stops
/// at the first `Done`; a failed read ends the request without a report.
pub struct BodyReader {
    buffer: Vec<u8>,
    phase: ReadPhase,
}

/// What the reader does after the headers are complete in `b`: the
/// offset just after them in the decoded text, and the buffer length from
/// which the body counts as read (the sum wraps, as `usize` addition does
/// in a release build).
pub open spec fn body_phase_of(b: Seq<u8>) -> Option<ReadPhase> {
    let text = decode_replacing(b);
    match blank_line(encode_utf8(text)) {
        Some(i) => {
            let cl = content_length(text);
            if i + 4 <= usize::MAX && cl <= usize::MAX {
                Some(ReadPhase::Body {
                    header_end: (i + 4) as usize,
                    wanted: vstd::wrapping::usize_specs::wrapping_add((i + 4) as usize, cl as usize),
                })
            } else {
                None
            }
        },
        None => None,
    }
}

impl BodyReader {
    /// The bytes read so far.
    pub closed spec fn buffered(&self) -> Seq<u8> {
        self.buffer@
    }

    pub closed spec fn phase(&self) -> ReadPhase {
        self.phase
    }

    pub fn new() -> (r: BodyReader)
        ensures
            r.buffered() == Seq::<u8>::empty(),
            r.phase() == ReadPhase::Headers,
    {
        BodyReader { buffer: Vec::new(), phase: ReadPhase::Headers }
    }

    /// Takes the next chunk of the stream (empty at its end).
    pub fn feed(&mut self, chunk: &[u8]) -> (r: ReadStep)
        ensures
            match old(self).phase() {
                ReadPhase::Headers => if chunk@.len() == 0 {
                    done_with(r, None)
                } else {
                    let b = old(self).buffered() + chunk@;
                    &&& final(self).buffered() == b
                    &&& match blank_line(b) {
                        None => r is ReadMore && final(self).phase() == ReadPhase::Headers,
                        Some(_) => match body_phase_of(b) {
                            None => done_with(r, None),
                            Some(p) => {
                                &&& final(self).phase() == p
                                &&& p matches ReadPhase::Body { header_end, wanted }
                                &&& if b.len() >= wanted {
                                    done_with(r, request_after(b, header_end as int))
                                } else {
                                    r is ReadMore
                                }
                            },
                        },
                    }
                },
                ReadPhase::Body { header_end, wanted } => if chunk@.len() == 0 {
                    done_with(r, request_after(old(self).buffered(), header_end as int))
                } else {
                    let b = old(self).buffered() + chunk@;
                    &&& final(self).buffered() == b
                    &&& final(self).phase() == old(self).phase()
                    &&& if b.len() >= wanted {
                        done_with(r, request_after(b, header_end as int))
                    } else {
                        r is ReadMore
                    }
                },
            },
    {
        match self.phase {
            ReadPhase::Headers => {
                if chunk.len() == 0 {
                    return ReadStep::Done(None);
                }
                append_bytes(&mut self.buffer, chunk);
                if find_blank_line(&self.buffer).is_none() {
                    return ReadStep::ReadMore;
                }
                let text = decode_lossy(&self.buffer);
                let bytes = text.as_str().as_bytes();
                assert(bytes@ == encode_utf8(decode_replacing(self.buffer@)));
                let header_end = match find_blank_line(bytes) {
                    Some(i) => {
                        if i > usize::MAX - 4 {
                            return ReadStep::Done(None);
                        }
                        i + 4
                    },
                    None => {
                        return ReadStep::Done(None);
                    },
                };
                let v = chars_of(text.as_str());
                let cl = content_length_of(&v);
                let wanted = header_end.wrapping_add(cl);
                self.phase = ReadPhase::Body { header_end, wanted };
                if self.buffer.len() >= wanted {
                    ReadStep::Done(self.request_after(header_end))
                } else {
                    ReadStep::ReadMore
                }
            },
            ReadPhase::Body { header_end, wanted } => {
                if chunk.len() == 0 {
                    return ReadStep::Done(self.request_after(header_end));
                }
                append_bytes(&mut self.buffer, chunk);
                if self.buffer.len() >= wanted {
                    ReadStep::Done(self.request_after(header_end))
                } else {
                    ReadStep::ReadMore
                }
            },
        }
    }

    /// The report in the text after `header_end`.
    fn request_after(&self, header_end: usize) -> (r: Option<StatusRequest>)
        ensures
            done_with(ReadStep::Done(r), request_after(self.buffered(), header_end as int)),
    {
        let full = decode_lossy(&self.buffer);
        if full.is_char_boundary(header_end) {
            let (_, body) = full.split_at(header_end);
            proof {
                let bytes = encode_utf8(full@);
                assert(encode_utf8(body@) == bytes.subrange(header_end as int, bytes.len() as int));
            }
            decode_status_body(body)
        } else {
            None
        }
    }
}

/// Appends `chunk` to `buffer`.
fn append_bytes(buffer: &mut Vec<u8>, chunk: &[u8])
    ensures
        final(buffer)@ == old(buffer)@ + chunk@,
{
    let mut i: usize = 0;
    while i < chunk.len()
        invariant
            0 <= i <= chunk@.len(),
            buffer@ == old(buffer)@ + chunk@.take(i as int),
        decreases chunk@.len() - i,
    {
        buffer.push(chunk[i]);
        assert(chunk@.take(i + 1) =~= chunk@.take(i as int).push(chunk@[i as int]));
        i = i + 1;
    }
    assert(chunk@.take(chunk@.len() as int) =~= chunk@);
}

/// An ASCII request whose headers announce exactly the length of the body
/// that follows them is read whole: the reader wants every byte of it, and
/// the report it yields is what the body's JSON holds.
pub proof fn lemma_announced_body_is_read(t: Seq<char>, k: int)
    requires
        is_ascii_chars(t),
        t.len() <= usize::MAX,
        blank_line(encode_utf8(t)) == Some(k),
        content_length(t) == t.len() - (k + 4),
    ensures
        body_phase_of(encode_utf8(t)) == Some(
            ReadPhase::Body { header_end: (k + 4) as usize, wanted: t.len() as usize },
        ),
        request_after(encode_utf8(t), k + 4) == json_status_fields(t.skip(k + 4)),
{
    let b = encode_utf8(t);
    is_ascii_chars_encode_utf8(t);
    assert(decode_replacing(b) == t);
    lemma_blank_line_bounds(b, 0);
    let he = k + 4;
    assert(0 <= k && he <= b.len());
    assert(vstd::wrapping::usize_specs::wrapping_add(he as usize, content_length(t) as usize)
        == t.len() as usize);
    assert(is_char_boundary(b, he)) by {
        if he < b.len() {
            is_char_boundary_iff_not_is_continuation_byte(b, he);
            assert(t[he] as u8 == b[he]);
        } else {
            is_char_boundary_start_end_of_seq(b);
        }
    }
    let rest = t.skip(he);
    is_ascii_chars_encode_utf8(rest);
    assert(is_ascii_chars(rest));
    assert(b.subrange(he, b.len() as int) =~= encode_utf8(rest)) by {
        assert forall|i: int| 0 <= i < rest.len() implies #[trigger] encode_utf8(rest)[i] == b[he
            + i] by {
            assert(rest[i] == t[he + i]);
        }
    }
}

/// The end of the headers is the first place where the bytes hold
/// `\r\n\r\n`; there is none only when they hold it nowhere.
pub proof fn lemma_blank_line_is_first(b: Seq<u8>)
    ensures
        match blank_line(b) {
            Some(i) => {
                &&& 0 <= i && i + 4 <= b.len()
                &&& b.subrange(i, i + 4) == seq![13u8, 10u8, 13u8, 10u8]
                &&& forall|j: int|
                    #![trigger b.subrange(j, j + 4)]
                    0 <= j < i ==> b.subrange(j, j + 4) != seq![13u8, 10u8, 13u8, 10u8]
            },
            None => forall|j: int|
                #![trigger b.subrange(j, j + 4)]
                0 <= j && j + 4 <= b.len() ==> b.subrange(j, j + 4) != seq![13u8, 10u8, 13u8, 10u8],
        },
{
    lemma_blank_line_first_from(b, 0);
    let crlf2 = seq![13u8, 10u8, 13u8, 10u8];
    assert forall|j: int| #![trigger b.subrange(j, j + 4)]
        0 <= j && j + 4 <= b.len() && b.subrange(j, j + 4) == crlf2 implies blank_line_at(b, j) by {
        let w = b.subrange(j, j + 4);
        assert(w[0] == b[j] && w[1] == b[j + 1] && w[2] == b[j + 2] && w[3] == b[j + 3]);
    }
    if let Some(i) = blank_line(b) {
        assert(b.subrange(i, i + 4) =~= crlf2);
    }
}

proof fn lemma_blank_line_first_from(b: Seq<u8>, from: int)
    requires
        0 <= from,
    ensures
        match blank_line_from(b, from) {
            Some(i) => from <= i && blank_line_at(b, i) && forall|j: int|
                from <= j < i ==> !#[trigger] blank_line_at(b, j),
            None => forall|j: int| from <= j ==> !#[trigger] blank_line_at(b, j),
        },
    decreases b.len() - from,
{
    if from + 4 <= b.len() && !blank_line_at(b, from) {
        lemma_blank_line_first_from(b, from + 1);
    }
}

/// Where `blank_line_from` finds the end of the headers, the bytes hold it.
proof fn lemma_blank_line_bounds(b: Seq<u8>, from: int)
    ensures
        blank_line_from(b, from) matches Some(i) ==> from <= i && blank_line_at(b, i),
    decreases b.len() - from,
{
    if from >= 0 && from + 4 <= b.len() && !blank_line_at(b, from) {
        lemma_blank_line_bounds(b, from + 1);
    }
}

/// Where `b` first holds `\r\n\r\n`.
fn find_blank_line(b: &[u8]) -> (r: Option<usize>)
    ensures
        match r {
            Some(j) => blank_line(b@) == Some(j as int),
            None => blank_line(b@) is None,
        },
{
    let mut i: usize = 0;
    while i < b.len() && b.len() - i >= 4
        invariant
            0 <= i,
            blank_line(b@) == blank_line_from(b@, i as int),
        decreases b@.len() + 4 - i,
    {
        if b[i] == 13 && b[i + 1] == 10 && b[i + 2] == 13 && b[i + 3] == 10 {
            return Some(i);
        }
        i = i + 1;
    }
    None
}

/// `header_value` of the line `v[from..to]`.
fn header_value_at(v: &[char], from: usize, to: usize) -> (r: Option<usize>)
    requires
        from <= to <= v@.len(),
    ensures
        match header_value(v@.subrange(from as int, to as int)) {
            Some(n) => r == Some(n as usize),
            None => r is None,
        },
{
    let ghost line = v@.subrange(from as int, to as int);
    if to - from < 15 {
        return None;
    }
    if !lower_eq_at(v, from, from + 15, &chars_of("content-length:")) {
        assert(line.take(15) =~= v@.subrange(from as int, from + 15));
        return None;
    }
    assert(line.take(15) =~= v@.subrange(from as int, from + 15));
    assert(line.skip(15) =~= v@.subrange(from + 15, to as int));
    let (a, b) = trim_bounds(v, from + 15, to);
    parse_usize_at(v, a, b)
}

/// `content_length` of the text `v`.
fn content_length_of(v: &[char]) -> (r: usize)
    ensures
        r == content_length(v@),
{
    let n = v.len();
    let mut pos: usize = 0;
    assert(v@.subrange(0, n as int) =~= v@);
    loop
        invariant
            pos <= n == v@.len(),
            content_length_in(v@) == content_length_in(v@.subrange(pos as int, n as int)),
        decreases n - pos,
    {
        let ghost s = v@.subrange(pos as int, n as int);
        let e = line_end_at(v, pos, n);
        assert(s.take(e - pos) =~= v@.subrange(pos as int, e as int));
        match header_value_at(v, pos, e) {
            Some(x) => {
                return x;
            },
            None => {
                if e < n {
                    assert(s.skip(e - pos + 1) =~= v@.subrange(e + 1, n as int));
                    pos = e + 1;
                } else {
                    return 0;
                }
            },
        }
    }
}

// ── Laws of the header and framing text ───────────────────────────

/// `s` holds no line break.
pub open spec fn single_line(s: Seq<char>) -> bool {
    forall|i: int| 0 <= i < s.len() ==> s[i] != '\n'
}

proof fn lemma_line_end_concat(a: Seq<char>, b: Seq<char>)
    requires
        single_line(a),
    ensures
        line_end(a + b) == a.len() + line_end(b),
    decreases a.len(),
{
    if a.len() == 0 {
        assert(a + b =~= b);
    } else {
        assert((a + b).drop_first() =~= a.drop_first() + b);
        assert((a + b)[0] == a[0]);
        lemma_line_end_concat(a.drop_first(), b);
    }
}

/// A line with no `Content-Length` header is passed over.
proof fn lemma_skip_line(line: Seq<char>, rest: Seq<char>)
    requires
        single_line(line),
        header_value(line) is None,
    ensures
        content_length_in(line + "\n"@ + rest) == content_length_in(rest),
{
    reveal_strlit("\n");
    let t = line + "\n"@ + rest;
    lemma_line_end_concat(line, "\n"@ + rest);
    assert(line_end("\n"@ + rest) == 0);
    assert(t =~= line + ("\n"@ + rest));
    assert(line_end(t) == line.len());
    assert(t.take(line.len() as int) =~= line);
    assert(t.skip(line.len() + 1int) =~= rest);
    assert(header_value(t.take(line_end(t) as int)) is None);
    assert(line_end(t) < t.len());
    assert(content_length_in(t) == content_length_in(t.skip(line_end(t) as int + 1)));
}

/// ` d\r` trims to `d` when `d` is a decimal number.
proof fn lemma_trim_number(n: nat)
    ensures
        trim(" "@ + decimal(n) + "\r"@) == decimal(n),
{
    reveal_strlit(" ");
    reveal_strlit("\r");
    lemma_decimal_digits(n);
    let d = decimal(n);
    let s = " "@ + d + "\r"@;
    let u = d + "\r"@;
    assert(s.drop_first() =~= u);
    assert(s[0] == ' ');
    assert(is_space(s[0]));
    assert(trim_start(s) == trim_start(u));
    assert(u[0] == d[0]);
    assert(is_digit(u[0]));
    assert(!is_space(u[0]));
    assert(trim_start(u) == u);
    assert(u.drop_last() =~= d);
    assert(u.last() == '\r');
    assert(is_space(u.last()));
    assert(trim_end(u) == trim_end(d));
    assert(is_digit(d.last()));
    assert(!is_space(d.last()));
    assert(trim_end(d) == d);
}

/// A header line `Content-Length: n` (the name in any ASCII case) is read
/// as `n`: whatever follows it, the headers announce exactly `n` bytes.
pub proof fn lemma_content_length_line(key: Seq<char>, n: nat, rest: Seq<char>)
    requires
        key.len() == 15,
        lower_eq(key, "content-length:"@),
        n <= usize::MAX,
    ensures
        content_length(key + " "@ + decimal(n) + "\r\n"@ + rest) == n,
        content_length_in(key + " "@ + decimal(n) + "\r\n"@ + rest) == Some(n),
{
    reveal_strlit("content-length:");
    reveal_strlit(" ");
    reveal_strlit("\r");
    reveal_strlit("\r\n");
    lemma_decimal_digits(n);
    let d = decimal(n);
    let line = key + " "@ + d + "\r"@;
    assert(single_line(line)) by {
        assert forall|i: int| 0 <= i < line.len() implies line[i] != '\n' by {
            if i < 15 {
                assert(lower_code(key[i]) == "content-length:"@[i] as u32);
                assert(line[i] == key[i]);
            } else if i == 15 {
            } else if i < 16 + d.len() {
                assert(line[i] == d[i - 16]);
                assert(is_digit(d[i - 16]));
            } else {
            }
        }
    }
    let t = key + " "@ + d + "\r\n"@ + rest;
    assert(t =~= line + "\n"@ + rest) by {
        reveal_strlit("\n");
    }
    lemma_line_end_concat(line, "\n"@ + rest);
    reveal_strlit("\n");
    assert(line_end("\n"@ + rest) == 0);
    assert(t.take(line.len() as int) =~= line);
    assert(line.take(15) =~= key);
    assert(line.skip(15) =~= " "@ + d + "\r"@);
    lemma_trim_number(n);
    lemma_parse_decimal(n);
    assert(header_value(line) == Some(n));
    assert(t =~= line + ("\n"@ + rest));
    assert(line_end(t) == line.len());
    assert(header_value(t.take(line_end(t) as int)) == Some(n));
}

/// The status line of a framed response carries the given status, the
/// response ends with the body, and its headers announce the body's
/// length in UTF-8 bytes to a reader of `Content-Length`.
pub proof fn lemma_response_framing(status: Seq<char>, body: Seq<char>)
    requires
        single_line(status),
        encode_utf8(body).len() <= usize::MAX,
    ensures
        response_text(status, body).take(9int + status.len()) == "HTTP/1.1 "@ + status,
        response_text(status, body).skip(response_text(status, body).len() - body.len()) == body,
        response_text(status, body).subrange(
            9int + status.len(),
            9int + status.len() + 32,
        ) == "\r\nContent-Type: application/json"@,
        response_text(status, body).subrange(
            response_text(status, body).len() - body.len() - 36,
            response_text(status, body).len() - body.len() as int,
        ) == "\r\nAccess-Control-Allow-Origin: *\r\n\r\n"@,
        content_length(response_text(status, body)) == encode_utf8(body).len(),
{
    reveal_strlit("HTTP/1.1 ");
    reveal_strlit("\r\nContent-Type: application/json\r\nContent-Length: ");
    reveal_strlit("\r\nConnection: close\r\nAccess-Control-Allow-Origin: *\r\n\r\n");
    reveal_strlit("\r");
    reveal_strlit("\n");
    reveal_strlit("\r\n");
    reveal_strlit(" ");
    reveal_strlit("Content-Type: application/json\r");
    reveal_strlit("Content-Length:");
    reveal_strlit("content-length:");
    reveal_strlit("Connection: close\r\nAccess-Control-Allow-Origin: *\r\n\r\n");
    let n = encode_utf8(body).len();
    let d = decimal(n);
    let r = response_text(status, body);
    let tail = "Connection: close\r\nAccess-Control-Allow-Origin: *\r\n\r\n"@ + body;
    let line1 = "HTTP/1.1 "@ + status + "\r"@;
    let line2 = "Content-Type: application/json\r"@;
    let rest3 = "Content-Length:"@ + " "@ + d + "\r\n"@ + tail;
    let rest2 = line2 + "\n"@ + rest3;
    assert(r =~= line1 + "\n"@ + rest2);
    assert(r.take(9int + status.len()) =~= "HTTP/1.1 "@ + status);
    assert(r.skip(r.len() - body.len()) =~= body);
    reveal_strlit("\r\nContent-Type: application/json");
    reveal_strlit("\r\nAccess-Control-Allow-Origin: *\r\n\r\n");
    assert(r.subrange(9int + status.len(), 9int + status.len() + 32)
        =~= "\r\nContent-Type: application/json"@);
    assert(r.subrange(r.len() - body.len() - 36, r.len() - body.len() as int)
        =~= "\r\nAccess-Control-Allow-Origin: *\r\n\r\n"@);
    assert(single_line(line1)) by {
        assert forall|i: int| 0 <= i < line1.len() implies line1[i] != '\n' by {
            if 9 <= i < 9 + status.len() {
                assert(line1[i] == status[i - 9]);
            }
        }
    }
    assert(header_value(line1) is None) by {
        if line1.len() >= 15 {
            assert(line1.take(15)[0] == 'H');
            assert(lower_code(line1.take(15)[0]) != "content-length:"@[0] as u32);
        }
    }
    assert(single_line(line2));
    assert(header_value(line2) is None) by {
        assert(line2.take(15)[8] == 'T');
        assert(lower_code(line2.take(15)[8]) != "content-length:"@[8] as u32);
    }
    lemma_skip_line(line1, rest2);
    lemma_skip_line(line2, rest3);
    assert(lower_eq("Content-Length:"@, "content-length:"@));
    lemma_content_length_line("Content-Length:"@, n, tail);
}

/// A request is routed to the status operations only when its path is
/// exactly `/status`, and then by its method alone.
pub proof fn lemma_routes(method: Seq<char>, path: Seq<char>)
    ensures
        path != "/status"@ ==> route_of(method, path) == Route::NotFound,
        route_of(method, path) == Route::GetStatus <==> (method == "GET"@ && path == "/status"@),
        route_of(method, path) == Route::PostStatus <==> (method == "POST"@ && path
            == "/status"@),
        route_of(method, path) == Route::NotFound <==> !(path == "/status"@ && (method == "GET"@
            || method == "POST"@)),
{
    reveal_strlit("GET");
    reveal_strlit("POST");
    assert("GET"@.len() != "POST"@.len());
}

proof fn lemma_line_end_bound(s: Seq<char>)
    ensures
        line_end(s) <= s.len(),
    decreases s.len(),
{
    if s.len() > 0 && s[0] != '\n' {
        lemma_line_end_bound(s.drop_first());
    }
}

/// `s` holds no whitespace.
pub open spec fn is_word(s: Seq<char>) -> bool {
    forall|i: int| 0 <= i < s.len() ==> !is_space(#[trigger] s[i])
}

proof fn lemma_word_end_concat(a: Seq<char>, b: Seq<char>)
    requires
        is_word(a),
    ensures
        word_end(a + b) == a.len() + word_end(b),
    decreases a.len(),
{
    if a.len() == 0 {
        assert(a + b =~= b);
    } else {
        assert((a + b).drop_first() =~= a.drop_first() + b);
        assert((a + b)[0] == a[0]);
        assert(!is_space(a[0]));
        lemma_word_end_concat(a.drop_first(), b);
    }
}

/// A request line `METHOD PATH ...` is read as its method and its path,
/// whatever follows them.
pub proof fn lemma_request_line(method: Seq<char>, path: Seq<char>, rest: Seq<char>)
    requires
        method.len() > 0,
        path.len() > 0,
        is_word(method),
        is_word(path),
    ensures
        request_method(method + " "@ + path + " "@ + rest) == method,
        request_path(method + " "@ + path + " "@ + rest) == path,
{
    reveal_strlit(" ");
    let s = method + " "@ + path + " "@ + rest;
    let head = method + " "@ + path + " "@;
    assert(single_line(head)) by {
        assert forall|i: int| 0 <= i < head.len() implies head[i] != '\n' by {
            if i < method.len() {
                assert(head[i] == method[i]);
                assert(!is_space(method[i]));
            } else if method.len() < i < method.len() + 1 + path.len() {
                assert(head[i] == path[i - method.len() - 1]);
                assert(!is_space(path[i - method.len() - 1]));
            }
        }
    }
    assert(s =~= head + rest);
    lemma_line_end_concat(head, rest);
    let line = s.take(line_end(s) as int);
    let tail = rest.take(line_end(rest) as int);
    assert(line_end(s) == head.len() + line_end(rest));
    lemma_line_end_bound(rest);
    assert(line =~= head + tail);
    assert(line =~= method + (" "@ + (path + (" "@ + tail))));
    assert(line[0] == method[0]);
    assert(trim_start(line) == line);
    lemma_word_end_concat(method, " "@ + (path + (" "@ + tail)));
    assert(word_end(" "@ + (path + (" "@ + tail))) == 0);
    assert(line.take(method.len() as int) =~= method);
    let after = line.skip(word_end(line) as int);
    assert(after =~= " "@ + (path + (" "@ + tail)));
    assert(after.drop_first() =~= path + (" "@ + tail));
    assert(trim_start(after) == trim_start(after.drop_first()));
    let u = path + (" "@ + tail);
    assert(u[0] == path[0]);
    assert(trim_start(u) == u);
    lemma_word_end_concat(path, " "@ + tail);
    assert(word_end(" "@ + tail) == 0);
    assert(u.take(path.len() as int) =~= path);
}

// ── Response framing ───────────────────────────────────────────────

/// The text of an HTTP response with this status line and JSON body; the
/// `Content-Length` counts the body's UTF-8 bytes.
pub open spec fn response_text(status: Seq<char>, body: Seq<char>) -> Seq<char> {
    "HTTP/1.1 "@ + status + "\r\nContent-Type: application/json\r\nContent-Length: "@ + decimal(
        encode_utf8(body).len(),
    ) + "\r\nConnection: close\r\nAccess-Control-Allow-Origin: *\r\n\r\n"@ + body
}

/// Frames a JSON body as a complete HTTP response.
pub fn http_response(status: &str, body: &str) -> (r: String)
    requires
        encode_utf8(body@).len() <= usize::MAX,
    ensures
        r@ == response_text(status@, body@),
{
    let mut r = String::from_str("HTTP/1.1 ");
    r.append(status);
    r.append("\r\nContent-Type: application/json\r\nContent-Length: ");
    push_decimal(&mut r, body.len() as u64);
    r.append("\r\nConnection: close\r\nAccess-Control-Allow-Origin: *\r\n\r\n");
    r.append(body);
    assert(r@ =~= response_text(status@, body@));
    r
}

} // verus!
