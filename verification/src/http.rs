//! The bounded HTTP/1.1 request reader and response framing for the verifier
//! service: fixed ceilings on the header block and the body,
//! `Connection: close` semantics, and strict parsing that fails closed.
//!
//! The reader is a state machine: the caller performs each read on the
//! connection and hands the outcome to [`RequestReader::feed`], which decides
//! whether another read is needed, the request is complete, or it failed.
use vstd::prelude::*;
use vstd::utf8::encode_utf8;

use crate::text::{
    chars_of, copy_range, decimal_text, push_decimal, decimal_value, lemma_encode_len, lemma_lead_ws_bound, parse_decimal,
    push_char, push_text, skip_ws, skip_ws_back, spec_parse_decimal, trim, utf8_text,
};

verus! {

/// Service failures. Deterministic, non-disciplinary.
#[derive(Debug, Clone, Copy, PartialEq, Eq)]
pub enum HttpError {
    /// The header block exceeded its ceiling.
    HeadersTooLarge,
    /// The body exceeded its ceiling.
    BodyTooLarge,
    /// The request was not a parseable fixed-shape request.
    Malformed(&'static str),
    /// I/O failure.
    Io(&'static str),
}

/// The header-block ceiling.
pub const MAX_HEADER_BLOCK: usize = 4 * 1024;
/// The body ceiling.
pub const MAX_BODY: usize = 64 * 1024;
/// The most requests one connection may carry (the connection closes after
/// one; the counter exists to make that explicit).
pub const MAX_REQUESTS_PER_CONNECTION: u32 = 1;

/// The status line for a verdict-level failure.
pub const STATUS_BAD_REQUEST: &'static str = "400 Bad Request";
pub const STATUS_NOT_FOUND: &'static str = "404 Not Found";
pub const STATUS_METHOD_NOT_ALLOWED: &'static str = "405 Method Not Allowed";
pub const STATUS_OK: &'static str = "200 OK";

/// One parsed request.
#[derive(Debug, Clone, PartialEq, Eq)]
pub struct Request {
    pub method: String,
    pub path: String,
    pub body: Vec<u8>,
}

// ---------------------------------------------------------------------------
// The header block, stated over bytes and characters.
// ---------------------------------------------------------------------------

/// `\r\n\r\n` starts at `p` in `b`.
pub open spec fn blank_line_at(b: Seq<u8>, p: int) -> bool {
    &&& 0 <= p
    &&& p + 4 <= b.len()
    &&& b[p] == 13
    &&& b[p + 1] == 10
    &&& b[p + 2] == 13
    &&& b[p + 3] == 10
}

/// The first position at or after `i` where `\r\n\r\n` starts.
pub open spec fn find_blank_line(b: Seq<u8>, i: int) -> Option<int>
    decreases b.len() - i,
{
    if i < 0 || i + 4 > b.len() {
        None
    } else if blank_line_at(b, i) {
        Some(i)
    } else {
        find_blank_line(b, i + 1)
    }
}

/// `\r\n` starts at `i` in `s`.
pub open spec fn crlf_at(s: Seq<char>, i: int) -> bool {
    0 <= i && i + 1 < s.len() && s[i] == '\r' && s[i + 1] == '\n'
}

/// The end of the line that starts at `i`: the next `\r\n`, or the end.
pub open spec fn line_end(s: Seq<char>, i: int) -> int
    decreases s.len() - i,
{
    if i < 0 || i >= s.len() {
        s.len() as int
    } else if crlf_at(s, i) {
        i
    } else {
        line_end(s, i + 1)
    }
}

/// The first index at or after `i` holding `c`, or the length.
pub open spec fn index_of(s: Seq<char>, c: char, i: int) -> int
    decreases s.len() - i,
{
    if i < 0 || i >= s.len() {
        s.len() as int
    } else if s[i] == c {
        i
    } else {
        index_of(s, c, i + 1)
    }
}

/// The prefix that every accepted protocol version carries.
pub open spec fn version_prefix() -> Seq<char> {
    seq!['H', 'T', 'T', 'P', '/', '1', '.']
}

/// ASCII lower-casing of one character.
pub open spec fn ascii_lower(c: char) -> char {
    if 0x41 <= (c as u32) <= 0x5A {
        ((c as u32) + 0x20) as char
    } else {
        c
    }
}

/// The header name `content-length`.
pub open spec fn content_length_name() -> Seq<char> {
    seq!['c', 'o', 'n', 't', 'e', 'n', 't', '-', 'l', 'e', 'n', 'g', 't', 'h']
}

/// `name` equals `content-length` up to ASCII case.
pub open spec fn is_content_length(name: Seq<char>) -> bool {
    &&& name.len() == content_length_name().len()
    &&& forall|i: int| 0 <= i < name.len() ==> ascii_lower(#[trigger] name[i]) == content_length_name()[i]
}

/// The content length one header line sets, if any.
pub open spec fn header_line(line: Seq<char>) -> Result<Option<nat>, HttpError> {
    let colon = index_of(line, ':', 0);
    if colon >= line.len() {
        Err(HttpError::Malformed("header"))
    } else if is_content_length(line.take(colon)) {
        match spec_parse_decimal(trim(line.skip(colon + 1)), usize::MAX as nat) {
            None => Err(HttpError::Malformed("content-length")),
            Some(v) => Ok(Some(v)),
        }
    } else {
        Ok(None)
    }
}

/// The content length that the header lines from `i` on leave set, starting
/// from `found`; the last content-length header wins.
pub open spec fn scan_headers(s: Seq<char>, i: int, found: Option<nat>) -> Result<Option<nat>, HttpError>
    decreases s.len() + 2 - i,
{
    if i < 0 || i > s.len() {
        Ok(found)
    } else {
        let e = line_end(s, i);
        let line = s.subrange(i, e);
        let step = if line.len() == 0 {
            Ok(found)
        } else {
            match header_line(line) {
                Err(error) => Err(error),
                Ok(None) => Ok(found),
                Ok(Some(v)) => Ok(Some(v)),
            }
        };
        match step {
            Err(error) => Err(error),
            Ok(next) => if e >= s.len() || e < i {
                Ok(next)
            } else {
                scan_headers(s, e + 2, next)
            },
        }
    }
}

/// The method, path and content length of a header block's text.
pub open spec fn spec_parse_head(s: Seq<char>) -> Result<(Seq<char>, Seq<char>, nat), HttpError> {
    let e0 = line_end(s, 0);
    let r = s.take(e0);
    let sp1 = index_of(r, ' ', 0);
    let sp2 = index_of(r, ' ', sp1 + 1);
    let sp3 = index_of(r, ' ', sp2 + 1);
    if sp1 >= r.len() {
        Err(HttpError::Malformed("path"))
    } else if sp2 >= r.len() {
        Err(HttpError::Malformed("version"))
    } else if !(version_prefix().len() <= sp3 - (sp2 + 1) && r.subrange(sp2 + 1, sp2 + 1
        + version_prefix().len()) == version_prefix()) {
        Err(HttpError::Malformed("version"))
    } else {
        let headers = if e0 < s.len() {
            scan_headers(s, e0 + 2, None)
        } else {
            Ok(None)
        };
        match headers {
            Err(error) => Err(error),
            Ok(None) => Err(HttpError::Malformed("content-length required")),
            Ok(Some(length)) => Ok((r.take(sp1), r.subrange(sp1 + 1, sp2), length)),
        }
    }
}

/// The method, path and content length of a header block's bytes.
pub open spec fn spec_parse_head_bytes(b: Seq<u8>) -> Result<(Seq<char>, Seq<char>, nat), HttpError> {
    if !vstd::utf8::valid_utf8(b) {
        Err(HttpError::Malformed("header utf-8"))
    } else {
        spec_parse_head(vstd::utf8::decode_utf8(b))
    }
}

/// The first position where `\r\n\r\n` starts in `buffer`.
pub fn find_double_newline(buffer: &[u8]) -> (r: Option<usize>)
    ensures
        match find_blank_line(buffer@, 0) {
            None => r is None,
            Some(p) => r == Some(p as usize),
        },
        r matches Some(p) ==> p + 4 <= buffer.len() && find_blank_line(buffer@, 0) == Some(p as int),
{
    let mut i: usize = 0;
    while buffer.len() >= 4 && i <= buffer.len() - 4
        invariant
            find_blank_line(buffer@, 0) == find_blank_line(buffer@, i as int),
        decreases buffer.len() - i,
    {
        if buffer[i] == 13 && buffer[i + 1] == 10 && buffer[i + 2] == 13 && buffer[i + 3] == 10 {
            return Some(i);
        }
        i = i + 1;
    }
    None
}

/// The end of the line that starts at `i`.
fn next_line_end(s: &Vec<char>, i: usize) -> (r: usize)
    requires
        i <= s.len(),
    ensures
        r == line_end(s@, i as int),
        i <= r <= s.len(),
{
    let mut j = i;
    while j < s.len() && !(j + 1 < s.len() && s[j] == '\r' && s[j + 1] == '\n')
        invariant
            i <= j <= s.len(),
            line_end(s@, i as int) == line_end(s@, j as int),
        decreases s.len() - j,
    {
        j = j + 1;
    }
    j
}

/// The first index at or after `i` holding `c`, or the length.
fn next_index_of(s: &Vec<char>, c: char, i: usize) -> (r: usize)
    requires
        i <= s.len(),
    ensures
        r == index_of(s@, c, i as int),
        i <= r <= s.len(),
{
    let mut j = i;
    while j < s.len() && s[j] != c
        invariant
            i <= j <= s.len(),
            index_of(s@, c, i as int) == index_of(s@, c, j as int),
        decreases s.len() - j,
    {
        j = j + 1;
    }
    j
}

/// Whether `name` is `content-length` up to ASCII case.
fn names_content_length(name: &Vec<char>) -> (r: bool)
    ensures
        r == is_content_length(name@),
{
    let target: Vec<char> = vec!['c', 'o', 'n', 't', 'e', 'n', 't', '-', 'l', 'e', 'n', 'g', 't', 'h'];
    assert(target@ =~= content_length_name());
    if name.len() != target.len() {
        return false;
    }
    let mut i: usize = 0;
    while i < name.len()
        invariant
            target@ == content_length_name(),
            name.len() == target.len(),
            i <= name.len(),
            forall|j: int| 0 <= j < i ==> ascii_lower(#[trigger] name@[j]) == content_length_name()[j],
        decreases name.len() - i,
    {
        let c = name[i];
        let v = c as u32;
        let lower = if 0x41 <= v && v <= 0x5A {
            (v + 0x20) as u8 as char
        } else {
            c
        };
        proof {
            if 0x41 <= v <= 0x5A {
                let b = (v + 0x20) as u8;
                assert((b as char) as u32 == b as u32);
                assert(((c as u32) + 0x20) as char == b as char) by {
                    vstd::utf8::char_u32_cast(b as char, (c as u32 + 0x20) as u32);
                }
            }
        }
        if lower != target[i] {
            return false;
        }
        i = i + 1;
    }
    true
}

/// The content length one header line sets, if any.
fn parse_header_line(line: &Vec<char>) -> (r: Result<Option<usize>, HttpError>)
    ensures
        match header_line(line@) {
            Err(e) => r == Err::<Option<usize>, HttpError>(e),
            Ok(None) => r == Ok::<Option<usize>, HttpError>(None),
            Ok(Some(v)) => r == Ok::<Option<usize>, HttpError>(Some(v as usize)) && v <= usize::MAX,
        },
{
    let colon = next_index_of(line, ':', 0);
    if colon >= line.len() {
        return Err(HttpError::Malformed("header"));
    }
    let name = copy_range(line, 0, colon);
    assert(name@ =~= line@.take(colon as int));
    if !names_content_length(&name) {
        return Ok(None);
    }
    let value = copy_range(line, colon + 1, line.len());
    assert(value@ =~= line@.skip(colon + 1));
    assert(value@.skip(0) =~= value@);
    let lo = skip_ws(&value, 0);
    let rest = copy_range(&value, lo, value.len());
    assert(rest@ =~= value@.skip(lo as int));
    assert(rest@.take(rest.len() as int) =~= rest@);
    let hi = skip_ws_back(&rest, rest.len());
    let digits = copy_range(&rest, 0, hi);
    assert(digits@ =~= rest@.take(hi as int));
    assert(digits@ == trim(value@));
    match parse_decimal(digits.as_slice(), usize::MAX as u64) {
        None => Err(HttpError::Malformed("content-length")),
        Some(v) => Ok(Some(v as usize)),
    }
}

/// A string holding the characters `s@.subrange(lo, hi)`.
fn string_of(s: &Vec<char>, lo: usize, hi: usize) -> (r: String)
    requires
        lo <= hi <= s.len(),
    ensures
        r@ == s@.subrange(lo as int, hi as int),
{
    let mut out = String::new();
    let mut i = lo;
    while i < hi
        invariant
            lo <= i <= hi <= s.len(),
            out@ == s@.subrange(lo as int, i as int),
        decreases hi - i,
    {
        push_char(&mut out, s[i]);
        i = i + 1;
        assert(out@ =~= s@.subrange(lo as int, i as int));
    }
    out
}

/// Whether `version_prefix()` starts at `start` in `r` before `end`.
fn has_version_prefix(r: &Vec<char>, start: usize, end: usize) -> (b: bool)
    requires
        start <= end <= r.len(),
    ensures
        b == (version_prefix().len() <= end - start && r@.subrange(
            start as int,
            start + version_prefix().len(),
        ) == version_prefix()),
{
    let prefix: Vec<char> = vec!['H', 'T', 'T', 'P', '/', '1', '.'];
    assert(prefix@ =~= version_prefix());
    if end - start < prefix.len() {
        return false;
    }
    let mut k: usize = 0;
    while k < prefix.len()
        invariant
            prefix@ == version_prefix(),
            start + prefix.len() <= end <= r.len(),
            k <= prefix.len(),
            forall|j: int| 0 <= j < k ==> r@[start + j] == #[trigger] prefix@[j],
        decreases prefix.len() - k,
    {
        if r[start + k] != prefix[k] {
            assert(r@.subrange(start as int, start + version_prefix().len())[k as int]
                != version_prefix()[k as int]);
            return false;
        }
        k = k + 1;
    }
    assert(r@.subrange(start as int, start + version_prefix().len()) =~= version_prefix());
    true
}

/// The content length that the header lines from `start` on set.
fn scan_header_lines(s: &Vec<char>, start: usize) -> (r: Result<Option<usize>, HttpError>)
    requires
        start <= s.len(),
    ensures
        match r {
            Err(e) => scan_headers(s@, start as int, None) == Err::<Option<nat>, HttpError>(e),
            Ok(None) => scan_headers(s@, start as int, None) == Ok::<Option<nat>, HttpError>(None),
            Ok(Some(x)) => scan_headers(s@, start as int, None) == Ok::<Option<nat>, HttpError>(
                Some(x as nat),
            ),
        },
{
    let mut found: Option<usize> = None;
    let mut i = start;
    loop
        invariant
            i <= s.len(),
            scan_headers(s@, start as int, None) == scan_headers(
                s@,
                i as int,
                match found {
                    Some(v) => Some(v as nat),
                    None => None,
                },
            ),
        decreases s.len() + 2 - i,
    {
        let ghost before = match found {
            Some(v) => Some(v as nat),
            None => None::<nat>,
        };
        let e = next_line_end(&s, i);
        let line = copy_range(&s, i, e);
        if line.len() > 0 {
            match parse_header_line(&line) {
                Err(error) => return Err(error),
                Ok(None) => {},
                Ok(Some(v)) => {
                    found = Some(v);
                },
            }
        }
        if e >= s.len() {
            return Ok(found);
        }
        proof {
            // A line that ends before the text's end ends at `\r\n`.
            lemma_line_end_crlf(s@, i as int);
        }
        i = e + 2;
    }
}

proof fn lemma_line_end_crlf(s: Seq<char>, i: int)
    requires
        0 <= i <= s.len(),
    ensures
        i <= line_end(s, i) <= s.len(),
        line_end(s, i) < s.len() ==> crlf_at(s, line_end(s, i)),
    decreases s.len() - i,
{
    if i < s.len() && !crlf_at(s, i) {
        lemma_line_end_crlf(s, i + 1);
    }
}

/// The method, path and content length of a header block's text.
fn parse_head_text(s: &Vec<char>) -> (r: Result<(String, String, usize), HttpError>)
    ensures
        match spec_parse_head(s@) {
            Err(e) => r == Err::<(String, String, usize), HttpError>(e),
            Ok((method, path, length)) => r matches Ok((m, p, l)) && m@ == method && p@ == path
                && l == length,
        },
{
    let e0 = next_line_end(s, 0);
    let request_line = copy_range(s, 0, e0);
    assert(request_line@ =~= s@.take(e0 as int));
    let sp1 = next_index_of(&request_line, ' ', 0);
    let sp2 = next_index_of(&request_line, ' ', if sp1 < request_line.len() { sp1 + 1 } else { sp1 });
    if sp1 >= request_line.len() {
        return Err(HttpError::Malformed("path"));
    }
    if sp2 >= request_line.len() {
        return Err(HttpError::Malformed("version"));
    }
    let sp3 = next_index_of(&request_line, ' ', sp2 + 1);
    if !has_version_prefix(&request_line, sp2 + 1, sp3) {
        return Err(HttpError::Malformed("version"));
    }
    proof {
        lemma_line_end_crlf(s@, 0);
    }
    let found = if e0 < s.len() {
        match scan_header_lines(s, e0 + 2) {
            Err(error) => return Err(error),
            Ok(found) => found,
        }
    } else {
        None
    };
    let length = match found {
        None => return Err(HttpError::Malformed("content-length required")),
        Some(length) => length,
    };
    let method = string_of(&request_line, 0, sp1);
    let path = string_of(&request_line, sp1 + 1, sp2);
    assert(request_line@.take(sp1 as int) =~= request_line@.subrange(0, sp1 as int));
    Ok((method, path, length))
}

/// Parses a header block (the bytes before the blank line) into the method,
/// the path and the content length.
pub fn parse_head(head: &[u8]) -> (r: Result<(String, String, usize), HttpError>)
    ensures
        match spec_parse_head_bytes(head@) {
            Err(e) => r == Err::<(String, String, usize), HttpError>(e),
            Ok((method, path, length)) => r matches Ok((m, p, l)) && m@ == method && p@ == path
                && l == length,
        },
{
    let text = match utf8_text(head) {
        Some(text) => text,
        None => return Err(HttpError::Malformed("header utf-8")),
    };
    proof {
        vstd::utf8::encode_utf8_decode_utf8(text@);
    }
    let s = chars_of(text);
    parse_head_text(&s)
}

/// One outcome of a read on the connection.
pub enum ReadEvent {
    /// The read returned these bytes.
    Bytes(Vec<u8>),
    /// The read returned no bytes: the peer closed its side.
    EndOfStream,
    /// The read failed.
    Failed,
}

/// What the reader needs or has produced after an event.
#[derive(Debug)]
pub enum ReadStep {
    /// Another read is needed.
    NeedMore,
    /// The request is complete.
    Complete(Request),
    /// The request failed; the connection closes.
    Failed(HttpError),
}

/// The content of a read outcome.
pub enum SpecEvent {
    Bytes(Seq<u8>),
    EndOfStream,
    Failed,
}

/// The content of a reader step.
pub enum SpecStep {
    NeedMore,
    Complete(Seq<char>, Seq<char>, Seq<u8>),
    Failed(HttpError),
}

/// Where the reader stands.
pub enum ReaderState {
    /// Reading the header block; the bytes read so far.
    Head(Seq<u8>),
    /// Reading the body: method, path, content length, body bytes so far.
    Body(Seq<char>, Seq<char>, nat, Seq<u8>),
    /// A request was produced or refused.
    Done,
}

impl View for ReadEvent {
    type V = SpecEvent;

    open spec fn view(&self) -> SpecEvent {
        match self {
            ReadEvent::Bytes(bytes) => SpecEvent::Bytes(bytes@),
            ReadEvent::EndOfStream => SpecEvent::EndOfStream,
            ReadEvent::Failed => SpecEvent::Failed,
        }
    }
}

impl View for ReadStep {
    type V = SpecStep;

    open spec fn view(&self) -> SpecStep {
        match self {
            ReadStep::NeedMore => SpecStep::NeedMore,
            ReadStep::Complete(request) => SpecStep::Complete(
                request.method@,
                request.path@,
                request.body@,
            ),
            ReadStep::Failed(error) => SpecStep::Failed(*error),
        }
    }
}

/// The reader after the body has grown to `body`.
pub open spec fn body_step(method: Seq<char>, path: Seq<char>, length: nat, body: Seq<u8>) -> (
    ReaderState,
    SpecStep,
) {
    if body.len() > length {
        (ReaderState::Done, SpecStep::Failed(HttpError::Malformed("body past content-length")))
    } else if body.len() == length {
        (ReaderState::Done, SpecStep::Complete(method, path, body))
    } else {
        (ReaderState::Body(method, path, length, body), SpecStep::NeedMore)
    }
}

/// The reader after the header bytes have grown to `buffer`.
pub open spec fn head_step(buffer: Seq<u8>) -> (ReaderState, SpecStep) {
    if buffer.len() > MAX_HEADER_BLOCK {
        (ReaderState::Done, SpecStep::Failed(HttpError::HeadersTooLarge))
    } else {
        match find_blank_line(buffer, 0) {
            None => (ReaderState::Head(buffer), SpecStep::NeedMore),
            Some(p) => match spec_parse_head_bytes(buffer.take(p)) {
                Err(error) => (ReaderState::Done, SpecStep::Failed(error)),
                Ok((method, path, length)) => if length > MAX_BODY {
                    (ReaderState::Done, SpecStep::Failed(HttpError::BodyTooLarge))
                } else {
                    body_step(method, path, length, buffer.skip(p + 4))
                },
            },
        }
    }
}

/// The reader's move on one read outcome.
pub open spec fn reader_step(state: ReaderState, event: SpecEvent) -> (ReaderState, SpecStep) {
    match state {
        ReaderState::Head(buffer) => match event {
            SpecEvent::Failed => (ReaderState::Done, SpecStep::Failed(HttpError::Io("read"))),
            SpecEvent::EndOfStream => (
                ReaderState::Done,
                SpecStep::Failed(HttpError::Malformed("eof in headers")),
            ),
            SpecEvent::Bytes(bytes) => head_step(buffer + bytes),
        },
        ReaderState::Body(method, path, length, body) => match event {
            SpecEvent::Failed => (ReaderState::Done, SpecStep::Failed(HttpError::Io("body read"))),
            SpecEvent::EndOfStream => (
                ReaderState::Done,
                SpecStep::Failed(HttpError::Malformed("eof in body")),
            ),
            SpecEvent::Bytes(bytes) => body_step(method, path, length, body + bytes),
        },
        ReaderState::Done => (ReaderState::Done, SpecStep::Failed(HttpError::Malformed("closed"))),
    }
}

enum Stage {
    Head(Vec<u8>),
    Body(String, String, usize, Vec<u8>),
    Done,
}

/// Reads exactly one request from the outcomes of the reads on a
/// connection. The connection is closed after the response regardless.
pub struct RequestReader {
    stage: Stage,
}

impl View for RequestReader {
    type V = ReaderState;

    closed spec fn view(&self) -> ReaderState {
        match &self.stage {
            Stage::Head(buffer) => ReaderState::Head(buffer@),
            Stage::Body(method, path, length, body) => ReaderState::Body(
                method@,
                path@,
                *length as nat,
                body@,
            ),
            Stage::Done => ReaderState::Done,
        }
    }
}

impl RequestReader {
    /// A reader that has read nothing yet.
    pub fn new() -> (r: RequestReader)
        ensures
            r@ == ReaderState::Head(Seq::<u8>::empty()),
    {
        RequestReader { stage: Stage::Head(Vec::new()) }
    }

    /// Whether the reader still expects reads.
    pub fn is_reading(&self) -> (r: bool)
        ensures
            r == !(self@ is Done),
    {
        !matches!(self.stage, Stage::Done)
    }

    fn body_progress(method: String, path: String, length: usize, body: Vec<u8>) -> (r: (
        Stage,
        ReadStep,
    ))
        ensures
            ((RequestReader { stage: r.0 })@, r.1@) == body_step(
                method@,
                path@,
                length as nat,
                body@,
            ),
    {
        if body.len() > length {
            (Stage::Done, ReadStep::Failed(HttpError::Malformed("body past content-length")))
        } else if body.len() == length {
            (Stage::Done, ReadStep::Complete(Request { method, path, body }))
        } else {
            (Stage::Body(method, path, length, body), ReadStep::NeedMore)
        }
    }

    fn head_progress(buffer: Vec<u8>) -> (r: (Stage, ReadStep))
        ensures
            ((RequestReader { stage: r.0 })@, r.1@) == head_step(buffer@),
    {
        if buffer.len() > MAX_HEADER_BLOCK {
            return (Stage::Done, ReadStep::Failed(HttpError::HeadersTooLarge));
        }
        match find_double_newline(buffer.as_slice()) {
            None => (Stage::Head(buffer), ReadStep::NeedMore),
            Some(header_end) => {
                let mut head = buffer;
                let mut rest = head.split_off(header_end);
                let body = rest.split_off(4);
                match parse_head(head.as_slice()) {
                    Err(error) => (Stage::Done, ReadStep::Failed(error)),
                    Ok((method, path, length)) => if length > MAX_BODY {
                        (Stage::Done, ReadStep::Failed(HttpError::BodyTooLarge))
                    } else {
                        assert(body@ =~= buffer@.skip(header_end + 4));
                        Self::body_progress(method, path, length, body)
                    },
                }
            },
        }
    }

    /// Hands the reader the outcome of one read and returns what it needs
    /// or produced. A reader that has produced or refused a request takes
    /// no more outcomes.
    pub fn feed(&mut self, event: ReadEvent) -> (step: ReadStep)
        requires
            !(old(self)@ is Done),
        ensures
            (final(self)@, step@) == reader_step(old(self)@, event@),
    {
        let mut stage = Stage::Done;
        std::mem::swap(&mut stage, &mut self.stage);
        let (next, step) = match stage {
            Stage::Head(mut buffer) => match event {
                ReadEvent::Failed => (Stage::Done, ReadStep::Failed(HttpError::Io("read"))),
                ReadEvent::EndOfStream => (
                    Stage::Done,
                    ReadStep::Failed(HttpError::Malformed("eof in headers")),
                ),
                ReadEvent::Bytes(mut bytes) => {
                    buffer.append(&mut bytes);
                    Self::head_progress(buffer)
                },
            },
            Stage::Body(method, path, length, mut body) => match event {
                ReadEvent::Failed => (Stage::Done, ReadStep::Failed(HttpError::Io("body read"))),
                ReadEvent::EndOfStream => (
                    Stage::Done,
                    ReadStep::Failed(HttpError::Malformed("eof in body")),
                ),
                ReadEvent::Bytes(mut bytes) => {
                    body.append(&mut bytes);
                    Self::body_progress(method, path, length, body)
                },
            },
            Stage::Done => (Stage::Done, ReadStep::Failed(HttpError::Malformed("closed"))),
        };
        self.stage = next;
        step
    }
}

/// The UTF-8 byte length of a text, as `str::len` reports it.
pub open spec fn byte_len(text: Seq<char>) -> nat {
    (encode_utf8(text).len() as usize) as nat
}

/// The full text of one JSON response with the given status.
pub open spec fn response_spec(status: Seq<char>, body: Seq<char>) -> Seq<char> {
    "HTTP/1.1 "@ + status + "\r\nContent-Type: application/json\r\nContent-Length: "@
        + decimal_text(byte_len(body)) + "\r\nConnection: close\r\n\r\n"@ + body
}

/// Frames one JSON response with the given status: fixed headers,
/// the body's byte length, and `Connection: close`.
pub fn response_text(status: &str, body: &str) -> (r: String)
    ensures
        r@ == response_spec(status@, body@),
{
    let mut out = String::new();
    push_text(&mut out, "HTTP/1.1 ");
    push_text(&mut out, status);
    push_text(&mut out, "\r\nContent-Type: application/json\r\nContent-Length: ");
    let length = body.len();
    assert(length as nat == byte_len(body@));
    push_decimal(&mut out, length as u64);
    push_text(&mut out, "\r\nConnection: close\r\n\r\n");
    push_text(&mut out, body);
    assert(out@ =~= response_spec(status@, body@));
    out
}

/// The text that `message` returns for an error.
pub open spec fn http_error_message(e: HttpError) -> Seq<char> {
    match e {
        HttpError::HeadersTooLarge => "request headers exceed the ceiling"@,
        HttpError::BodyTooLarge => "request body exceeds the ceiling"@,
        HttpError::Malformed(detail) => "malformed request: "@ + detail@,
        HttpError::Io(detail) => "http i/o failure: "@ + detail@,
    }
}

impl HttpError {
    /// The human-readable description of this error.
    pub fn message(&self) -> (r: String)
        ensures
            r@ == http_error_message(*self),
    {
        let mut out = String::new();
        match self {
            HttpError::HeadersTooLarge => push_text(&mut out, "request headers exceed the ceiling"),
            HttpError::BodyTooLarge => push_text(&mut out, "request body exceeds the ceiling"),
            HttpError::Malformed(detail) => {
                push_text(&mut out, "malformed request: ");
                push_text(&mut out, detail);
            },
            HttpError::Io(detail) => {
                push_text(&mut out, "http i/o failure: ");
                push_text(&mut out, detail);
            },
        }
        assert(out@ =~= http_error_message(*self));
        out
    }
}

/// Whether `name` reads `content-length` once its ASCII capitals are lowered.
pub open spec fn lowered(name: Seq<char>) -> Seq<char> {
    name.map_values(|c: char| ascii_lower(c))
}

/// Header names are matched without regard to ASCII case: a name is the
/// content-length header exactly when lowering its ASCII capitals gives
/// `content-length`, so two names that differ only in ASCII case are treated
/// alike, and `Content-Length`, `content-length` and `CONTENT-LENGTH` are
/// all recognised.
pub proof fn lemma_content_length_any_case(name: Seq<char>, other: Seq<char>)
    ensures
        is_content_length(name) <==> lowered(name) == "content-length"@,
        lowered(name) == lowered(other) ==> (is_content_length(name) <==> is_content_length(other)),
        is_content_length("content-length"@),
        is_content_length("Content-Length"@),
        is_content_length("CONTENT-LENGTH"@),
{
    reveal_strlit("content-length");
    reveal_strlit("Content-Length");
    reveal_strlit("CONTENT-LENGTH");
    assert("content-length"@ =~= content_length_name());
    if is_content_length(name) {
        assert(lowered(name) =~= "content-length"@);
    }
    if lowered(name) == "content-length"@ {
        assert forall|i: int| 0 <= i < name.len() implies ascii_lower(#[trigger] name[i])
            == content_length_name()[i] by {
            assert(lowered(name)[i] == ascii_lower(name[i]));
        }
    }
    if is_content_length(other) {
        assert(lowered(other) =~= "content-length"@);
    }
    if lowered(other) == "content-length"@ {
        assert forall|i: int| 0 <= i < other.len() implies ascii_lower(#[trigger] other[i])
            == content_length_name()[i] by {
            assert(lowered(other)[i] == ascii_lower(other[i]));
        }
    }
    let upper = "Content-Length"@;
    assert forall|i: int| 0 <= i < upper.len() implies ascii_lower(#[trigger] upper[i])
        == content_length_name()[i] by {
        assert(upper[i] as u32 == content_length_name()[i] as u32 || (upper[i] as u32) + 0x20
            == content_length_name()[i] as u32);
    }
    let caps = "CONTENT-LENGTH"@;
    assert forall|i: int| 0 <= i < caps.len() implies ascii_lower(#[trigger] caps[i])
        == content_length_name()[i] by {
        assert(caps[i] as u32 == content_length_name()[i] as u32 || (caps[i] as u32) + 0x20
            == content_length_name()[i] as u32);
    }
}

proof fn lemma_index_of_after(n: Seq<char>, rest: Seq<char>, i: int)
    requires
        0 <= i <= n.len(),
        forall|j: int| 0 <= j < n.len() ==> #[trigger] n[j] != ':',
    ensures
        index_of(n + seq![':'] + rest, ':', i) == n.len(),
    decreases n.len() - i,
{
    let s = n + seq![':'] + rest;
    if i < n.len() {
        assert(s[i] == n[i]);
        lemma_index_of_after(n, rest, i + 1);
    } else {
        assert(s[i] == ':');
    }
}

/// A header line is read the same whatever the ASCII case of its name: two
/// lines `name: value` whose names differ only in ASCII case set the same
/// content length, or fail alike.
pub proof fn lemma_header_name_case(n1: Seq<char>, n2: Seq<char>, value: Seq<char>)
    requires
        lowered(n1) == lowered(n2),
        forall|j: int| 0 <= j < n1.len() ==> #[trigger] n1[j] != ':',
        forall|j: int| 0 <= j < n2.len() ==> #[trigger] n2[j] != ':',
    ensures
        header_line(n1 + seq![':'] + value) == header_line(n2 + seq![':'] + value),
{
    lemma_index_of_after(n1, value, 0);
    lemma_index_of_after(n2, value, 0);
    let l1 = n1 + seq![':'] + value;
    let l2 = n2 + seq![':'] + value;
    assert(l1.take(n1.len() as int) =~= n1);
    assert(l2.take(n2.len() as int) =~= n2);
    assert(l1.skip(n1.len() as int + 1) =~= value);
    assert(l2.skip(n2.len() as int + 1) =~= value);
    lemma_content_length_any_case(n1, n2);
    assert(n1.len() == lowered(n1).len());
}

} // verus!
