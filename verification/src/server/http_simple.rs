//! The ingestion endpoint: reading a command out of a raw request and
//! decoding the telemetry it carries.

use crate::domain::acmi::{AcmiRepository, WriteError};
use crate::domain::acmi_file::SavedArchive;
use crate::handlers::stormworks::{
    has_no_recorder, recordings, recordings_fit, start_effect, start_gave_up_at, stop_effect,
    stop_gave_up_at, AppState,
};
use crate::text::{chars_of, contains, contains_text, matches_at, occurs_at};
use vstd::prelude::*;
use vstd::string::{StrSliceExecFns, StringExecFns, StringSliceAdditionalSpecFns};
use vstd::utf8::{decode_utf8, valid_utf8};

verus! {

/// The characters with the Unicode `White_Space` property.
pub open spec fn is_whitespace_char(c: char) -> bool {
    let u = c as u32;
    ||| 0x09 <= u <= 0x0D
    ||| u == 0x20
    ||| u == 0x85
    ||| u == 0xA0
    ||| u == 0x1680
    ||| 0x2000 <= u <= 0x200A
    ||| u == 0x2028
    ||| u == 0x2029
    ||| u == 0x202F
    ||| u == 0x205F
    ||| u == 0x3000
}

/// The first position at or after `from` holding `c`, or the length of `s`
/// when there is none.
pub open spec fn first_index_of(s: Seq<char>, c: char, from: int) -> int
    decreases s.len() - from,
{
    if from < 0 || from >= s.len() {
        s.len() as int
    } else if s[from] == c {
        from
    } else {
        first_index_of(s, c, from + 1)
    }
}

/// The first position at or after `from` whose character is whitespace
/// (`ws`) or is not (`!ws`), or the length of `s` when there is none.
pub open spec fn scan(s: Seq<char>, from: int, ws: bool) -> int
    decreases s.len() - from,
{
    if from < 0 || from >= s.len() {
        s.len() as int
    } else if is_whitespace_char(s[from]) == ws {
        from
    } else {
        scan(s, from + 1, ws)
    }
}

/// The request line: everything before the first line feed.
pub open spec fn request_line(request: Seq<char>) -> Seq<char> {
    request.take(first_index_of(request, '\n', 0))
}

/// The second whitespace-separated word of `line`, when it has one.
pub open spec fn second_word(line: Seq<char>) -> Option<Seq<char>> {
    let first_start = scan(line, 0, false);
    let first_end = scan(line, first_start, true);
    let start = scan(line, first_end, false);
    let end = scan(line, start, true);
    if start < line.len() {
        Some(line.subrange(start, end))
    } else {
        None
    }
}

/// What follows `<anything without a slash>/acmi/` in `path`, when `path`
/// has that shape and something does follow.
pub open spec fn acmi_payload(path: Seq<char>) -> Option<Seq<char>> {
    let marker = "acmi/"@;
    let at = first_index_of(path, '/', 0) + 1;
    if occurs_at(path, marker, at) && at + marker.len() < path.len() {
        Some(path.skip(at + marker.len()))
    } else {
        None
    }
}

/// The encoded telemetry carried by a request: the payload of the path
/// named on its request line.
pub open spec fn spec_extract_acmi_data(request: Seq<char>) -> Option<Seq<char>> {
    match second_word(request_line(request)) {
        Some(path) => acmi_payload(path),
        None => None,
    }
}

pub fn is_whitespace(c: char) -> (b: bool)
    ensures
        b == is_whitespace_char(c),
{
    let u: u32 = c as u32;
    (0x09 <= u && u <= 0x0D) || u == 0x20 || u == 0x85 || u == 0xA0 || u == 0x1680 || (0x2000 <= u
        && u <= 0x200A) || u == 0x2028 || u == 0x2029 || u == 0x202F || u == 0x205F || u == 0x3000
}

fn find_char(s: &Vec<char>, c: char, from: usize) -> (at: usize)
    requires
        from <= s.len(),
    ensures
        at == first_index_of(s@, c, from as int),
        from <= at <= s.len(),
{
    let mut i: usize = from;
    while i < s.len() && s[i] != c
        invariant
            from <= i <= s.len(),
            first_index_of(s@, c, from as int) == first_index_of(s@, c, i as int),
        decreases s.len() - i,
    {
        i += 1;
    }
    i
}

fn scan_from(s: &Vec<char>, from: usize, ws: bool) -> (at: usize)
    requires
        from <= s.len(),
    ensures
        at == scan(s@, from as int, ws),
        from <= at <= s.len(),
{
    let mut i: usize = from;
    while i < s.len() && is_whitespace(s[i]) != ws
        invariant
            from <= i <= s.len(),
            scan(s@, from as int, ws) == scan(s@, i as int, ws),
        decreases s.len() - i,
    {
        i += 1;
    }
    i
}

fn copy_range(s: &Vec<char>, from: usize, to: usize) -> (r: Vec<char>)
    requires
        from <= to <= s.len(),
    ensures
        r@ == s@.subrange(from as int, to as int),
{
    let mut r: Vec<char> = Vec::new();
    let mut i: usize = from;
    while i < to
        invariant
            from <= i <= to <= s.len(),
            r@ == s@.subrange(from as int, i as int),
        decreases to - i,
    {
        r.push(s[i]);
        i += 1;
    }
    r
}

/// Pulls the encoded telemetry out of a raw request: the path is the second
/// word of the request line, and the data is whatever follows its `/acmi/`
/// segment. `None` when the request has no such path or the data is empty.
pub fn extract_acmi_data(request: &str) -> (r: Option<String>)
    ensures
        match spec_extract_acmi_data(request@) {
            Some(data) => r matches Some(s) && s@ == data,
            None => r is None,
        },
{
    let chars = chars_of(request);
    let line_len = find_char(&chars, '\n', 0);
    let line = copy_range(&chars, 0, line_len);
    assert(line@ == request_line(request@));
    let first_start = scan_from(&line, 0, false);
    let first_end = scan_from(&line, first_start, true);
    let start = scan_from(&line, first_end, false);
    let end = scan_from(&line, start, true);
    if start >= line.len() {
        return None;
    }
    let path = copy_range(&line, start, end);
    let marker = chars_of("acmi/");
    proof {
        reveal_strlit("acmi/");
    }
    let slash = find_char(&path, '/', 0);
    if slash >= path.len() {
        assert(!occurs_at(path@, marker@, slash + 1));
        return None;
    }
    let at = slash + 1;
    if !matches_at(&path, &marker, at) {
        return None;
    }
    if at + 5 >= path.len() {
        return None;
    }
    let data = request.substring_char(start + at + 5, end);
    assert(data@ == path@.skip(at + 5));
    Some(String::from_str(data))
}

/// The value of one character of the encoding alphabet
/// (`A`-`Z`, `a`-`z`, `0`-`9`, `+`, `/`), or `None` for any other byte.
pub open spec fn sextet(b: u8) -> Option<u8> {
    if 0x41 <= b <= 0x5A {
        Some((b - 0x41) as u8)
    } else if 0x61 <= b <= 0x7A {
        Some((b - 0x61 + 26) as u8)
    } else if 0x30 <= b <= 0x39 {
        Some((b - 0x30 + 52) as u8)
    } else if b == 0x2B {
        Some(62u8)
    } else if b == 0x2F {
        Some(63u8)
    } else {
        None
    }
}

/// `s` without its trailing `=` bytes.
pub open spec fn padding_trimmed(s: Seq<u8>) -> Seq<u8>
    decreases s.len(),
{
    if s.len() > 0 && s.last() == 0x3Du8 {
        padding_trimmed(s.drop_last())
    } else {
        s
    }
}

/// Whether every byte of `s` belongs to the encoding alphabet.
pub open spec fn all_sextets(s: Seq<u8>) -> bool {
    forall|i: int| 0 <= i < s.len() ==> (#[trigger] sextet(s[i])) is Some
}

/// The value of the `i`-th character of a group, zero past its end.
pub open spec fn group_value(group: Seq<u8>, i: int) -> u8 {
    if 0 <= i < group.len() && sextet(group[i]) is Some {
        sextet(group[i])->0
    } else {
        0u8
    }
}

/// The bytes that a group of one to four characters stands for: one byte
/// for a group of one or two characters, two for three, three for four.
pub open spec fn group_bytes(group: Seq<u8>) -> Seq<u8> {
    let b0 = (group_value(group, 0) << 2) | (group_value(group, 1) >> 4);
    let b1 = (group_value(group, 1) << 4) | (group_value(group, 2) >> 2);
    let b2 = (group_value(group, 2) << 6) | group_value(group, 3);
    if group.len() > 3 {
        seq![b0, b1, b2]
    } else if group.len() > 2 {
        seq![b0, b1]
    } else {
        seq![b0]
    }
}

/// The length of the last group when `len` characters are cut into groups
/// of four.
pub open spec fn last_group_len(len: int) -> int {
    if len % 4 == 0 {
        4
    } else {
        len % 4
    }
}

/// The bytes that `s` stands for, group after group.
pub open spec fn decoded_bytes(s: Seq<u8>) -> Seq<u8>
    decreases s.len(),
{
    if s.len() == 0 {
        Seq::empty()
    } else {
        let cut = s.len() - last_group_len(s.len() as int);
        decoded_bytes(s.take(cut)) + group_bytes(s.skip(cut))
    }
}

/// The text that the encoded bytes `input` stand for: trailing padding is
/// dropped, every remaining byte must belong to the alphabet, and the
/// decoded bytes must be UTF-8.
pub open spec fn spec_decode_base64(input: Seq<u8>) -> Option<Seq<char>> {
    let body = padding_trimmed(input);
    if all_sextets(body) && valid_utf8(decoded_bytes(body)) {
        Some(decode_utf8(decoded_bytes(body)))
    } else {
        None
    }
}

fn sextet_of(b: u8) -> (r: Option<u8>)
    ensures
        r == sextet(b),
{
    if 0x41 <= b && b <= 0x5A {
        Some(b - 0x41)
    } else if 0x61 <= b && b <= 0x7A {
        Some(b - 0x61 + 26)
    } else if 0x30 <= b && b <= 0x39 {
        Some(b - 0x30 + 52)
    } else if b == 0x2B {
        Some(62)
    } else if b == 0x2F {
        Some(63)
    } else {
        None
    }
}

/// `String::from_utf8`: the text that `bytes` encode, or `None` when they
/// are not UTF-8.
#[verifier::external_body]
fn text_from_utf8(bytes: Vec<u8>) -> (r: Option<String>)
    ensures
        match r {
            Some(s) => valid_utf8(bytes@) && s@ == decode_utf8(bytes@),
            None => !valid_utf8(bytes@),
        },
{
    String::from_utf8(bytes).ok()
}

fn trimmed_len(bytes: &[u8]) -> (n: usize)
    ensures
        n <= bytes.len(),
        bytes@.take(n as int) == padding_trimmed(bytes@),
{
    let mut n: usize = bytes.len();
    assert(bytes@.take(n as int) =~= bytes@);
    while n > 0 && bytes[n - 1] == 0x3D
        invariant
            n <= bytes.len(),
            padding_trimmed(bytes@.take(n as int)) == padding_trimmed(bytes@),
        decreases n,
    {
        assert(bytes@.take(n as int).drop_last() =~= bytes@.take(n - 1));
        n -= 1;
    }
    n
}

/// Decodes base64 text. Trailing `=` are ignored; any other character
/// outside the alphabet, or a result that is not UTF-8, is an error. The
/// characters are taken four at a time; a last group of three gives two
/// bytes, one of two or of one gives one byte.
pub fn decode_base64_simple(input: &str) -> (r: Result<String, ()>)
    ensures
        match spec_decode_base64(input.spec_bytes()) {
            Some(text) => r matches Ok(s) && s@ == text,
            None => r is Err,
        },
{
    let bytes = input.as_bytes();
    let n = trimmed_len(bytes);
    let ghost body = bytes@.take(n as int);
    let mut out: Vec<u8> = Vec::new();
    let mut i: usize = 0;
    assert(body.take(0) =~= Seq::<u8>::empty());
    while i < n
        invariant
            n <= bytes.len(),
            body == bytes@.take(n as int),
            body == padding_trimmed(input.spec_bytes()),
            i <= n,
            i % 4 == 0 || i == n,
            all_sextets(body.take(i as int)),
            out@ == decoded_bytes(body.take(i as int)),
        decreases n - i,
    {
        let len: usize = if n - i < 4 { n - i } else { 4 };
        let ghost group = body.subrange(i as int, i + len);
        let mut values: [u8; 4] = [0, 0, 0, 0];
        let mut k: usize = 0;
        while k < len
            invariant
                n <= bytes.len(),
                body == bytes@.take(n as int),
                body == padding_trimmed(input.spec_bytes()),
                i + len <= n,
                len <= 4,
                k <= len,
                group == body.subrange(i as int, i + len),
                all_sextets(body.take(i as int)),
                all_sextets(body.take(i + k)),
                forall|j: int| 0 <= j < k ==> values@[j] == group_value(group, j),
                forall|j: int| k <= j < 4 ==> values@[j] == 0,
            decreases len - k,
        {
            match sextet_of(bytes[i + k]) {
                Some(v) => {
                    values[k] = v;
                },
                None => {
                    assert(sextet(body[i + k]) is None);
                    return Err(());
                },
            }
            assert forall|j: int| 0 <= j < i + k + 1 implies (#[trigger] sextet(
                body.take(i + k + 1)[j],
            )) is Some by {
                if j < i + k {
                    assert(body.take(i + k)[j] == body[j]);
                }
            }
            k += 1;
        }
        assert(forall|j: int| 0 <= j < 4 ==> values@[j] == group_value(group, j));
        out.push((values[0] << 2) | (values[1] >> 4));
        if len > 2 {
            out.push((values[1] << 4) | (values[2] >> 2));
        }
        if len > 3 {
            out.push((values[2] << 6) | values[3]);
        }
        proof {
            let next = body.take(i + len);
            assert(last_group_len(next.len() as int) == len);
            assert(next.take(next.len() - len) =~= body.take(i as int));
            assert(next.skip(next.len() - len) =~= group);
            assert(out@ =~= decoded_bytes(body.take(i as int)) + group_bytes(group));
        }
        i += len;
    }
    assert(body.take(n as int) =~= body);
    match text_from_utf8(out) {
        Some(s) => Ok(s),
        None => Err(()),
    }
}


/// What a request asks for.
#[derive(Debug)]
pub enum Command {
    /// Start recording.
    Start,
    /// Stop recording.
    Stop,
    /// Take this encoded telemetry.
    Acmi(String),
    /// Telemetry was announced, but none could be found in the request.
    Malformed,
    /// Nothing that the bridge knows.
    Unknown,
}

/// The answer to a request.
#[derive(Clone, Copy, Debug, PartialEq, Eq, Structural)]
pub enum Response {
    /// The request was carried out.
    Success,
    /// The request could not be read.
    BadRequest,
    /// The request asks for nothing that the bridge knows.
    NotFound,
    /// Carrying out the request failed.
    InternalServerError,
}

/// The text of an answer, as it goes over the wire.
pub open spec fn response_text(response: Response) -> Seq<char> {
    match response {
        Response::Success => "HTTP/1.1 200 OK\r\n\r\nOK"@,
        Response::BadRequest => "HTTP/1.1 400 Bad Request\r\n\r\nBad Request"@,
        Response::NotFound => "HTTP/1.1 404 Not Found\r\n\r\nNot Found"@,
        Response::InternalServerError =>
            "HTTP/1.1 500 Internal Server Error\r\n\r\nInternal Server Error"@,
    }
}

impl Response {
    /// The status code of the answer.
    pub fn status_code(&self) -> (r: u16)
        ensures
            r == match *self {
                Response::Success => 200u16,
                Response::BadRequest => 400u16,
                Response::NotFound => 404u16,
                Response::InternalServerError => 500u16,
            },
    {
        match self {
            Response::Success => 200,
            Response::BadRequest => 400,
            Response::NotFound => 404,
            Response::InternalServerError => 500,
        }
    }

    /// The text of the answer, as it goes over the wire.
    pub fn text(&self) -> (r: String)
        ensures
            r@ == response_text(*self),
    {
        match self {
            Response::Success => String::from_str("HTTP/1.1 200 OK\r\n\r\nOK"),
            Response::BadRequest => String::from_str("HTTP/1.1 400 Bad Request\r\n\r\nBad Request"),
            Response::NotFound => String::from_str("HTTP/1.1 404 Not Found\r\n\r\nNot Found"),
            Response::InternalServerError => String::from_str(
                "HTTP/1.1 500 Internal Server Error\r\n\r\nInternal Server Error",
            ),
        }
    }
}

/// Whether `request` asks to start recording.
pub open spec fn asks_start(request: Seq<char>) -> bool {
    contains_text(request, "GET /start"@)
}

/// Whether `request` asks to stop recording and not to start.
pub open spec fn asks_stop(request: Seq<char>) -> bool {
    !asks_start(request) && contains_text(request, "GET /stop"@)
}

/// Whether `request` brings telemetry and asks for neither start nor stop.
pub open spec fn brings_acmi(request: Seq<char>) -> bool {
    !asks_start(request) && !contains_text(request, "GET /stop"@) && contains_text(
        request,
        "GET /acmi/"@,
    )
}

/// Reads the command out of a raw request. The request is searched for
/// `GET /start`, then `GET /stop`, then `GET /acmi/`, wherever they stand;
/// the first that is found decides.
pub fn route_request(request: &str) -> (r: Command)
    ensures
        match r {
            Command::Start => asks_start(request@),
            Command::Stop => asks_stop(request@),
            Command::Acmi(data) => brings_acmi(request@) && spec_extract_acmi_data(request@)
                == Some(data@),
            Command::Malformed => brings_acmi(request@) && spec_extract_acmi_data(request@)
                is None,
            Command::Unknown => !asks_start(request@) && !asks_stop(request@) && !brings_acmi(
                request@,
            ),
        },
{
    let chars = chars_of(request);
    let start = chars_of("GET /start");
    let stop = chars_of("GET /stop");
    let acmi = chars_of("GET /acmi/");
    if contains(&chars, &start) {
        Command::Start
    } else if contains(&chars, &stop) {
        Command::Stop
    } else if contains(&chars, &acmi) {
        match extract_acmi_data(request) {
            Some(data) => Command::Acmi(data),
            None => Command::Malformed,
        }
    } else {
        Command::Unknown
    }
}

/// Starts a recording on every recorder. Answers `Success` when all of them
/// record, which is always so where there is none, and
/// `InternalServerError` when one could not be started; the recorders
/// before that one record then, and that one is idle.
pub fn handle_start<L: AcmiRepository>(state: &mut AppState<L>, taken: &Vec<String>) -> (r:
    Response)
    requires
        old(state).wf(),
    ensures
        final(state).wf(),
        final(state).verbose() == old(state).verbose(),
        final(state).next_id() == old(state).next_id(),
        final(state).ids() == old(state).ids(),
        final(state).sinks().len() == old(state).sinks().len(),
        r == Response::Success || r == Response::InternalServerError,
        forall|i: int|
            0 <= i < old(state).sinks().len() ==> start_effect(
                #[trigger] old(state).sinks()[i],
                final(state).sinks()[i],
                taken@,
                r == Response::Success,
            ),
        has_no_recorder(old(state).sinks()) ==> r == Response::Success,
        r == Response::InternalServerError ==> exists|at: int|
            start_gave_up_at(old(state).sinks(), final(state).sinks(), taken@, at),
{
    match state.start_recorders(taken) {
        Ok(()) => Response::Success,
        Err(_) => Response::InternalServerError,
    }
}

/// What stopping the recorders gave.
pub struct Stopped {
    /// The answer to the request.
    pub response: Response,
    /// The archives to put on disk, in registration order of their
    /// recorders.
    pub archives: Vec<SavedArchive>,
}

/// Stops every recorder. Answers `Success` when the recording of each that was
/// recording has become an archive, which is always so where every
/// recording is small enough to be archived for sure, and
/// `InternalServerError` when one could not be archived; the recorders up
/// to that one are idle then, and those behind it go on recording.
pub fn handle_stop<L: AcmiRepository>(state: &mut AppState<L>) -> (r: Stopped)
    requires
        old(state).wf(),
    ensures
        final(state).wf(),
        final(state).verbose() == old(state).verbose(),
        final(state).next_id() == old(state).next_id(),
        final(state).ids() == old(state).ids(),
        final(state).sinks().len() == old(state).sinks().len(),
        r.response == Response::Success || r.response == Response::InternalServerError,
        forall|i: int|
            0 <= i < old(state).sinks().len() ==> stop_effect(
                #[trigger] old(state).sinks()[i],
                final(state).sinks()[i],
                r.response == Response::Success,
            ),
        r.archives.len() <= recordings(old(state).sinks()).len(),
        r.response == Response::Success <==> r.archives.len() == recordings(old(state).sinks()).len(),
        forall|k: int|
            0 <= k < r.archives.len() ==> (#[trigger] recordings(
                old(state).sinks(),
            )[k]).archived_as(r.archives[k]),
        recordings_fit(recordings(old(state).sinks())) ==> r.response == Response::Success,
        r.response == Response::InternalServerError ==> exists|at: int|
            stop_gave_up_at(old(state).sinks(), final(state).sinks(), at) && r.archives.len()
                == recordings(old(state).sinks().take(at)).len(),
{
    let report = state.stop_recorders();
    let response = match report.failure {
        None => Response::Success,
        Some(_) => Response::InternalServerError,
    };
    Stopped { response, archives: report.archives }
}

/// What taking in telemetry gave.
pub struct Delivered {
    /// The answer to the request.
    pub response: Response,
    /// How the write to each sink went, in registration order; empty when
    /// the telemetry could not be decoded.
    pub results: Vec<Result<(), WriteError>>,
}

/// The record that the encoded telemetry `data` stands for: the decoded
/// text and a line feed.
pub open spec fn record_of(data: Seq<u8>) -> Option<Seq<char>> {
    match spec_decode_base64(data) {
        Some(text) => Some(text + "\n"@),
        None => None,
    }
}

/// Decodes `data` and hands the record to every sink. Answers
/// `BadRequest`, and leaves the sinks alone, when `data` cannot be
/// decoded; else `Success`, whatever the sinks made of the record.
pub fn handle_acmi<L: AcmiRepository>(state: &mut AppState<L>, data: &str) -> (r: Delivered)
    requires
        old(state).wf(),
    ensures
        final(state).wf(),
        final(state).verbose() == old(state).verbose(),
        final(state).next_id() == old(state).next_id(),
        final(state).ids() == old(state).ids(),
        final(state).sinks().len() == old(state).sinks().len(),
        match record_of(data.spec_bytes()) {
            Some(record) => {
                &&& r.response == Response::Success
                &&& r.results.len() == old(state).sinks().len()
                &&& forall|i: int|
                    0 <= i < r.results.len() ==> (#[trigger] old(state).sinks()[i]).write_post(
                        record,
                        &final(state).sinks()[i],
                        r.results[i],
                    )
            },
            None => {
                &&& r.response == Response::BadRequest
                &&& r.results.len() == 0
                &&& final(state).sinks() == old(state).sinks()
            },
        },
{
    match decode_base64_simple(data) {
        Ok(decoded) => {
            let mut record = decoded;
            record.append("\n");
            let results = state.broadcast(record.as_str());
            Delivered { response: Response::Success, results }
        },
        Err(_) => Delivered { response: Response::BadRequest, results: Vec::new() },
    }
}

/// What serving a request gave.
pub struct Served {
    /// The answer to send back.
    pub response: Response,
    /// The archives to put on disk.
    pub archives: Vec<SavedArchive>,
    /// How the write to each sink went, when the request brought
    /// telemetry.
    pub results: Vec<Result<(), WriteError>>,
}

/// Serves one raw request: reads the command and carries it out.
pub fn serve_request<L: AcmiRepository>(
    state: &mut AppState<L>,
    request: &str,
    taken: &Vec<String>,
) -> (r: Served)
    requires
        old(state).wf(),
    ensures
        final(state).wf(),
        final(state).verbose() == old(state).verbose(),
        final(state).next_id() == old(state).next_id(),
        final(state).ids() == old(state).ids(),
        final(state).sinks().len() == old(state).sinks().len(),
        asks_start(request@) ==> (r.response == Response::Success || r.response
            == Response::InternalServerError) && r.archives.len() == 0 && r.results.len() == 0
            && forall|i: int|
            0 <= i < old(state).sinks().len() ==> start_effect(
                #[trigger] old(state).sinks()[i],
                final(state).sinks()[i],
                taken@,
                r.response == Response::Success,
            ),
        asks_start(request@) && has_no_recorder(old(state).sinks()) ==> r.response
            == Response::Success,
        asks_stop(request@) && recordings_fit(recordings(old(state).sinks())) ==> r.response
            == Response::Success,
        asks_stop(request@) ==> (r.response == Response::Success || r.response
            == Response::InternalServerError) && r.results.len() == 0 && (r.response
            == Response::Success <==> r.archives.len() == recordings(old(state).sinks()).len())
            && (forall|i: int|
            0 <= i < old(state).sinks().len() ==> stop_effect(
                #[trigger] old(state).sinks()[i],
                final(state).sinks()[i],
                r.response == Response::Success,
            )) && (forall|k: int|
            0 <= k < r.archives.len() && k < recordings(old(state).sinks()).len()
                ==> (#[trigger] recordings(old(state).sinks())[k]).archived_as(r.archives[k])),
        brings_acmi(request@) ==> r.archives.len() == 0 && match spec_extract_acmi_data(
            request@,
        ) {
            Some(data) => match record_of(vstd::utf8::encode_utf8(data)) {
                Some(record) => {
                    &&& r.response == Response::Success
                    &&& r.results.len() == old(state).sinks().len()
                    &&& forall|i: int|
                        0 <= i < r.results.len() ==> (#[trigger] old(state).sinks()[i]).write_post(
                            record,
                            &final(state).sinks()[i],
                            r.results[i],
                        )
                },
                None => r.response == Response::BadRequest && r.results.len() == 0 && final(state).sinks() == old(state).sinks(),
            },
            None => r.response == Response::BadRequest && r.results.len() == 0 && final(state).sinks() == old(state).sinks(),
        },
        !asks_start(request@) && !asks_stop(request@) && !brings_acmi(request@) ==> r.response
            == Response::NotFound && r.archives.len() == 0 && r.results.len() == 0 && final(state).sinks() == old(state).sinks(),
{
    match route_request(request) {
        Command::Start => {
            let response = handle_start(state, taken);
            Served { response, archives: Vec::new(), results: Vec::new() }
        },
        Command::Stop => {
            let stopped = handle_stop(state);
            Served { response: stopped.response, archives: stopped.archives, results: Vec::new() }
        },
        Command::Acmi(data) => {
            let delivered = handle_acmi(state, data.as_str());
            Served {
                response: delivered.response,
                archives: Vec::new(),
                results: delivered.results,
            }
        },
        Command::Malformed => Served {
            response: Response::BadRequest,
            archives: Vec::new(),
            results: Vec::new(),
        },
        Command::Unknown => Served {
            response: Response::NotFound,
            archives: Vec::new(),
            results: Vec::new(),
        },
    }
}


} // verus!
