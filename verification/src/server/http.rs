//! The ingestion endpoint in its path-based form: commands are told apart
//! by the method and the path of a request, and telemetry is standard
//! base64 in the last part of the path.

use crate::domain::acmi::AcmiRepository;
use crate::handlers::stormworks::AppState;
use crate::server::http_simple::{Delivered, Response};
use crate::text::{chars_of, matches_at, occurs_at};
use vstd::prelude::*;
use vstd::string::{StrSliceExecFns, StringExecFns};
use vstd::utf8::{decode_utf8, valid_utf8};

verus! {

/// The bytes that the base64 crate's standard engine decodes `data` to, or
/// `None` where it rejects `data`.
pub uninterp spec fn base64_decoded(data: Seq<char>) -> Option<Seq<u8>>;

/// The text that `String::from_utf8_lossy` makes of `bytes`: the decoded
/// text where `bytes` are UTF-8, with replacement characters where they
/// are not.
pub uninterp spec fn lossy_text(bytes: Seq<u8>) -> Seq<char>;

/// `base64::decode`: decodes standard base64 with padding.
#[verifier::external_body]
fn base64_decode(data: &str) -> (r: Option<Vec<u8>>)
    ensures
        match r {
            Some(bytes) => base64_decoded(data@) == Some(bytes@),
            None => base64_decoded(data@) is None,
        },
{
    #[allow(deprecated)]
    base64::decode(data).ok()
}

/// `String::from_utf8_lossy`: the text of `bytes`, with a replacement
/// character for every part that is not UTF-8.
#[verifier::external_body]
fn text_from_utf8_lossy(bytes: &Vec<u8>) -> (r: String)
    ensures
        r@ == lossy_text(bytes@),
        valid_utf8(bytes@) ==> r@ == decode_utf8(bytes@),
{
    String::from_utf8_lossy(bytes).into_owned()
}

/// What a request asks for.
#[derive(Debug)]
pub enum ApiCommand {
    /// Start recording.
    Start,
    /// Stop recording.
    Stop,
    /// Take this encoded telemetry.
    Acmi(String),
    /// Nothing that the bridge knows.
    Unknown,
}

/// Whether `s` begins with `prefix`.
pub open spec fn starts_with(s: Seq<char>, prefix: Seq<char>) -> bool {
    occurs_at(s, prefix, 0)
}

/// `s` without the copies of the non-empty `prefix` that it begins with.
pub open spec fn trimmed_start(s: Seq<char>, prefix: Seq<char>) -> Seq<char>
    decreases s.len(),
{
    if prefix.len() > 0 && starts_with(s, prefix) {
        trimmed_start(s.skip(prefix.len() as int), prefix)
    } else {
        s
    }
}

/// The path under which recording is started.
pub open spec fn start_path() -> Seq<char> {
    "/api/stormworks/start"@
}

/// The path under which recording is stopped.
pub open spec fn stop_path() -> Seq<char> {
    "/api/stormworks/stop"@
}

/// The path under which telemetry is brought.
pub open spec fn acmi_path() -> Seq<char> {
    "/api/stormworks/acmi/"@
}

/// Reads the command out of the method and the path of a request. Only
/// `GET` requests carry commands; the path is tried for start, then stop,
/// then telemetry.
pub fn handle_request(is_get: bool, path: &str) -> (r: ApiCommand)
    ensures
        match r {
            ApiCommand::Start => is_get && starts_with(path@, start_path()),
            ApiCommand::Stop => is_get && !starts_with(path@, start_path()) && starts_with(
                path@,
                stop_path(),
            ),
            ApiCommand::Acmi(data) => is_get && !starts_with(path@, start_path()) && !starts_with(
                path@,
                stop_path(),
            ) && starts_with(path@, acmi_path()) && data@ == trimmed_start(path@, acmi_path()),
            ApiCommand::Unknown => !is_get || (!starts_with(path@, start_path()) && !starts_with(
                path@,
                stop_path(),
            ) && !starts_with(path@, acmi_path())),
        },
{
    if !is_get {
        return ApiCommand::Unknown;
    }
    let chars = chars_of(path);
    let start = chars_of("/api/stormworks/start");
    let stop = chars_of("/api/stormworks/stop");
    let acmi = chars_of("/api/stormworks/acmi/");
    proof {
        reveal_strlit("/api/stormworks/acmi/");
    }
    if matches_at(&chars, &start, 0) {
        ApiCommand::Start
    } else if matches_at(&chars, &stop, 0) {
        ApiCommand::Stop
    } else if matches_at(&chars, &acmi, 0) {
        let mut from: usize = 0;
        assert(path@.skip(0) =~= path@);
        while matches_at(&chars, &acmi, from)
            invariant
                chars@ == path@,
                acmi@ == acmi_path(),
                acmi@.len() == 21,
                from <= chars.len(),
                trimmed_start(path@.skip(from as int), acmi_path()) == trimmed_start(
                    path@,
                    acmi_path(),
                ),
            decreases chars.len() - from,
        {
            let ghost rest = path@.skip(from as int);
            assert(rest.subrange(0, 21) =~= path@.subrange(from as int, from + 21));
            assert(rest.skip(21) =~= path@.skip(from + 21));
            from += 21;
        }
        proof {
            let rest = path@.skip(from as int);
            if from + 21 <= chars.len() {
                assert(rest.subrange(0, 21) =~= path@.subrange(from as int, from + 21));
            }
            assert(!starts_with(rest, acmi_path()));
        }
        let data = path.substring_char(from, chars.len());
        ApiCommand::Acmi(String::from_str(data))
    } else {
        ApiCommand::Unknown
    }
}

/// The record for decoded telemetry: its text, with replacement characters
/// where the bytes are not UTF-8, and a line feed.
pub fn record_from_decoded(decoded: &Vec<u8>) -> (r: String)
    ensures
        r@ == lossy_text(decoded@) + "\n"@,
        valid_utf8(decoded@) ==> r@ == decode_utf8(decoded@) + "\n"@,
{
    let mut record = text_from_utf8_lossy(decoded);
    record.append("\n");
    record
}

/// Decodes `data` and hands the record to every sink. Answers
/// `BadRequest`, and leaves the sinks alone, when `data` is not base64;
/// else `Success`, whatever the sinks made of the record.
pub fn handle_acmi_data<L: AcmiRepository>(state: &mut AppState<L>, data: &str) -> (r: Delivered)
    requires
        old(state).wf(),
    ensures
        final(state).wf(),
        final(state).verbose() == old(state).verbose(),
        final(state).next_id() == old(state).next_id(),
        final(state).ids() == old(state).ids(),
        final(state).sinks().len() == old(state).sinks().len(),
        match base64_decoded(data@) {
            Some(bytes) => {
                &&& r.response == Response::Success
                &&& r.results.len() == old(state).sinks().len()
                &&& forall|i: int|
                    0 <= i < r.results.len() ==> (#[trigger] old(state).sinks()[i]).write_post(
                        lossy_text(bytes) + "\n"@,
                        &final(state).sinks()[i],
                        r.results[i],
                    )
            },
            None => {
                &&& r.response == Response::BadRequest
                &&& r.results.len() == 0
                &&& final(state).sinks() == old(state).sinks()
            },
        },
{
    match base64_decode(data) {
        Some(decoded) => {
            let record = record_from_decoded(&decoded);
            let results = state.broadcast(record.as_str());
            Delivered { response: Response::Success, results }
        },
        None => Delivered { response: Response::BadRequest, results: Vec::new() },
    }
}

} // verus!
