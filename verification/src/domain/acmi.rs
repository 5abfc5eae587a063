//! The sink capability and the header that opens every telemetry stream.

use vstd::prelude::*;
use vstd::string::StringExecFns;

verus! {

/// How a stream operation failed, as far as the core cares.
#[derive(Clone, Copy, Debug, PartialEq, Eq, Structural)]
pub enum StreamFault {
    /// The connection was aborted.
    ConnectionAborted,
    /// The peer no longer reads.
    BrokenPipe,
    /// Any other failure.
    Other,
}

/// Why a record did not reach a sink.
#[derive(Clone, Copy, Debug, PartialEq, Eq, Structural)]
pub enum WriteError {
    /// Sending the record failed.
    Send(StreamFault),
    /// The record was sent but flushing the stream failed.
    Flush(StreamFault),
}

/// A consumer of telemetry records.
pub trait AcmiRepository {
    /// What one `write` of `acmi` may do: `post` is a state that the sink
    /// may be left in when it was in state `self` and `result` came back.
    /// A sink that says nothing here may do anything.
    open spec fn write_post(&self, acmi: Seq<char>, post: &Self, result: Result<(), WriteError>) -> bool {
        true
    }

    /// Hands one record to the sink.
    fn write(&mut self, acmi: &str) -> (r: Result<(), WriteError>)
        ensures
            old(self).write_post(acmi@, final(self), r),
    ;

    /// Periodic housekeeping; the sinks of this crate have none to do.
    fn step(&self);
}

/// The first lines of the header, up to the reference time.
pub open spec fn header_opening() -> Seq<char> {
    "FileType=text/acmi/tacview\nFileVersion=2.2\n0,ReferenceTime="@
}

/// The header between the reference time and the recording time.
pub open spec fn header_middle() -> Seq<char> {
    "\n0,RecordingTime="@
}

/// The name under which the bridge presents itself: to a viewer in the
/// greeting, and as the author in every header.
pub open spec fn bridge_name() -> Seq<char> {
    "stormworks-tacview-rust"@
}

/// The name under which the bridge presents itself.
pub fn bridge_name_text() -> (r: &'static str)
    ensures
        r@ == bridge_name(),
{
    "stormworks-tacview-rust"
}

/// The lines of the header between the recording time and the author.
pub open spec fn header_details() -> Seq<char> {
    "\n0,Title=StormworksACMI\n0,DataRecorder=StormworksACMI 0.1.0\n0,DataSource=Stormworks\n0,Author="@
}

/// The lines of the header after the author.
pub open spec fn header_closing() -> Seq<char> {
    "\n0,ReferenceLongitude=180\n0,ReferenceLatitude=0\n40000003,T=0|0|2000|0|0,Type=Navaid+Static+Bullseye,Color=Blue,Coalition=Allies\n"@
}

/// The header block of a telemetry stream whose reference time and
/// recording time are both `time`, and whose author is the bridge.
pub open spec fn acmi_header(time: Seq<char>) -> Seq<char> {
    header_opening() + time + header_middle() + time + header_details() + bridge_name()
        + header_closing()
}

/// The header is 320 characters and the time twice.
pub proof fn lemma_acmi_header_len(time: Seq<char>)
    ensures
        acmi_header(time).len() == 320 + 2 * time.len(),
{
    reveal_strlit("FileType=text/acmi/tacview\nFileVersion=2.2\n0,ReferenceTime=");
    reveal_strlit("\n0,RecordingTime=");
    reveal_strlit(
        "\n0,Title=StormworksACMI\n0,DataRecorder=StormworksACMI 0.1.0\n0,DataSource=Stormworks\n0,Author=",
    );
    reveal_strlit("stormworks-tacview-rust");
    reveal_strlit(
        "\n0,ReferenceLongitude=180\n0,ReferenceLatitude=0\n40000003,T=0|0|2000|0|0,Type=Navaid+Static+Bullseye,Color=Blue,Coalition=Allies\n",
    );
}

/// Builds the header block for the given time.
pub fn build_acmi_header(time: &str) -> (r: String)
    ensures
        r@ == acmi_header(time@),
{
    let mut r = String::from_str("FileType=text/acmi/tacview\nFileVersion=2.2\n0,ReferenceTime=");
    r.append(time);
    r.append("\n0,RecordingTime=");
    r.append(time);
    r.append(
        "\n0,Title=StormworksACMI\n0,DataRecorder=StormworksACMI 0.1.0\n0,DataSource=Stormworks\n0,Author=",
    );
    r.append(bridge_name_text());
    r.append(
        "\n0,ReferenceLongitude=180\n0,ReferenceLatitude=0\n40000003,T=0|0|2000|0|0,Type=Navaid+Static+Bullseye,Color=Blue,Coalition=Allies\n",
    );
    r
}

} // verus!
