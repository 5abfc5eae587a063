//! The recording sink: stages the records of one recording and turns them
//! into a one-member archive when the recording stops.

use crate::config::{
    decimal_digits, is_output_name, last_index_of, lemma_counter_position_in_range,
    lemma_decimal_len_u64, lemma_output_name_len, output_dir_name, push_decimal, AppConfig,
};
use crate::domain::acmi::{
    acmi_header, build_acmi_header, lemma_acmi_header_len, AcmiRepository, WriteError,
};
use crate::domain::acmi_file::{AcmiFileRepository, ArchiveStage, SavedArchive, StartError, StopError};
use crate::infra::clock::since_epoch;
use crate::text::{
    chars_of, ends_with, lemma_encoded_len, lemma_replaced_len, replace_all, replaced,
};
use vstd::prelude::*;
use vstd::string::{StrSliceExecFns, StringExecFns};
use vstd::utf8::encode_utf8;

verus! {

/// An archive being built in memory. It holds a `zip::ZipWriter` over a
/// byte buffer; the writer's type is bounded by I/O traits that cannot be
/// declared, so the whole struct is opaque.
#[verifier::external_body]
pub struct ArchiveWriter {
    inner: zip::ZipWriter<std::io::Cursor<Vec<u8>>>,
}

/// The error type of the zip crate.
#[verifier::external_type_specification]
#[verifier::external_body]
pub struct ExZipError(zip::result::ZipError);

/// How a member of an archive is stored.
#[derive(Clone, Copy, Debug, PartialEq, Eq, Structural)]
pub enum Compression {
    /// As it is.
    Stored,
    /// Compressed with deflate.
    Deflated,
}

/// The longest member name, in bytes, that an archive can hold.
pub const MAX_MEMBER_NAME_BYTES: usize = 0xFFFF;

/// The most bytes that the archive writer takes for one member.
pub const MAX_WRITTEN_BYTES: usize = 0xFFFF_FFFF;

/// The size, in bytes, up to which a member is sure to fit the archive
/// once it is compressed.
pub const MAX_MEMBER_BYTES: usize = 0x7FFF_FFFF;

/// The members that an archive writer holds, in the order in which they
/// were opened: the name of each, whether it is deflated, and the bytes
/// written to it so far.
pub uninterp spec fn archive_members(w: ArchiveWriter) -> Seq<(Seq<char>, bool, Seq<u8>)>;

/// Whether an archive writer still takes calls: it has neither failed nor
/// been finished.
pub uninterp spec fn archive_open(w: ArchiveWriter) -> bool;

/// Whether `bytes` are a zip archive that holds exactly `members`: read
/// back, it gives these names, says of each whether it is deflated, and
/// gives, decompressed, these bytes.
pub uninterp spec fn archive_holds(bytes: Seq<u8>, members: Seq<(Seq<char>, bool, Seq<u8>)>) -> bool;

/// Whether the name of every member fits the 16-bit length field of the
/// archive format.
pub open spec fn member_names_fit(members: Seq<(Seq<char>, bool, Seq<u8>)>) -> bool {
    forall|i: int|
        0 <= i < members.len() ==> encode_utf8((#[trigger] members[i]).0).len()
            <= MAX_MEMBER_NAME_BYTES
}

/// Whether every member is small enough to fit the archive once it is
/// compressed.
pub open spec fn members_fit(members: Seq<(Seq<char>, bool, Seq<u8>)>) -> bool {
    forall|i: int| 0 <= i < members.len() ==> (#[trigger] members[i]).2.len() <= MAX_MEMBER_BYTES
}

/// `zip::ZipWriter::new` on an empty in-memory buffer: a writer for a new
/// archive, which takes calls and holds no member yet.
#[verifier::external_body]
fn archive_new() -> (w: ArchiveWriter)
    ensures
        archive_open(w),
        archive_members(w) == Seq::<(Seq<char>, bool, Seq<u8>)>::empty(),
{
    ArchiveWriter { inner: zip::ZipWriter::new(std::io::Cursor::new(Vec::new())) }
}

/// `zip::ZipWriter::start_file`: opens a member called `name`, stored as
/// `compression` says, with the given Unix permission bits. Where it
/// succeeds the writer holds one member more, empty and called `name`.
/// On a writer that takes calls and holds no member yet it does succeed,
/// and the writer goes on taking calls: writing the member's header into
/// memory cannot fail.
#[verifier::external_body]
fn archive_start_file(
    w: &mut ArchiveWriter,
    name: &str,
    compression: Compression,
    permissions: u32,
) -> (r: Result<(), zip::result::ZipError>)
    ensures
        r is Ok ==> archive_members(*final(w)) == archive_members(*old(w)).push(
            (name@, compression == Compression::Deflated, Seq::<u8>::empty()),
        ),
        archive_open(*old(w)) && archive_members(*old(w)).len() == 0 ==> r is Ok && archive_open(
            *final(w),
        ),
{
    let method = match compression {
        Compression::Stored => zip::CompressionMethod::Stored,
        Compression::Deflated => zip::CompressionMethod::Deflated,
    };
    let options =
        zip::write::FileOptions::default().compression_method(method).unix_permissions(permissions);
    w.inner.start_file(name, options)
}

/// `std::io::Write::write_all` on the archive writer. Where it succeeds
/// on a writer that holds a member, `data` now stands behind what the
/// member opened last held. On a writer that takes calls it does succeed
/// as long as that member stays within what the writer takes for one
/// member, and the writer goes on taking calls.
#[verifier::external_body]
fn archive_write_all(w: &mut ArchiveWriter, data: &[u8]) -> (r: Result<(), zip::result::ZipError>)
    ensures
        r is Ok && archive_members(*old(w)).len() > 0 ==> archive_members(*final(w))
            == archive_members(*old(w)).drop_last().push(
            (
                archive_members(*old(w)).last().0,
                archive_members(*old(w)).last().1,
                archive_members(*old(w)).last().2 + data@,
            ),
        ),
        archive_open(*old(w)) && archive_members(*old(w)).len() > 0 && archive_members(
            *old(w),
        ).last().2.len() + data@.len() <= MAX_WRITTEN_BYTES ==> r is Ok && archive_open(*final(w)),
{
    std::io::Write::write_all(&mut w.inner, data).map_err(zip::result::ZipError::Io)
}

/// `zip::ZipWriter::finish`: closes the archive and hands out its bytes.
/// Where it succeeds and the names of the members fit the format's 16-bit
/// length field, the bytes are an archive of the members that the writer
/// held; a longer name the writer cuts down without complaint, and of
/// such an archive nothing is claimed. On a writer that takes calls it
/// does succeed as long as every member is small enough to fit once it is
/// compressed.
#[verifier::external_body]
fn archive_finish(w: &mut ArchiveWriter) -> (r: Result<Vec<u8>, zip::result::ZipError>)
    ensures
        member_names_fit(archive_members(*old(w))) ==> (r matches Ok(bytes) ==> archive_holds(
            bytes@,
            archive_members(*old(w)),
        )),
        archive_open(*old(w)) && members_fit(archive_members(*old(w))) ==> r is Ok,
{
    w.inner.finish().map(|cursor| cursor.into_inner())
}

/// The message of an archive error, as its `Display` gives it. Nothing is
/// claimed of the text.
#[verifier::external_body]
fn archive_error_text(e: &zip::result::ZipError) -> (r: String) {
    e.to_string()
}

/// The header that opens every recording.
pub open spec fn file_header() -> Seq<char> {
    acmi_header("2023-01-01T00:00:00.000Z"@)
}

/// The name first tried for a recording started `now_secs` seconds after
/// the start of 1970.
pub open spec fn recording_name(now_secs: nat) -> Seq<char> {
    "Stormworks-"@ + decimal_digits(now_secs) + ".zip.acmi"@
}

/// A file name without its last extension: what stands before the last
/// dot, or the whole name when the only dot leads it or there is none.
pub open spec fn file_stem(name: Seq<char>) -> Seq<char> {
    let dot = last_index_of(name, '.', name.len() as int);
    if dot > 0 {
        name.take(dot)
    } else {
        name
    }
}

/// The name of the member of the archive called `file_name`: the stem of
/// `file_name` with `.zip` turned into `.txt`, and `.acmi` behind it.
pub open spec fn archive_member_name(file_name: Seq<char>) -> Seq<char> {
    replaced(file_stem(file_name), ".zip"@, ".txt"@) + ".acmi"@
}

/// Whether `archive` is the archive of the text `content` under the file
/// name `file_name`: its member is named after the file, and its bytes
/// are a zip archive with that one member, deflated, which holds
/// `content` in UTF-8. The bytes are vouched for where the member's name
/// fits the archive format.
pub open spec fn is_archive_of(archive: SavedArchive, file_name: Seq<char>, content: Seq<char>) -> bool {
    &&& archive.member_name@ == archive_member_name(file_name)
    &&& member_name_fits(file_name) ==> archive_holds(
        archive.bytes@,
        seq![(archive.member_name@, true, encode_utf8(content))],
    )
}

/// Whether the member name that goes with the file name `file_name` fits
/// the 16-bit length field of the archive format.
pub open spec fn member_name_fits(file_name: Seq<char>) -> bool {
    encode_utf8(archive_member_name(file_name)).len() <= MAX_MEMBER_NAME_BYTES
}

/// Whether the text `content` is small enough to be archived for sure.
pub open spec fn content_fits(content: Seq<char>) -> bool {
    encode_utf8(content).len() <= MAX_MEMBER_BYTES
}

/// The name that a recorder gives a recording is short enough for the
/// member name that goes with it to fit an archive.
pub proof fn lemma_recording_name_fits(now_secs: nat, taken: Seq<String>, target: Seq<char>)
    requires
        now_secs <= u64::MAX,
        taken.len() <= u64::MAX,
        is_output_name(recording_name(now_secs), taken, target),
    ensures
        member_name_fits(target),
{
    reveal_strlit("Stormworks-");
    reveal_strlit(".zip.acmi");
    reveal_strlit(".zip");
    reveal_strlit(".txt");
    reveal_strlit(".acmi");
    lemma_decimal_len_u64(now_secs);
    let base = recording_name(now_secs);
    assert(base.len() <= 40);
    lemma_output_name_len(base, taken, target);
    let stem = file_stem(target);
    assert(stem.len() <= target.len()) by {
        lemma_counter_position_in_range(target);
        if last_index_of(target, '.', target.len() as int) > 0 {
            lemma_last_index_below(target, '.', target.len() as int);
        }
    }
    lemma_replaced_len(stem, ".zip"@, ".txt"@);
    lemma_encoded_len(archive_member_name(target));
}

/// The last position of a character, where there is one, is a position
/// of the text.
proof fn lemma_last_index_below(s: Seq<char>, c: char, upto: int)
    requires
        upto <= s.len(),
    ensures
        last_index_of(s, c, upto) < upto || last_index_of(s, c, upto) == -1,
    decreases upto,
{
    if upto > 0 && s[upto - 1] != c {
        lemma_last_index_below(s, c, upto - 1);
    }
}

/// What a recorder holds.
pub enum Recording {
    /// No recording is under way.
    Idle,
    /// A recording is under way.
    Active {
        /// The name of the archive that the recording will become.
        target: Seq<char>,
        /// The header and the records written so far.
        staged: Seq<char>,
    },
}

impl Recording {
    /// The state after a record is written: it is appended to a recording
    /// under way and dropped otherwise.
    pub open spec fn after_write(self, acmi: Seq<char>) -> Recording {
        match self {
            Recording::Idle => Recording::Idle,
            Recording::Active { target, staged } => Recording::Active {
                target,
                staged: staged + acmi,
            },
        }
    }

    /// Whether `self` is a fresh recording started at `now_secs` when the
    /// names `taken` were in use: it holds the header alone, and its name
    /// is the first candidate for `recording_name(now_secs)` that is free.
    /// Such a name is short, so that the member name fits an archive.
    pub open spec fn fresh(self, now_secs: nat, taken: Seq<String>) -> bool {
        self matches Recording::Active { target, staged } && staged == file_header()
            && is_output_name(recording_name(now_secs), taken, target) && member_name_fits(
            target,
        )
    }

    /// Whether what is staged, if anything, is small enough to be
    /// archived for sure.
    pub open spec fn fits(self) -> bool {
        self matches Recording::Active { staged, .. } ==> content_fits(staged)
    }

    /// Whether `archive` is what stopping in state `self` hands out: it
    /// is named as the recording was, and its bytes are an archive whose
    /// only member holds the staged text.
    pub open spec fn archived_as(self, archive: SavedArchive) -> bool {
        self matches Recording::Active { target, staged } && archive.file_name@ == target
            && archive.content@ == staged && is_archive_of(archive, target, staged)
    }
}

/// What a recorder holds in memory. The target name and the staging
/// buffer exist together, and exactly while a recording is under way.
enum FileAcmiState {
    Idle,
    Active { filename: String, staging: String },
}

/// The recording sink.
pub struct FileAcmiRepository {
    state: FileAcmiState,
    config: AppConfig,
}

/// What became of a recorder's recording when the recorder was torn down.
#[derive(Debug)]
pub enum Teardown {
    /// No recording was under way.
    Idle,
    /// The recording was archived.
    Saved(SavedArchive),
    /// A recording was under way, and archiving it failed.
    Failed(StopError),
}

impl View for FileAcmiRepository {
    type V = Recording;

    closed spec fn view(&self) -> Recording {
        match self.state {
            FileAcmiState::Idle => Recording::Idle,
            FileAcmiState::Active { filename, staging } => Recording::Active {
                target: filename@,
                staged: staging@,
            },
        }
    }
}

fn stem_end(name: &Vec<char>) -> (at: usize)
    ensures
        at <= name.len(),
        name@.take(at as int) == file_stem(name@),
{
    let mut i: usize = name.len();
    while i > 0
        invariant
            i <= name.len(),
            last_index_of(name@, '.', name.len() as int) == last_index_of(name@, '.', i as int),
        decreases i,
    {
        if name[i - 1] == '.' {
            if i - 1 > 0 {
                return i - 1;
            }
            assert(name@.take(name.len() as int) =~= name@);
            return name.len();
        }
        i -= 1;
    }
    assert(name@.take(name.len() as int) =~= name@);
    name.len()
}

/// The name of the only member of the archive called `file_name`.
pub fn member_name_for(file_name: &str) -> (r: String)
    ensures
        r@ == archive_member_name(file_name@),
{
    let chars = chars_of(file_name);
    let at = stem_end(&chars);
    proof {
        reveal_strlit(".zip");
    }
    let mut r = replace_all(file_name.substring_char(0, at), ".zip", ".txt");
    r.append(".acmi");
    r
}

/// The error for a failure of the archive writer at `stage`.
pub fn stop_error(stage: ArchiveStage, detail: String) -> (e: StopError)
    ensures
        e.stage == stage,
        e.detail == detail,
{
    StopError { stage, detail }
}

/// Turns the staged text of a recording into an archive with one deflated
/// member. The archive is built in memory: text that is small enough to
/// fit the archive for sure is always archived. Of larger text the
/// archive writer decides; a failure names the step that failed.
pub fn save_acmi_file(file_name: String, content: String) -> (r: Result<SavedArchive, StopError>)
    ensures
        content_fits(content@) ==> r is Ok,
        r matches Ok(archive) ==> archive.file_name == file_name && archive.content == content
            && is_archive_of(archive, file_name@, content@),
{
    let member_name = member_name_for(file_name.as_str());
    let mut writer = archive_new();
    let ghost member = (member_name@, true, encode_utf8(content@));
    match archive_start_file(&mut writer, member_name.as_str(), Compression::Deflated, 0o755) {
        Ok(()) => {},
        Err(e) => {
            return Err(stop_error(ArchiveStage::StartMember, archive_error_text(&e)));
        },
    }
    match archive_write_all(&mut writer, content.as_str().as_bytes()) {
        Ok(()) => {},
        Err(e) => {
            return Err(stop_error(ArchiveStage::WriteContent, archive_error_text(&e)));
        },
    }
    assert(archive_members(writer) =~= seq![member]) by {
        assert(Seq::<u8>::empty() + member.2 =~= member.2);
    }
    match archive_finish(&mut writer) {
        Ok(bytes) => Ok(SavedArchive { file_name, member_name, content, bytes }),
        Err(e) => Err(stop_error(ArchiveStage::Finalize, archive_error_text(&e))),
    }
}

impl FileAcmiRepository {
    /// A recorder with the default configuration, not recording: its
    /// archives belong in the default output directory.
    pub fn new() -> (r: Self)
        ensures
            r@ == Recording::Idle,
            ends_with(r.config().output_dir@, output_dir_name()),
    {
        Self::new_with_config(AppConfig::default())
    }

    /// A recorder with the given configuration, not recording.
    pub fn new_with_config(config: AppConfig) -> (r: Self)
        ensures
            r@ == Recording::Idle,
            r.config() == config,
    {
        FileAcmiRepository { state: FileAcmiState::Idle, config }
    }

    /// The recorder's configuration.
    pub closed spec fn config(&self) -> AppConfig {
        self.config
    }

    /// The directory that the recorder's archives belong in.
    pub fn output_dir(&self) -> (r: &String)
        ensures
            *r == self.config().output_dir,
    {
        &self.config.output_dir
    }

    /// The header that opens every recording.
    pub fn generate_acmi_header() -> (r: String)
        ensures
            r@ == file_header(),
    {
        build_acmi_header("2023-01-01T00:00:00.000Z")
    }

    /// The name for a recording started at `now_secs` that none of `taken`
    /// has.
    pub fn generate_filename(&self, now_secs: u64, taken: &Vec<String>) -> (r: String)
        ensures
            is_output_name(recording_name(now_secs as nat), taken@, r@),
    {
        let mut base = String::from_str("Stormworks-");
        push_decimal(&mut base, now_secs);
        base.append(".zip.acmi");
        assert(base@ =~= recording_name(now_secs as nat));
        self.config.generate_output_path(base.as_str(), taken)
    }

    /// Starts a recording at the given time. A recording under way is
    /// dropped without being archived: the last start wins.
    pub fn start_at(&mut self, now_secs: u64, taken: &Vec<String>)
        ensures
            final(self)@.fresh(now_secs as nat, taken@),
            final(self).config() == old(self).config(),
    {
        let filename = self.generate_filename(now_secs, taken);
        let header = Self::generate_acmi_header();
        proof {
            assert(taken@.len() == taken.len());
            lemma_recording_name_fits(now_secs as nat, taken@, filename@);
        }
        self.state = FileAcmiState::Active { filename, staging: header };
    }

    /// Drops a recording under way without archiving it.
    pub fn discard(&mut self)
        ensures
            final(self)@ == Recording::Idle,
            final(self).config() == old(self).config(),
    {
        self.state = FileAcmiState::Idle;
    }

    /// Ends the recording when the recorder goes away: archives it if one
    /// is under way, and reports a failure instead of returning it. A
    /// recording whose text fits an archive for sure is always saved.
    pub fn teardown(self) -> (r: Teardown)
        ensures
            match r {
                Teardown::Idle => self@ == Recording::Idle,
                Teardown::Saved(archive) => self@.archived_as(archive),
                Teardown::Failed(_) => self@ != Recording::Idle && !self@.fits(),
            },
    {
        let mut this = self;
        match this.stop() {
            Ok(None) => Teardown::Idle,
            Ok(Some(archive)) => Teardown::Saved(archive),
            Err(e) => Teardown::Failed(e),
        }
    }
}

impl Default for FileAcmiRepository {
    fn default() -> (r: Self)
        ensures
            r@ == Recording::Idle,
            ends_with(r.config().output_dir@, output_dir_name()),
    {
        Self::new()
    }
}

impl AcmiRepository for FileAcmiRepository {
    open spec fn write_post(&self, acmi: Seq<char>, post: &Self, result: Result<(), WriteError>) -> bool {
        &&& result is Ok
        &&& post@ == self@.after_write(acmi)
        &&& post.config() == self.config()
    }

    /// Appends the record to the recording under way; without one the
    /// record is dropped. Never fails.
    fn write(&mut self, acmi: &str) -> (r: Result<(), WriteError>) {
        match &mut self.state {
            FileAcmiState::Active { staging, .. } => {
                staging.append(acmi);
            },
            FileAcmiState::Idle => {},
        }
        Ok(())
    }

    fn step(&self) {
    }
}

impl AcmiFileRepository for FileAcmiRepository {
    /// Starts a recording named after the current time. A recording under
    /// way is dropped first, also when the clock then cannot be read.
    fn start(&mut self, taken: &Vec<String>) -> (r: Result<(), StartError>)
        ensures
            final(self).config() == old(self).config(),
            r is Err ==> final(self)@ == Recording::Idle,
            r is Ok ==> exists|now_secs: nat| final(self)@.fresh(now_secs, taken@),
    {
        self.discard();
        match since_epoch() {
            Some((now_secs, _)) => {
                self.start_at(now_secs, taken);
                Ok(())
            },
            None => Err(StartError::ClockBeforeEpoch),
        }
    }

    /// Ends the recording: the recorder goes idle whatever happens, and
    /// the staged text becomes an archive. That cannot fail unless the
    /// text is too large to fit an archive for sure.
    fn stop(&mut self) -> (r: Result<Option<SavedArchive>, StopError>)
        ensures
            final(self)@ == Recording::Idle,
            final(self).config() == old(self).config(),
            old(self)@ == Recording::Idle ==> r matches Ok(None),
            r matches Ok(None) ==> old(self)@ == Recording::Idle,
            r matches Ok(Some(archive)) ==> old(self)@.archived_as(archive),
            old(self)@.fits() ==> r is Ok,
    {
        let mut state = FileAcmiState::Idle;
        std::mem::swap(&mut self.state, &mut state);
        match state {
            FileAcmiState::Idle => Ok(None),
            FileAcmiState::Active { filename, staging } => {
                match save_acmi_file(filename, staging) {
                    Ok(archive) => Ok(Some(archive)),
                    Err(e) => Err(e),
                }
            },
        }
    }

    fn is_recording(&self) -> (b: bool)
        ensures
            b == (self@ != Recording::Idle),
    {
        match self.state {
            FileAcmiState::Idle => false,
            FileAcmiState::Active { .. } => true,
        }
    }
}


/// A call on a recorder, as far as it bears on what the recorder holds.
pub enum RecorderCall {
    /// A start at `now_secs` while the names `taken` are in use.
    Start { now_secs: nat, taken: Seq<String> },
    /// A write of `acmi`.
    Write { acmi: Seq<char> },
    /// A stop.
    Stop,
}

/// Whether `call` may take a recorder from `before` to `after`.
pub open spec fn call_effect(before: Recording, call: RecorderCall, after: Recording) -> bool {
    match call {
        RecorderCall::Start { now_secs, taken } => after.fresh(now_secs, taken),
        RecorderCall::Write { acmi } => after == before.after_write(acmi),
        RecorderCall::Stop => after == Recording::Idle,
    }
}

/// Whether `states` are the states that a new recorder goes through under
/// `calls`.
pub open spec fn is_history(calls: Seq<RecorderCall>, states: Seq<Recording>) -> bool {
    &&& states.len() == calls.len() + 1
    &&& states[0] == Recording::Idle
    &&& forall|i: int|
        0 <= i < calls.len() ==> call_effect(states[i], #[trigger] calls[i], states[i + 1])
}

/// Whether the last start or stop among `calls` is a start.
pub open spec fn last_lifecycle_call_is_start(calls: Seq<RecorderCall>) -> bool
    decreases calls.len(),
{
    if calls.len() == 0 {
        false
    } else {
        match calls.last() {
            RecorderCall::Start { .. } => true,
            RecorderCall::Stop => false,
            RecorderCall::Write { .. } => last_lifecycle_call_is_start(calls.drop_last()),
        }
    }
}

/// The records written after the last start or stop among `calls`, one
/// behind the other.
pub open spec fn written_since_lifecycle_call(calls: Seq<RecorderCall>) -> Seq<char>
    decreases calls.len(),
{
    if calls.len() == 0 {
        Seq::empty()
    } else {
        match calls.last() {
            RecorderCall::Write { acmi } => written_since_lifecycle_call(calls.drop_last()) + acmi,
            _ => Seq::empty(),
        }
    }
}

/// After any sequence of starts, writes and stops a recorder is recording
/// exactly if the last start or stop was a start, and then it holds the
/// header followed by the records written since that start, in the order
/// of the writes: nothing from before the start, and nothing else.
pub proof fn law_recorder_follows_its_calls(calls: Seq<RecorderCall>, states: Seq<Recording>)
    requires
        is_history(calls, states),
    ensures
        (states.last() != Recording::Idle) == last_lifecycle_call_is_start(calls),
        states.last() matches Recording::Active { target, staged } ==> staged == file_header()
            + written_since_lifecycle_call(calls) && member_name_fits(target),
    decreases calls.len(),
{
    if calls.len() > 0 {
        let n = calls.len() - 1;
        let earlier = calls.drop_last();
        let before = states.drop_last();
        assert forall|i: int| 0 <= i < earlier.len() implies call_effect(
            before[i],
            #[trigger] earlier[i],
            before[i + 1],
        ) by {
            assert(call_effect(states[i], calls[i], states[i + 1]));
        }
        law_recorder_follows_its_calls(earlier, before);
        assert(before.last() == states[n]);
        assert(call_effect(states[n], calls[n], states[n + 1]));
        match calls.last() {
            RecorderCall::Start { now_secs, taken } => {
                assert(file_header() + Seq::<char>::empty() =~= file_header());
            },
            RecorderCall::Write { acmi } => {
                match states[n] {
                    Recording::Idle => {},
                    Recording::Active { target, staged } => {
                        assert(file_header() + written_since_lifecycle_call(earlier) + acmi
                            =~= file_header() + (written_since_lifecycle_call(earlier) + acmi));
                    },
                }
            },
            RecorderCall::Stop => {},
        }
    }
}

/// The archive that a stop hands out after any sequence of starts, writes
/// and stops holds one deflated member, and that member holds the header
/// followed by every record written since the last start, in the order of
/// the writes, and nothing else.
pub proof fn law_archive_holds_the_recording(
    calls: Seq<RecorderCall>,
    states: Seq<Recording>,
    archive: SavedArchive,
)
    requires
        is_history(calls, states),
        states.last().archived_as(archive),
    ensures
        archive.content@ == file_header() + written_since_lifecycle_call(calls),
        archive_holds(
            archive.bytes@,
            seq![
                (
                    archive.member_name@,
                    true,
                    encode_utf8(file_header() + written_since_lifecycle_call(calls)),
                ),
            ],
        ),
{
    law_recorder_follows_its_calls(calls, states);
}

/// A text of up to half a billion characters is small enough to be
/// archived for sure.
pub proof fn lemma_content_fits(content: Seq<char>)
    requires
        content.len() <= 0x1FFF_FFFF,
    ensures
        content_fits(content),
{
    lemma_encoded_len(content);
}

/// The header that opens every recording is 368 characters long.
pub proof fn lemma_file_header_len()
    ensures
        file_header().len() == 368,
{
    reveal_strlit("2023-01-01T00:00:00.000Z");
    lemma_acmi_header_len("2023-01-01T00:00:00.000Z"@);
}

/// A write to an idle recorder leaves it idle, and a stop then hands out
/// no archive: what is written while no recording is under way is kept
/// nowhere.
pub proof fn law_idle_write_is_dropped(acmi: Seq<char>)
    ensures
        Recording::Idle.after_write(acmi) == Recording::Idle,
        forall|archive: SavedArchive| !Recording::Idle.archived_as(archive),
{
}


} // verus!
