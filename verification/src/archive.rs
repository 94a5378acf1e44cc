//! Assembly of the container: every entry stored, with fixed permission bits,
//! written through the `zip` crate into memory.

use vstd::prelude::*;
use vstd::string::*;
use crate::error::PackError;
use crate::worklist::WorklistEntry;

verus! {

/// `zip::result::ZipError`, opaque to the verifier.
#[verifier::external_type_specification]
#[verifier::external_body]
pub struct ExZipError(zip::result::ZipError);

/// An archive under construction in memory: a `zip::ZipWriter` over a
/// `std::io::Cursor<Vec<u8>>`. The verifier sees nothing inside it.
#[verifier::external_body]
pub struct MemoryWriter {
    inner: zip::ZipWriter<std::io::Cursor<Vec<u8>>>,
}

/// How the bytes of a member are kept in the archive.
#[derive(Debug, Clone, Copy, PartialEq, Eq)]
pub enum StorageMethod {
    /// As they are, without compression.
    Stored,
}

/// One member of an archive: its path, its storage method, its permission
/// bits, its bytes.
pub type Member = (Seq<char>, StorageMethod, u32, Seq<u8>);

/// The most bytes that a member can hold: one more, and the writer closes.
pub const MEMBER_LIMIT: u64 = 0xFFFF_FFFF;

/// The most bytes that a member's path can have: the archive keeps the
/// length of a path in sixteen bits.
pub const NAME_LIMIT: u64 = 0xFFFF;

/// The members that a writer has recorded so far, in the order in which they
/// were started, each with the bytes written for it.
pub uninterp spec fn zip_entries(w: MemoryWriter) -> Seq<Member>;

/// Whether the writer is open. It closes itself when a write takes a member
/// past `MEMBER_LIMIT` bytes, and it stays closed.
pub uninterp spec fn zip_intact(w: MemoryWriter) -> bool;

/// The bytes of the finished archive that holds the given members.
pub uninterp spec fn zip_image(entries: Seq<Member>) -> Seq<u8>;

/// `entries` with `bytes` added to the end of its last member.
pub open spec fn append_to_last(entries: Seq<Member>, bytes: Seq<u8>) -> Seq<Member> {
    if entries.len() == 0 {
        entries
    } else {
        let last = entries.last();
        entries.update(entries.len() - 1, (last.0, last.1, last.2, last.3 + bytes))
    }
}

/// `zip::ZipWriter::new` over an empty `std::io::Cursor<Vec<u8>>`: an open
/// writer with no members.
#[verifier::external_body]
fn zip_new() -> (w: MemoryWriter)
    ensures
        zip_entries(w) == Seq::<Member>::empty(),
        zip_intact(w),
{
    MemoryWriter { inner: zip::ZipWriter::new(std::io::Cursor::new(Vec::new())) }
}

/// `zip::ZipWriter::start_file`, with `zip::write::FileOptions` set to the
/// method `method` and to the permissions `mode`. The call succeeds exactly
/// on an open writer: it ends the member before, which is within the limit,
/// and writes a header into memory, which takes every write. The writer then
/// has one more member, named `name`, with that method, the low nine bits of
/// `mode` (`unix_permissions` keeps only those) and no bytes yet. A closed
/// writer answers with an error and stays closed.
#[verifier::external_body]
fn zip_start_file(w: &mut MemoryWriter, name: &str, method: StorageMethod, mode: u32) -> (r: Result<
    (),
    zip::result::ZipError,
>)
    ensures
        r is Ok <==> zip_intact(*old(w)),
        zip_intact(*final(w)) == zip_intact(*old(w)),
        r is Ok ==> zip_entries(*final(w)) == zip_entries(*old(w)).push(
            (name@, method, mode & 0o777, Seq::<u8>::empty()),
        ),
{
    let method = match method {
        StorageMethod::Stored => zip::CompressionMethod::Stored,
    };
    let options = zip::write::FileOptions::default().compression_method(method).unix_permissions(
        mode,
    );
    w.inner.start_file(name, options)
}

/// `std::io::Write::write_all` on the `zip::ZipWriter`, its error turned into
/// a `ZipError`. On an open writer with a member started, the call succeeds
/// exactly if the member stays within `MEMBER_LIMIT` bytes; otherwise the
/// writer closes itself and answers with an error. On success all of `bytes`
/// has gone to the member started last, and the writer is as open as before.
#[verifier::external_body]
fn zip_write_all(w: &mut MemoryWriter, bytes: &[u8]) -> (r: Result<(), zip::result::ZipError>)
    ensures
        zip_intact(*old(w)) && zip_entries(*old(w)).len() > 0 ==> (r is Ok <==> zip_entries(
            *old(w),
        ).last().3.len() + bytes@.len() <= MEMBER_LIMIT),
        zip_intact(*old(w)) && zip_entries(*old(w)).len() > 0 && r is Err ==> !zip_intact(
            *final(w),
        ),
        r is Ok ==> zip_entries(*final(w)) == append_to_last(zip_entries(*old(w)), bytes@),
        r is Ok ==> zip_intact(*final(w)) == zip_intact(*old(w)),
{
    std::io::Write::write_all(&mut w.inner, bytes).map_err(zip::result::ZipError::from)
}

/// `zip::ZipWriter::finish`, then the cursor's buffer. The call succeeds
/// exactly on an open writer, and the bytes are then the archive of its
/// members.
#[verifier::external_body]
fn zip_finish(w: MemoryWriter) -> (r: Result<Vec<u8>, zip::result::ZipError>)
    ensures
        r is Ok <==> zip_intact(w),
        r matches Ok(bytes) ==> bytes@ == zip_image(zip_entries(w)),
{
    let mut w = w;
    w.inner.finish().map(|cursor| cursor.into_inner())
}

/// The text of a `zip::result::ZipError`, as its `Display` gives it.
#[verifier::external_body]
fn zip_error_text(e: &zip::result::ZipError) -> (text: String) {
    format!("{}", e)
}

/// Permission bits of every member.
pub const ENTRY_MODE: u32 = 0o755;

/// Storage method of every member.
pub open spec fn entry_method() -> StorageMethod {
    StorageMethod::Stored
}

/// A worklist entry with the bytes of its source, or with the reason why
/// they could not be read.
#[derive(Debug, PartialEq, Eq)]
pub struct LoadedEntry {
    pub entry: WorklistEntry,
    pub content: Result<Vec<u8>, String>,
}

/// An entry that did not reach the archive. The run goes on after it.
#[derive(Debug, Clone, PartialEq, Eq)]
pub struct EntryWriteFailure {
    /// Position of the entry in the worklist.
    pub index: usize,
    pub destination: String,
    pub reason: String,
}

/// What an `EntryWriteFailure` stands for.
pub ghost struct FailureView {
    pub index: int,
    pub destination: Seq<char>,
    pub reason: Seq<char>,
}

impl View for EntryWriteFailure {
    type V = FailureView;

    open spec fn view(&self) -> FailureView {
        FailureView {
            index: self.index as int,
            destination: self.destination@,
            reason: self.reason@,
        }
    }
}

/// What a run of the assembler leaves behind.
#[derive(Debug, PartialEq, Eq)]
pub struct PackReport {
    /// The bytes of the container.
    pub archive: Result<Vec<u8>, String>,
    /// The entries that failed, in worklist order.
    pub failures: Vec<EntryWriteFailure>,
}

/// The failures of a list, each by its view.
pub open spec fn failures_view(failures: Seq<EntryWriteFailure>) -> Seq<FailureView> {
    failures.map_values(|f: EntryWriteFailure| f@)
}

/// The path has more bytes than a member's path can have.
pub open spec fn name_too_long(name: Seq<char>) -> bool {
    vstd::utf8::encode_utf8(name).len() > NAME_LIMIT
}

/// A member of this path and these bytes can be written.
pub open spec fn member_fits(name: Seq<char>, bytes: Seq<u8>) -> bool {
    !name_too_long(name) && bytes.len() <= MEMBER_LIMIT
}

/// Reason given for a path that is too long.
pub open spec fn long_name_text() -> Seq<char> {
    "destination is longer than 65535 bytes"@
}

/// Reason given for a source that is too large.
pub open spec fn oversize_text() -> Seq<char> {
    "source is larger than 4294967295 bytes"@
}

/// Reason given for a member that does not fit.
pub open spec fn refusal_text(name: Seq<char>) -> Seq<char> {
    if name_too_long(name) {
        long_name_text()
    } else {
        oversize_text()
    }
}

/// The entry reaches the archive: its source was read, and the member fits.
pub open spec fn writable(e: LoadedEntry) -> bool {
    e.content is Ok && member_fits(e.entry.destination@, e.content->Ok_0@)
}

/// Why an entry that is not writable fails: the reason why its source was not
/// read, or else why its member does not fit.
pub open spec fn failure_reason(e: LoadedEntry) -> Seq<char> {
    if e.content is Err {
        e.content->Err_0@
    } else {
        refusal_text(e.entry.destination@)
    }
}

/// The member that a writable entry becomes: stored, with mode 0755, under
/// the entry's destination, holding the source's bytes.
pub open spec fn stored_member(e: LoadedEntry) -> Member {
    (e.entry.destination@, entry_method(), ENTRY_MODE, e.content->Ok_0@)
}

/// The members of the archive that `entries` calls for: one for each
/// writable entry, in worklist order.
pub open spec fn written_members(entries: Seq<LoadedEntry>) -> Seq<Member>
    decreases entries.len(),
{
    if entries.len() == 0 {
        Seq::empty()
    } else if writable(entries.last()) {
        written_members(entries.drop_last()).push(stored_member(entries.last()))
    } else {
        written_members(entries.drop_last())
    }
}

/// The failures that `entries` calls for: one for each entry that is not
/// writable, in worklist order, with the entry's position, its destination
/// and the reason.
pub open spec fn owed_failures(entries: Seq<LoadedEntry>) -> Seq<FailureView>
    decreases entries.len(),
{
    if entries.len() == 0 {
        Seq::empty()
    } else if writable(entries.last()) {
        owed_failures(entries.drop_last())
    } else {
        owed_failures(entries.drop_last()).push(
            FailureView {
                index: entries.len() - 1,
                destination: entries.last().entry.destination@,
                reason: failure_reason(entries.last()),
            },
        )
    }
}

/// Every member that a worklist calls for is stored and has mode 0755, and
/// there are no more members than entries.
pub proof fn lemma_members_mode(entries: Seq<LoadedEntry>)
    ensures
        written_members(entries).len() <= entries.len(),
        forall|k: int|
            0 <= k < written_members(entries).len() ==> (#[trigger] written_members(
                entries,
            )[k]).1 == StorageMethod::Stored && written_members(entries)[k].2 == 0o755,
    decreases entries.len(),
{
    if entries.len() > 0 {
        lemma_members_mode(entries.drop_last());
    }
}

/// Where every entry is writable, no failure is owed, and the archive has one
/// member for each entry, in worklist order, under the entry's destination
/// and with the source's bytes.
pub proof fn lemma_all_writable(entries: Seq<LoadedEntry>)
    requires
        forall|i: int| 0 <= i < entries.len() ==> writable(#[trigger] entries[i]),
    ensures
        owed_failures(entries).len() == 0,
        written_members(entries).len() == entries.len(),
        forall|i: int|
            0 <= i < entries.len() ==> #[trigger] written_members(entries)[i] == stored_member(
                entries[i],
            ),
    decreases entries.len(),
{
    if entries.len() > 0 {
        let front = entries.drop_last();
        assert forall|i: int| 0 <= i < front.len() implies writable(#[trigger] front[i]) by {
            assert(front[i] == entries[i]);
        }
        lemma_all_writable(front);
        assert(writable(entries[entries.len() - 1]));
        assert forall|i: int| 0 <= i < entries.len() implies #[trigger] written_members(
            entries,
        )[i] == stored_member(entries[i]) by {
            if i < front.len() {
                assert(written_members(entries)[i] == written_members(front)[i]);
                assert(front[i] == entries[i]);
            }
        }
    }
}

/// One failing entry costs nothing but itself: every entry is either written
/// or reported, whatever stands before or after it. The failures come in
/// worklist order, each for an entry that is not writable, and every such
/// entry has its failure; there are as many members and failures together as
/// there are entries.
pub proof fn lemma_failures_are_local(entries: Seq<LoadedEntry>)
    ensures
        written_members(entries).len() + owed_failures(entries).len() == entries.len(),
        forall|j: int|
            0 <= j < owed_failures(entries).len() ==> 0 <= (#[trigger] owed_failures(
                entries,
            )[j]).index < entries.len() && !writable(entries[owed_failures(entries)[j].index])
                && owed_failures(entries)[j].destination
                == entries[owed_failures(entries)[j].index].entry.destination@
                && owed_failures(entries)[j].reason == failure_reason(
                entries[owed_failures(entries)[j].index],
            ),
        forall|j: int, k: int|
            0 <= j < k < owed_failures(entries).len() ==> (#[trigger] owed_failures(
                entries,
            )[j]).index < (#[trigger] owed_failures(entries)[k]).index,
        forall|i: int|
            0 <= i < entries.len() && !writable(#[trigger] entries[i]) ==> exists|j: int|
                0 <= j < owed_failures(entries).len() && (#[trigger] owed_failures(
                    entries,
                )[j]).index == i,
    decreases entries.len(),
{
    if entries.len() > 0 {
        let front = entries.drop_last();
        let last: int = entries.len() - 1;
        lemma_failures_are_local(front);
        let owed = owed_failures(entries);
        let before = owed_failures(front);
        assert forall|j: int| 0 <= j < before.len() implies owed[j] == before[j] && front[before[j].index]
            == entries[before[j].index] by {}
        assert forall|i: int|
            0 <= i < entries.len() && !writable(#[trigger] entries[i]) implies exists|j: int|
            0 <= j < owed.len() && (#[trigger] owed[j]).index == i by {
            if i < last {
                assert(front[i] == entries[i]);
                let j: int = choose|j: int|
                    0 <= j < before.len() && (#[trigger] before[j]).index == i;
                assert(owed[j].index == i);
            } else {
                assert(owed[owed.len() - 1].index == i);
            }
        }
    }
}

/// Adds a failure to the list if `outcome` is one, and nothing otherwise.
pub fn note_outcome(
    failures: &mut Vec<EntryWriteFailure>,
    index: usize,
    destination: &str,
    outcome: Result<(), String>,
)
    ensures
        match outcome {
            Ok(()) => final(failures)@ == old(failures)@,
            Err(reason) => failures_view(final(failures)@) == failures_view(old(failures)@).push(
                FailureView { index: index as int, destination: destination@, reason: reason@ },
            ),
        },
{
    match outcome {
        Ok(()) => {},
        Err(reason) => {
            let ghost before = failures@;
            let ghost view = FailureView {
                index: index as int,
                destination: destination@,
                reason: reason@,
            };
            failures.push(
                EntryWriteFailure { index, destination: String::from_str(destination), reason },
            );
            assert(failures_view(failures@) =~= failures_view(before).push(view));
        },
    }
}

/// Writes a stored member named `name`, with mode 0755 and the given bytes,
/// if such a member fits. One that does not fit is refused before the writer
/// is touched, so that the writer stays open for the entries that follow.
fn add_member(w: &mut MemoryWriter, name: &str, bytes: &[u8]) -> (r: Result<(), String>)
    requires
        zip_intact(*old(w)),
    ensures
        zip_intact(*final(w)),
        r is Ok <==> member_fits(name@, bytes@),
        r is Ok ==> zip_entries(*final(w)) == zip_entries(*old(w)).push(
            (name@, entry_method(), ENTRY_MODE, bytes@),
        ),
        r matches Err(reason) ==> zip_entries(*final(w)) == zip_entries(*old(w)) && reason@
            == refusal_text(name@),
{
    if name.as_bytes().len() as u64 > NAME_LIMIT {
        return Err(String::from_str("destination is longer than 65535 bytes"));
    }
    if bytes.len() as u64 > MEMBER_LIMIT {
        return Err(String::from_str("source is larger than 4294967295 bytes"));
    }
    assert(0o755u32 & 0o777 == 0o755u32) by (bit_vector);
    match zip_start_file(w, name, StorageMethod::Stored, ENTRY_MODE) {
        Err(e) => Err(zip_error_text(&e)),
        Ok(()) => {
            let ghost started = zip_entries(*w);
            assert(started.last().3.len() == 0);
            match zip_write_all(w, bytes) {
                Err(e) => Err(zip_error_text(&e)),
                Ok(()) => {
                    assert(Seq::<u8>::empty() + bytes@ =~= bytes@);
                    assert(append_to_last(started, bytes@) =~= zip_entries(*old(w)).push(
                        (name@, entry_method(), ENTRY_MODE, bytes@),
                    ));
                    Ok(())
                },
            }
        },
    }
}

/// Judges the creation of the output file at `path`, from what the file system
/// answered. A failure is fatal: no entry is attempted after it.
pub fn make_file(path: &str, created: Result<(), String>) -> (r: Result<(), PackError>)
    ensures
        match r {
            Ok(()) => created is Ok,
            Err(PackError::OutputCreateFailure { path: at, reason }) => created is Err && at@
                == path@ && reason@ == created->Err_0@,
            Err(_) => false,
        },
{
    match created {
        Ok(()) => Ok(()),
        Err(reason) => Err(
            PackError::OutputCreateFailure { path: String::from_str(path), reason },
        ),
    }
}

/// What packing leaves behind for `entries`: the finished archive of exactly
/// the writable entries, and one failure for each of the others.
pub open spec fn packed(report: PackReport, entries: Seq<LoadedEntry>) -> bool {
    &&& report.archive is Ok
    &&& report.archive->Ok_0@ == zip_image(written_members(entries))
    &&& failures_view(report.failures@) == owed_failures(entries)
}

/// Assembles the container in memory. Each writable entry becomes a stored
/// member with mode 0755 under its destination, in worklist order. An entry
/// that cannot be written is reported and the run goes on to the next: that
/// is an entry whose source was not read, whose destination is too long, or
/// whose source is too large. The archive is finished once, at the end, and
/// always comes out.
pub fn pack_entries(entries: &Vec<LoadedEntry>) -> (report: PackReport)
    ensures
        packed(report, entries@),
{
    let n: usize = entries.len();
    let mut w = zip_new();
    let mut failures: Vec<EntryWriteFailure> = Vec::new();
    let mut i: usize = 0;
    while i < n
        invariant
            n == entries@.len(),
            i <= n,
            zip_intact(w),
            zip_entries(w) == written_members(entries@.take(i as int)),
            failures_view(failures@) == owed_failures(entries@.take(i as int)),
        decreases n - i,
    {
        let e = &entries[i];
        proof {
            assert(entries@.take(i + 1).drop_last() =~= entries@.take(i as int));
            assert(entries@.take(i + 1).last() == entries@[i as int]);
        }
        let outcome = match &e.content {
            Err(reason) => Err(reason.clone()),
            Ok(bytes) => add_member(&mut w, e.entry.destination.as_str(), bytes.as_slice()),
        };
        note_outcome(&mut failures, i, e.entry.destination.as_str(), outcome);
        i = i + 1;
    }
    proof {
        assert(entries@.take(n as int) =~= entries@);
    }
    let archive = match zip_finish(w) {
        Ok(bytes) => Ok(bytes),
        Err(e) => Err(zip_error_text(&e)),
    };
    PackReport { archive, failures }
}

/// Packs `entries` for the output file at `vpk_path`, from what the file
/// system answered to the file's creation. Where the file could not be
/// created the run ends with `OutputCreateFailure` and no entry is attempted;
/// otherwise the entries are packed as `pack_entries` does.
pub fn pack_vpk(entries: &Vec<LoadedEntry>, vpk_path: &str, created: Result<(), String>) -> (r:
    Result<PackReport, PackError>)
    ensures
        r is Err <==> created is Err,
        match r {
            Ok(report) => packed(report, entries@),
            Err(PackError::OutputCreateFailure { path, reason }) => path@ == vpk_path@ && reason@
                == created->Err_0@,
            Err(_) => false,
        },
{
    match make_file(vpk_path, created) {
        Err(e) => Err(e),
        Ok(()) => Ok(pack_entries(entries)),
    }
}

} // verus!
