//! From bytes that arrive in chunks to the statistics of the files in an
//! archive.
//!
//! The chunks of a download are handed, in the order of their arrival, to a
//! `StreamReader`, which hands them on as one stream of bytes to whoever
//! unpacks the archive. The entries of the archive are then judged one by
//! one: an entry is left out, or cannot be read, or gives the record of a
//! file.

use crate::analysis::{
    distinct_languages, lemma_add_all_keeps_step, lemma_same_report_after_all,
    lemma_same_report_same_room, same_record, same_records, same_report, FileCategory,
    FileMetrics, ProjectAnalysis, ProjectView,
};
use crate::classifier::{analyze_file_content, counts_of, lines_of, LineCounts, Syntax};
use crate::error::{AnalysisError, Result};
use crate::filter::{FilterStats, IntelligentFilter};
use crate::net::traits::ProgressHook;
use crate::registry::LanguageRegistry;
use crate::text::is_prefix;
use vstd::prelude::*;
use vstd::string::*;

verus! {

/// How many chunks may wait in the queue between the download and the
/// reader: a download that is ahead by so many is held back until the
/// reader has caught up.
pub const QUEUE_CAPACITY: usize = 32;

/// What the queue between the download and the reader hands over.
pub enum ChunkEvent {
    /// The next bytes of the download.
    Chunk(Vec<u8>),
    /// The download broke off, for the reason given.
    Failed(String),
    /// The download is complete.
    Closed,
}

/// What a reader has for who asks it for bytes.
pub enum ReadStep {
    /// The next bytes of the stream: at least one and at most as many as
    /// were asked for; none only where none was asked for.
    Bytes(Vec<u8>),
    /// The download broke off, for the reason given.
    Failed(String),
    /// The stream has ended.
    EndOfStream,
    /// The reader has nothing at hand: the next event of the queue is to be
    /// handed to it.
    NeedChunk,
}

/// Turns the chunks of a download into one stream of bytes.
pub struct StreamReader {
    pending: Vec<u8>,
    position: usize,
    finished: bool,
    failure: Option<String>,
    received: Ghost<Seq<u8>>,
    delivered: Ghost<Seq<u8>>,
}

impl StreamReader {
    /// All the bytes of the chunks taken in so far, in the order of their
    /// arrival.
    pub closed spec fn received(&self) -> Seq<u8> {
        self.received@
    }

    /// All the bytes handed out so far, in the order in which they were
    /// handed out.
    pub closed spec fn delivered(&self) -> Seq<u8> {
        self.delivered@
    }

    /// The bytes taken in and not yet handed out.
    pub closed spec fn waiting(&self) -> Seq<u8> {
        self.pending@.skip(self.position as int)
    }

    /// No further chunk is taken in: the download is complete or broke
    /// off.
    pub closed spec fn finished(&self) -> bool {
        self.finished
    }

    /// The reason for which the download broke off, where it did and the
    /// reason has not been handed out yet.
    pub closed spec fn failure(&self) -> Option<Seq<char>> {
        match self.failure {
            Some(reason) => Some(reason@),
            None => None,
        }
    }

    /// The stream is at its end: the download has ended, nothing waits,
    /// and no failure is left to report. A reader that is at the end stays
    /// there, and reports the end of the stream whenever it is asked for
    /// bytes.
    pub open spec fn at_end(&self) -> bool {
        self.finished() && self.waiting().len() == 0 && self.failure() is None
    }

    /// What has been handed out and what waits make up, in this order, what
    /// has been taken in.
    pub closed spec fn inv(&self) -> bool {
        &&& self.position <= self.pending@.len()
        &&& self.delivered@ + self.pending@.skip(self.position as int) == self.received@
        &&& self.failure is Some ==> self.finished
    }

    /// The bytes that a reader takes in with an event: those of a chunk,
    /// unless the download has ended before.
    pub open spec fn taken_in(finished: bool, event: ChunkEvent) -> Seq<u8> {
        match event {
            ChunkEvent::Chunk(bytes) => if finished {
                Seq::empty()
            } else {
                bytes@
            },
            _ => Seq::empty(),
        }
    }

    /// A reader that has taken in nothing yet.
    pub fn new() -> (reader: Self)
        ensures
            reader.inv(),
            reader.received() == Seq::<u8>::empty(),
            reader.delivered() == Seq::<u8>::empty(),
            reader.waiting() == Seq::<u8>::empty(),
            !reader.finished(),
            reader.failure() is None,
    {
        let reader = StreamReader {
            pending: Vec::new(),
            position: 0,
            finished: false,
            failure: None,
            received: Ghost(Seq::empty()),
            delivered: Ghost(Seq::empty()),
        };
        assert(reader.pending@.skip(0) =~= Seq::<u8>::empty());
        assert(reader.delivered@ + reader.pending@.skip(0) =~= reader.received@);
        reader
    }

    /// Takes in the next event of the queue. The bytes of a chunk are put
    /// behind those that wait; the end of the download, complete or
    /// broken off, is noted. After the end nothing more is taken in.
    pub fn accept(&mut self, event: ChunkEvent)
        requires
            old(self).inv(),
        ensures
            final(self).inv(),
            final(self).delivered() == old(self).delivered(),
            final(self).received() == old(self).received() + Self::taken_in(
                old(self).finished(),
                event,
            ),
            final(self).waiting() == old(self).waiting() + Self::taken_in(
                old(self).finished(),
                event,
            ),
            final(self).finished() == (old(self).finished() || !(event is Chunk)),
            old(self).at_end() ==> final(self).at_end(),
            final(self).failure() == if old(self).finished() {
                old(self).failure()
            } else {
                match event {
                    ChunkEvent::Failed(reason) => Some(reason@),
                    _ => None,
                }
            },
    {
        proof {
            assert(self.received@ + Seq::<u8>::empty() =~= self.received@);
            assert(self.pending@.skip(self.position as int) + Seq::<u8>::empty()
                =~= self.pending@.skip(self.position as int));
        }
        if self.finished {
            return;
        }
        match event {
            ChunkEvent::Chunk(bytes) => {
                let ghost rest = self.pending@.skip(self.position as int);
                if self.position == self.pending.len() {
                    self.pending = bytes;
                    self.position = 0;
                    proof {
                        assert(rest =~= Seq::<u8>::empty());
                        assert(self.pending@.skip(0) =~= rest + bytes@);
                    }
                } else {
                    let mut more = bytes;
                    self.pending.append(&mut more);
                    proof {
                        assert(self.pending@.skip(self.position as int) =~= rest + bytes@);
                    }
                }
                proof {
                    assert(self.delivered@ + (rest + bytes@) =~= self.received@ + bytes@);
                    self.received@ = self.received@ + bytes@;
                }
            },
            ChunkEvent::Failed(reason) => {
                self.finished = true;
                self.failure = Some(reason);
            },
            ChunkEvent::Closed => {
                self.finished = true;
            },
        }
    }

    /// Hands out the next bytes of the stream, at most `limit` of them.
    ///
    /// Bytes that wait are handed out first, in their order. Where none
    /// waits, the reason for which the download broke off is handed out,
    /// once; after the end of the download the end of the stream is
    /// reported; and otherwise the next event of the queue is asked for.
    pub fn take(&mut self, limit: usize) -> (step: ReadStep)
        requires
            old(self).inv(),
        ensures
            final(self).inv(),
            final(self).received() == old(self).received(),
            final(self).finished() == old(self).finished(),
            old(self).at_end() && limit > 0 ==> step is EndOfStream,
            old(self).at_end() ==> final(self).at_end(),
            match step {
                ReadStep::Bytes(bytes) => {
                    &&& bytes@.len() == if limit <= old(self).waiting().len() {
                        limit as int
                    } else {
                        old(self).waiting().len() as int
                    }
                    &&& bytes@ == old(self).waiting().take(bytes@.len() as int)
                    &&& final(self).delivered() == old(self).delivered() + bytes@
                    &&& final(self).waiting() == old(self).waiting().skip(bytes@.len() as int)
                    &&& final(self).failure() == old(self).failure()
                    &&& (limit == 0 || old(self).waiting().len() > 0)
                },
                ReadStep::Failed(reason) => {
                    &&& limit > 0
                    &&& old(self).waiting().len() == 0
                    &&& old(self).failure() == Some(reason@)
                    &&& old(self).finished()
                    &&& final(self).at_end()
                    &&& final(self).delivered() == old(self).delivered()
                    &&& final(self).waiting() == old(self).waiting()
                },
                ReadStep::EndOfStream => {
                    &&& limit > 0
                    &&& old(self).waiting().len() == 0
                    &&& old(self).at_end()
                    &&& final(self).at_end()
                    &&& final(self).delivered() == final(self).received()
                    &&& final(self).delivered() == old(self).delivered()
                    &&& final(self).waiting() == old(self).waiting()
                },
                ReadStep::NeedChunk => {
                    &&& limit > 0
                    &&& old(self).waiting().len() == 0
                    &&& !old(self).finished()
                    &&& final(self).delivered() == old(self).delivered()
                    &&& final(self).waiting() == old(self).waiting()
                    &&& final(self).failure() == old(self).failure()
                },
            },
    {
        let total = self.pending.len();
        let remaining = total - self.position;
        if limit == 0 || remaining > 0 {
            let count = if limit <= remaining {
                limit
            } else {
                remaining
            };
            let ghost rest = self.pending@.skip(self.position as int);
            let mut bytes: Vec<u8> = Vec::new();
            let mut i: usize = 0;
            while i < count
                invariant
                    i <= count,
                    self.pending@.len() == total,
                    self.position + count <= total,
                    bytes@ == self.pending@.subrange(self.position as int, self.position + i),
                decreases count - i,
            {
                bytes.push(self.pending[self.position + i]);
                proof {
                    assert(self.pending@.subrange(self.position as int, self.position + i + 1)
                        =~= self.pending@.subrange(self.position as int, self.position + i).push(
                        self.pending@[self.position + i],
                    ));
                }
                i += 1;
            }
            proof {
                assert(bytes@ =~= rest.take(count as int));
                assert(self.pending@.skip(self.position + count) =~= rest.skip(count as int));
                assert(self.delivered@ + bytes@ + rest.skip(count as int) =~= self.delivered@
                    + rest);
                self.delivered@ = self.delivered@ + bytes@;
            }
            self.position = self.position + count;
            return ReadStep::Bytes(bytes);
        }
        proof {
            assert(self.pending@.skip(self.position as int) =~= Seq::<u8>::empty());
            assert(self.delivered@ + Seq::<u8>::empty() =~= self.delivered@);
        }
        if self.failure.is_some() {
            let failure = self.failure.take();
            return match failure {
                Some(reason) => ReadStep::Failed(reason),
                None => ReadStep::EndOfStream,
            };
        }
        if self.finished {
            return ReadStep::EndOfStream;
        }
        ReadStep::NeedChunk
    }
}

/// However a download is cut into chunks, a reader that has reported the
/// end of the stream has handed out the bytes of the download, all of them
/// and in their order: what it has handed out is what it has taken in.
pub proof fn law_stream_is_faithful(reader: StreamReader)
    requires
        reader.inv(),
        reader.waiting().len() == 0,
    ensures
        reader.delivered() == reader.received(),
{
    assert(reader.delivered() + reader.waiting() == reader.received());
    assert(reader.waiting() =~= Seq::<u8>::empty());
    assert(reader.delivered() + Seq::<u8>::empty() =~= reader.delivered());
}

/// What is made of an entry of the archive.
pub enum EntryOutcome {
    /// The entry is a file that was read: this is its record.
    Included(FileMetrics),
    /// The filter left the entry out.
    Filtered,
    /// The entry is no file, is empty, or does not hold text.
    Unreadable,
}

/// What is to be done with an entry, judged by its header.
#[derive(Debug, Clone, Copy, PartialEq, Eq, Structural)]
pub enum EntryDecision {
    /// The entry is no file, or is empty: it is passed over.
    NotAFile,
    /// The filter leaves the entry out: it is counted and not read.
    Filtered,
    /// The entry is to be read.
    Read,
}

/// What is to be done with an entry whose header names the path `path`,
/// says whether it is a file, and gives its size.
pub open spec fn decision_for(filter: &IntelligentFilter, path: Seq<char>, is_file: bool, size: u64) -> EntryDecision {
    if !is_file || size == 0 {
        EntryDecision::NotAFile
    } else if filter.accepts(path, size) {
        EntryDecision::Read
    } else {
        EntryDecision::Filtered
    }
}

/// The language under which the file at `path` is counted: the name of the
/// language that the catalogue gives it, and `Text` where it gives none.
pub open spec fn language_of(registry: &LanguageRegistry, path: Seq<char>) -> Seq<char> {
    match registry.for_path(path) {
        Some(definition) => definition.name@,
        None => "Text"@,
    }
}

/// `metrics` is the record of the file at `path`, of the given size and
/// content: it is counted under the language of its path, as a source
/// file, and its lines are counted with the comment tokens that the
/// catalogue holds for that language.
pub open spec fn is_record_of(
    registry: &LanguageRegistry,
    metrics: FileMetrics,
    path: Seq<char>,
    size: u64,
    content: Seq<char>,
) -> bool {
    &&& metrics.file_path@ == path
    &&& metrics.language@ == language_of(registry, path)
    &&& metrics.size_bytes == size
    &&& metrics.category == FileCategory::Source
    &&& metrics.counts_add_up()
    &&& metrics.total_lines == lines_of(content).len()
    &&& counts_of(
        Syntax::of_lookup(registry.named(language_of(registry, path))).count(lines_of(content)),
        lines_of(content).len(),
    ) == (LineCounts {
        total_lines: metrics.total_lines,
        code_lines: metrics.code_lines,
        comment_lines: metrics.comment_lines,
        blank_lines: metrics.blank_lines,
    })
}

/// What an archive says of one of its entries: the path in its header,
/// where that can be read; whether the header calls it a file; the size in
/// its header, and zero where that cannot be read; and its content, where
/// that is text.
pub struct EntryFacts {
    pub path: Option<Seq<char>>,
    pub is_file: bool,
    pub size: u64,
    pub content: Option<Seq<char>>,
}

/// What becomes of an entry.
pub enum EntryVerdict {
    /// The path in its header cannot be read: it is passed over.
    InvalidPath,
    /// It is no file, or is empty: it is passed over.
    NotAFile,
    /// The tally has no room for it: it is passed over.
    NoRoom,
    /// The filter leaves it out: it is counted as left out and not read.
    Filtered,
    /// It is counted as read, but does not hold text.
    Unreadable,
    /// It is counted as read and gives a record.
    Included,
}

impl EntryVerdict {
    /// The message with which an entry that gives no record is passed
    /// over. For a path that cannot be read, the reason follows it.
    pub open spec fn message(self) -> Seq<char> {
        match self {
            EntryVerdict::InvalidPath => "Invalid path in tar entry: "@,
            EntryVerdict::NotAFile => "Not a file or empty"@,
            EntryVerdict::NoRoom => "Too many entries to count"@,
            EntryVerdict::Filtered => "File filtered out"@,
            EntryVerdict::Unreadable => "Failed to read file content"@,
            EntryVerdict::Included => Seq::empty(),
        }
    }
}

/// What becomes of an entry by its header alone, when `stats` is the tally
/// so far, and nothing where the entry is to be read.
///
/// An entry that is no file and one that is empty are passed over and not
/// counted. The filter is asked next: what it leaves out is counted, with
/// its size, and not read. What is left is to be read and is counted as
/// read. Where the tally has no room to count the entry, it is passed
/// over.
pub open spec fn header_verdict(
    filter: &IntelligentFilter,
    stats: FilterStats,
    path: Seq<char>,
    is_file: bool,
    size: u64,
) -> Option<EntryVerdict> {
    let decision = decision_for(filter, path, is_file, size);
    if decision == EntryDecision::NotAFile {
        Some(EntryVerdict::NotAFile)
    } else if !stats.can_record(size, decision == EntryDecision::Filtered) {
        Some(EntryVerdict::NoRoom)
    } else if decision == EntryDecision::Filtered {
        Some(EntryVerdict::Filtered)
    } else {
        None
    }
}

/// What becomes of an entry of which the archive says `facts`, when `stats`
/// is the tally so far.
///
/// An entry without a readable path is passed over and not counted. The
/// header is judged next. An entry that is to be read gives a record
/// where it holds text.
pub open spec fn verdict_for(
    filter: &IntelligentFilter,
    stats: FilterStats,
    facts: EntryFacts,
) -> EntryVerdict {
    if facts.path is None {
        EntryVerdict::InvalidPath
    } else {
        match header_verdict(filter, stats, facts.path->0, facts.is_file, facts.size) {
            Some(verdict) => verdict,
            None => if facts.content is None {
                EntryVerdict::Unreadable
            } else {
                EntryVerdict::Included
            },
        }
    }
}

/// The tally after an entry of which the archive says `facts`.
pub open spec fn tally_after(filter: &IntelligentFilter, stats: FilterStats, facts: EntryFacts) -> FilterStats {
    match verdict_for(filter, stats, facts) {
        EntryVerdict::Filtered => stats.with_entry(facts.size, true),
        EntryVerdict::Unreadable | EntryVerdict::Included => stats.with_entry(facts.size, false),
        _ => stats,
    }
}

/// `processed` and `after` are what is made of an entry of which the
/// archive says `facts`, and the tally after it, when `before` was the
/// tally so far: the record of the file where the entry gives one, and
/// otherwise an archive error with the message of what became of it.
pub open spec fn entry_processed(
    filter: &IntelligentFilter,
    registry: &LanguageRegistry,
    before: FilterStats,
    after: FilterStats,
    processed: Result<FileMetrics>,
    facts: EntryFacts,
) -> bool {
    &&& after == tally_after(filter, before, facts)
    &&& match verdict_for(filter, before, facts) {
        EntryVerdict::Included => processed matches Ok(metrics) && is_record_of(
            registry,
            metrics,
            facts.path->0,
            facts.size,
            facts.content->0,
        ),
        EntryVerdict::InvalidPath => processed matches Err(
            AnalysisError::ArchiveError { message },
        ) && is_prefix(message@, EntryVerdict::InvalidPath.message()),
        verdict => processed matches Err(AnalysisError::ArchiveError { message }) && message@
            == verdict.message(),
    }
}

/// A record comes only of an entry that is a file, is not empty and passes
/// the filter; the entry is then counted as read, once, and the record is
/// that of its path, size and content. An entry that gives no record
/// leaves the tally as it was, or is counted once.
pub proof fn law_records_come_of_counted_files(
    filter: &IntelligentFilter,
    registry: &LanguageRegistry,
    before: FilterStats,
    after: FilterStats,
    processed: Result<FileMetrics>,
    facts: EntryFacts,
)
    requires
        entry_processed(filter, registry, before, after, processed, facts),
    ensures
        processed matches Ok(metrics) ==> {
            &&& facts.path matches Some(path)
            &&& facts.content matches Some(content)
            &&& facts.is_file
            &&& facts.size > 0
            &&& filter.accepts(path, facts.size)
            &&& is_record_of(registry, metrics, path, facts.size, content)
            &&& after.total_entries == before.total_entries + 1
            &&& after.processed == before.processed + 1
            &&& after.filtered_out == before.filtered_out
            &&& after.bytes_saved == before.bytes_saved
        },
        processed is Err ==> after == before || after.total_entries == before.total_entries + 1,
        before.in_step() ==> after.in_step(),
{
}

/// The tally after each of `entries`, in order, when `stats` was the tally
/// before the first of them.
pub open spec fn tally_through(
    filter: &IntelligentFilter,
    stats: FilterStats,
    entries: Seq<EntryFacts>,
) -> FilterStats
    decreases entries.len(),
{
    if entries.len() == 0 {
        stats
    } else {
        tally_after(filter, tally_through(filter, stats, entries.drop_last()), entries.last())
    }
}

/// Whether the last of `entries` gives a record, when the entries are
/// taken in order and nothing was counted before the first of them.
pub open spec fn last_gives_record(filter: &IntelligentFilter, entries: Seq<EntryFacts>) -> bool {
    entries.len() > 0 && verdict_for(
        filter,
        tally_through(filter, FilterStats::zero(), entries.drop_last()),
        entries.last(),
    ) is Included
}

/// `record` is the record of the file of which the archive says `facts`.
pub open spec fn is_record_of_entry(
    registry: &LanguageRegistry,
    record: FileMetrics,
    facts: EntryFacts,
) -> bool {
    &&& facts.path is Some
    &&& facts.content is Some
    &&& is_record_of(registry, record, facts.path->0, facts.size, facts.content->0)
}

/// `records` are the records of those of `entries` that give one, one for
/// each and in the order of the entries.
pub open spec fn are_records_of(
    filter: &IntelligentFilter,
    registry: &LanguageRegistry,
    entries: Seq<EntryFacts>,
    records: Seq<FileMetrics>,
) -> bool
    decreases entries.len(),
{
    if entries.len() == 0 {
        records.len() == 0
    } else if last_gives_record(filter, entries) {
        &&& records.len() > 0
        &&& is_record_of_entry(registry, records.last(), entries.last())
        &&& are_records_of(filter, registry, entries.drop_last(), records.drop_last())
    } else {
        are_records_of(filter, registry, entries.drop_last(), records)
    }
}

/// `done` is the failure with which the work ends at a record that
/// `project` cannot take: a record that is not valid is refused with the
/// rule that it breaks, and one that the sums have no room for with an
/// archive error.
pub open spec fn stopped_by(project: ProjectView, record: FileMetrics, done: Result<()>) -> bool {
    if record.is_valid() {
        &&& !project.has_room_for(record)
        &&& done matches Err(AnalysisError::ArchiveError { message })
        &&& message@ == "Too many files to count"@
    } else {
        &&& done matches Err(AnalysisError::InvalidStatistics { reason })
        &&& reason@ == record.invalid_reason()
    }
}

/// `after` and `done` are what comes of reading an archive that holds
/// `entries`, and whose reading breaks off after them if `breaks_off` says
/// so, into the project `before`, when `seen` entries were passed and
/// `records` were added.
///
/// The records of the entries that were passed have been added, in the
/// order of the archive, and each of them was valid and had room. Either
/// every entry was passed: then the work has succeeded, unless the
/// reading broke off, which gives an archive error. Or the entry that
/// came next gives a record that the project could not take: the work
/// ended there with the failure of `stopped_by`.
pub open spec fn archive_read(
    filter: &IntelligentFilter,
    registry: &LanguageRegistry,
    before: ProjectView,
    after: ProjectView,
    done: Result<()>,
    entries: Seq<EntryFacts>,
    breaks_off: bool,
    seen: int,
    records: Seq<FileMetrics>,
) -> bool {
    &&& 0 <= seen <= entries.len()
    &&& are_records_of(filter, registry, entries.take(seen), records)
    &&& before.takes_all(records)
    &&& after == before.add_all(records)
    &&& if seen == entries.len() {
        if breaks_off {
            &&& done matches Err(AnalysisError::ArchiveError { message })
            &&& is_prefix(message@, "Failed to read tar entry: "@)
        } else {
            done is Ok
        }
    } else {
        &&& last_gives_record(filter, entries.take(seen + 1))
        &&& exists|record: FileMetrics| #[trigger]
            is_record_of_entry(registry, record, entries[seen]) && stopped_by(after, record, done)
    }
}

/// `after` and `done` are what comes of reading an archive that holds
/// `entries` into the project `before`.
pub open spec fn archive_was_read(
    filter: &IntelligentFilter,
    registry: &LanguageRegistry,
    before: ProjectView,
    after: ProjectView,
    done: Result<()>,
    entries: Seq<EntryFacts>,
    breaks_off: bool,
) -> bool {
    exists|seen: int, records: Seq<FileMetrics>| #[trigger]
        archive_read(filter, registry, before, after, done, entries, breaks_off, seen, records)
}

/// How many of `entries` give a record.
pub open spec fn records_among(filter: &IntelligentFilter, entries: Seq<EntryFacts>) -> nat
    decreases entries.len(),
{
    if entries.len() == 0 {
        0
    } else if last_gives_record(filter, entries) {
        records_among(filter, entries.drop_last()) + 1
    } else {
        records_among(filter, entries.drop_last())
    }
}

/// The records of the same entries say the same.
proof fn lemma_records_say_the_same(
    filter: &IntelligentFilter,
    registry: &LanguageRegistry,
    entries: Seq<EntryFacts>,
    first: Seq<FileMetrics>,
    second: Seq<FileMetrics>,
)
    requires
        are_records_of(filter, registry, entries, first),
        are_records_of(filter, registry, entries, second),
    ensures
        same_records(first, second),
        first.len() == records_among(filter, entries),
    decreases entries.len(),
{
    if entries.len() > 0 {
        if last_gives_record(filter, entries) {
            lemma_records_say_the_same(
                filter,
                registry,
                entries.drop_last(),
                first.drop_last(),
                second.drop_last(),
            );
            assert forall|at: int| 0 <= at < first.len() implies same_record(
                #[trigger] first[at],
                second[at],
            ) by {
                if at < first.len() - 1 {
                    assert(same_record(first.drop_last()[at], second.drop_last()[at]));
                }
            }
        } else {
            lemma_records_say_the_same(filter, registry, entries.drop_last(), first, second);
        }
    }
}

/// The records of the first entries of an archive are the first of its
/// records.
proof fn lemma_records_of_the_first(
    filter: &IntelligentFilter,
    registry: &LanguageRegistry,
    entries: Seq<EntryFacts>,
    records: Seq<FileMetrics>,
    seen: int,
)
    requires
        are_records_of(filter, registry, entries, records),
        0 <= seen <= entries.len(),
    ensures
        records_among(filter, entries.take(seen)) <= records.len(),
        are_records_of(
            filter,
            registry,
            entries.take(seen),
            records.take(records_among(filter, entries.take(seen)) as int),
        ),
    decreases entries.len(),
{
    if seen == entries.len() {
        assert(entries.take(seen) =~= entries);
        lemma_records_say_the_same(filter, registry, entries, records, records);
        assert(records.take(records.len() as int) =~= records);
    } else {
        assert(entries.drop_last().take(seen) =~= entries.take(seen));
        let count = records_among(filter, entries.take(seen)) as int;
        if last_gives_record(filter, entries) {
            lemma_records_of_the_first(
                filter,
                registry,
                entries.drop_last(),
                records.drop_last(),
                seen,
            );
            assert(records.drop_last().take(count) =~= records.take(count));
        } else {
            lemma_records_of_the_first(filter, registry, entries.drop_last(), records, seen);
        }
    }
}

/// Of two readings of one archive into one project, the one that passed
/// fewer entries passed as many as the other: a reading stops at an entry
/// only where no reading can pass it.
proof fn lemma_no_reading_goes_further(
    filter: &IntelligentFilter,
    registry: &LanguageRegistry,
    before: ProjectView,
    entries: Seq<EntryFacts>,
    breaks_off: bool,
    after: ProjectView,
    done: Result<()>,
    seen: int,
    records: Seq<FileMetrics>,
    after_other: ProjectView,
    done_other: Result<()>,
    seen_other: int,
    records_other: Seq<FileMetrics>,
)
    requires
        archive_read(filter, registry, before, after, done, entries, breaks_off, seen, records),
        archive_read(
            filter,
            registry,
            before,
            after_other,
            done_other,
            entries,
            breaks_off,
            seen_other,
            records_other,
        ),
        seen <= seen_other,
    ensures
        seen == seen_other,
{
    if seen < seen_other {
        let further = entries.take(seen_other);
        let refused = choose|record: FileMetrics| #[trigger]
            is_record_of_entry(registry, record, entries[seen]) && stopped_by(after, record, done);
        assert(further.take(seen + 1) =~= entries.take(seen + 1));
        lemma_records_of_the_first(filter, registry, further, records_other, seen + 1);
        let count = records_among(filter, entries.take(seen + 1)) as int;
        let first = records_other.take(count);
        assert(entries.take(seen + 1).drop_last() =~= entries.take(seen));
        assert(entries.take(seen + 1).last() == entries[seen]);
        assert(first.drop_last() =~= records_other.take(count - 1));
        let taken = records_other[count - 1];
        assert(first.last() == taken);
        assert(same_record(taken, refused));
        lemma_records_say_the_same(
            filter,
            registry,
            entries.take(seen),
            records_other.take(count - 1),
            records,
        );
        lemma_same_report_after_all(before, records_other.take(count - 1), records);
        lemma_same_report_same_room(
            before.add_all(records_other.take(count - 1)),
            after,
            taken,
            refused,
        );
        assert(taken.is_valid() && before.add_all(records_other.take(count - 1)).has_room_for(
            taken,
        ));
    }
}

/// What comes of reading an archive is settled by the archive and the
/// project that it is read into. Two readings of one archive into one
/// project pass the same entries and add records that say the same; the
/// projects report the same afterwards; and both succeed or both fail.
pub proof fn law_reading_leaves_no_choice(
    filter: &IntelligentFilter,
    registry: &LanguageRegistry,
    before: ProjectView,
    entries: Seq<EntryFacts>,
    breaks_off: bool,
    after: ProjectView,
    done: Result<()>,
    after_other: ProjectView,
    done_other: Result<()>,
)
    requires
        archive_was_read(filter, registry, before, after, done, entries, breaks_off),
        archive_was_read(filter, registry, before, after_other, done_other, entries, breaks_off),
    ensures
        same_report(after, after_other),
        done is Ok <==> done_other is Ok,
        done is Ok ==> !breaks_off,
{
    let (seen, records) = choose|seen: int, records: Seq<FileMetrics>| #[trigger]
        archive_read(filter, registry, before, after, done, entries, breaks_off, seen, records);
    let (seen_other, records_other) = choose|seen: int, records: Seq<FileMetrics>| #[trigger]
        archive_read(
            filter,
            registry,
            before,
            after_other,
            done_other,
            entries,
            breaks_off,
            seen,
            records,
        );
    if seen <= seen_other {
        lemma_no_reading_goes_further(
            filter,
            registry,
            before,
            entries,
            breaks_off,
            after,
            done,
            seen,
            records,
            after_other,
            done_other,
            seen_other,
            records_other,
        );
    } else {
        lemma_no_reading_goes_further(
            filter,
            registry,
            before,
            entries,
            breaks_off,
            after_other,
            done_other,
            seen_other,
            records_other,
            after,
            done,
            seen,
            records,
        );
    }
    lemma_records_say_the_same(filter, registry, entries.take(seen), records, records_other);
    lemma_same_report_after_all(before, records, records_other);
}

/// What is to be done with an entry, judged by its header.
pub fn examine_entry(filter: &IntelligentFilter, path: &str, is_file: bool, size: u64) -> (decision:
    EntryDecision)
    ensures
        decision == decision_for(filter, path@, is_file, size),
{
    if !is_file || size == 0 {
        EntryDecision::NotAFile
    } else if filter.should_process_file(path, size) {
        EntryDecision::Read
    } else {
        EntryDecision::Filtered
    }
}

/// Judges an entry by its header and counts it in `stats`: as left out
/// where the filter leaves it out, as read where it is to be read. The
/// entry is to be read where the result is `Ok`; otherwise the result is
/// an archive error with the message of what became of the entry.
pub fn admit_entry(
    filter: &IntelligentFilter,
    stats: &mut FilterStats,
    path: &str,
    is_file: bool,
    size: u64,
) -> (admitted: Result<()>)
    ensures
        match header_verdict(filter, *old(stats), path@, is_file, size) {
            Some(verdict) => {
                &&& admitted matches Err(AnalysisError::ArchiveError { message })
                &&& message@ == verdict.message()
                &&& *final(stats) == if verdict is Filtered {
                    old(stats).with_entry(size, true)
                } else {
                    *old(stats)
                }
            },
            None => admitted is Ok && *final(stats) == old(stats).with_entry(size, false),
        },
{
    let decision = examine_entry(filter, path, is_file, size);
    if decision == EntryDecision::NotAFile {
        return Err(AnalysisError::archive("Not a file or empty"));
    }
    let filtered = decision == EntryDecision::Filtered;
    if !stats.has_room_for(size, filtered) {
        return Err(AnalysisError::archive("Too many entries to count"));
    }
    stats.record_entry(size, filtered);
    if filtered {
        return Err(AnalysisError::archive("File filtered out"));
    }
    Ok(())
}

/// The language under which the file at `path` is counted.
pub fn detect_language(registry: &LanguageRegistry, path: &str) -> (language: String)
    ensures
        language@ == language_of(registry, path@),
{
    match registry.detect_by_path(path) {
        Some(definition) => definition.name.clone(),
        None => "Text".to_string(),
    }
}

/// What is made of an entry that was to be read, given its content: the
/// record of the file, counted under the language of its path; or nothing
/// where the content could not be read as text.
pub fn finish_entry(
    registry: &LanguageRegistry,
    path: &str,
    size: u64,
    content: Option<&str>,
) -> (outcome: EntryOutcome)
    ensures
        match content {
            Some(text) => outcome matches EntryOutcome::Included(metrics) && is_record_of(
                registry,
                metrics,
                path@,
                size,
                text@,
            ),
            None => outcome is Unreadable,
        },
{
    match content {
        Some(text) => {
            let language = detect_language(registry, path);
            match analyze_file_content(registry, path, text, language.as_str(), size) {
                Ok(metrics) => EntryOutcome::Included(metrics),
                Err(_) => EntryOutcome::Unreadable,
            }
        },
        None => EntryOutcome::Unreadable,
    }
}

/// A gzip-compressed tar archive that is held in memory, as the `tar`
/// crate reads it.
#[verifier::external_body]
pub struct Tarball {
    inner: tar::Archive<flate2::read::GzDecoder<std::io::Cursor<Vec<u8>>>>,
}

/// The entries of a `Tarball` that have not been looked at yet.
#[verifier::external_body]
pub struct TarEntries<'a> {
    inner: tar::Entries<'a, flate2::read::GzDecoder<std::io::Cursor<Vec<u8>>>>,
}

/// One entry of a `Tarball`. It borrows the entries it was taken from, so
/// that the next entry cannot be taken while this one is at hand: the `tar`
/// crate asks for entries to be read in the order in which they come.
#[verifier::external_body]
pub struct TarEntry<'b, 'a> {
    inner: tar::Entry<'a, flate2::read::GzDecoder<std::io::Cursor<Vec<u8>>>>,
    turn: std::marker::PhantomData<&'b mut TarEntries<'a>>,
}

/// `std::io::Cursor`, carried as it is.
#[verifier::external_type_specification]
#[verifier::external_body]
#[verifier::reject_recursive_types(T)]
pub struct ExCursor<T>(std::io::Cursor<T>);

/// `flate2::read::GzDecoder`, carried as it is.
#[verifier::external_type_specification]
#[verifier::external_body]
#[verifier::reject_recursive_types(R)]
pub struct ExGzDecoder<R>(flate2::read::GzDecoder<R>);

/// The entries that the `tar` crate finds in the gzip-compressed archive
/// `bytes`, in their order, up to the end of the archive or to the place
/// where it cannot be read further.
pub uninterp spec fn archive_entries_of(bytes: Seq<u8>) -> Seq<EntryFacts>;

/// Whether the reading of the archive `bytes` breaks off with a failure
/// after the entries that it gives, instead of coming to the end.
pub uninterp spec fn archive_breaks_off(bytes: Seq<u8>) -> bool;

/// The bytes that a decoder reads from.
pub uninterp spec fn decoder_input(
    decoder: &flate2::read::GzDecoder<std::io::Cursor<Vec<u8>>>,
) -> Seq<u8>;

/// The compressed bytes that an archive reads from.
pub uninterp spec fn tarball_input(tarball: &Tarball) -> Seq<u8>;

/// How many bytes of an archive have been read.
pub uninterp spec fn tarball_position(tarball: &Tarball) -> nat;

/// The entries that are still to come.
pub uninterp spec fn entries_ahead(entries: &TarEntries<'_>) -> Seq<EntryFacts>;

/// Whether the reading breaks off with a failure after the entries that
/// are still to come.
pub uninterp spec fn entries_break_off(entries: &TarEntries<'_>) -> bool;

/// What the archive says of an entry.
pub uninterp spec fn entry_facts(entry: &TarEntry<'_, '_>) -> EntryFacts;

/// Calls `flate2::read::GzDecoder::new` on a cursor over `bytes`: the
/// decoder reads from these bytes.
#[verifier::external_body]
pub(crate) fn gz_decoder(bytes: Vec<u8>) -> (decoder: flate2::read::GzDecoder<
    std::io::Cursor<Vec<u8>>,
>)
    ensures
        decoder_input(&decoder) == bytes@,
{
    flate2::read::GzDecoder::new(std::io::Cursor::new(bytes))
}

/// Calls `tar::Archive::new` on a decoder: the archive reads what the
/// decoder reads, and nothing of it has been read yet.
#[verifier::external_body]
pub(crate) fn tar_archive(decoder: flate2::read::GzDecoder<std::io::Cursor<Vec<u8>>>) -> (tarball:
    Tarball)
    ensures
        tarball_input(&tarball) == decoder_input(&decoder),
        tarball_position(&tarball) == 0,
{
    Tarball { inner: tar::Archive::new(decoder) }
}

/// Calls `tar::Archive::entries`. The call succeeds exactly on an archive
/// of which nothing has been read yet, and the entries to come are then
/// those of the bytes that the archive reads.
#[verifier::external_body]
pub(crate) fn tarball_entries<'a>(tarball: &'a mut Tarball) -> (entries: std::result::Result<
    TarEntries<'a>,
    std::io::Error,
>)
    ensures
        entries is Ok <==> tarball_position(old(tarball)) == 0,
        entries matches Ok(found) ==> entries_ahead(&found) == archive_entries_of(
            tarball_input(old(tarball)),
        ) && entries_break_off(&found) == archive_breaks_off(tarball_input(old(tarball))),
{
    tarball.inner.entries().map(|inner| TarEntries { inner })
}

/// Calls `next` on a `tar::Entries`. An entry is the first of those that
/// were to come, and the others are still to come; a failure or the end
/// comes when no entry was to come.
#[verifier::external_body]
pub(crate) fn next_entry<'b, 'a>(entries: &'b mut TarEntries<'a>) -> (entry: Option<
    std::result::Result<TarEntry<'b, 'a>, std::io::Error>,
>)
    ensures
        match entry {
            Some(Ok(found)) => entries_ahead(old(entries)).len() > 0 && entry_facts(&found)
                == entries_ahead(old(entries))[0] && entries_ahead(final(entries))
                == entries_ahead(old(entries)).drop_first() && entries_break_off(final(entries))
                == entries_break_off(old(entries)),
            Some(Err(_)) => entries_ahead(old(entries)).len() == 0 && entries_break_off(
                old(entries),
            ),
            None => entries_ahead(old(entries)).len() == 0 && !entries_break_off(old(entries)),
        },
{
    entries.inner.next().map(
        |found| found.map(|inner| TarEntry { inner, turn: std::marker::PhantomData }),
    )
}

/// Calls `tar::Header::path` on the header of an entry and hands out the
/// path as a string: the path that the archive gives the entry, and none
/// where the call fails.
#[verifier::external_body]
pub(crate) fn entry_path(entry: &TarEntry<'_, '_>) -> (path: std::result::Result<
    String,
    std::io::Error,
>)
    ensures
        match path {
            Ok(text) => entry_facts(entry).path == Some(text@),
            Err(_) => entry_facts(entry).path is None,
        },
{
    entry.inner.header().path().map(|path| path.to_string_lossy().to_string())
}

/// Calls `tar::EntryType::is_file` on the type that the header of an entry
/// gives: whether the archive calls the entry a file.
#[verifier::external_body]
pub(crate) fn entry_is_file(entry: &TarEntry<'_, '_>) -> (is_file: bool)
    ensures
        is_file == entry_facts(entry).is_file,
{
    entry.inner.header().entry_type().is_file()
}

/// Calls `tar::Header::size` on the header of an entry: the size that the
/// archive gives the entry, which counts as zero where the call fails.
#[verifier::external_body]
pub(crate) fn entry_size(entry: &TarEntry<'_, '_>) -> (size: std::result::Result<
    u64,
    std::io::Error,
>)
    ensures
        match size {
            Ok(bytes) => entry_facts(entry).size == bytes,
            Err(_) => entry_facts(entry).size == 0,
        },
{
    entry.inner.header().size()
}

/// Calls `std::io::Read::read_to_string` on an entry, which is used up by
/// it: the content of the entry where it is text, and nothing where it is
/// not or cannot be read.
#[verifier::external_body]
pub(crate) fn entry_text(entry: TarEntry<'_, '_>) -> (content: Option<String>)
    ensures
        match content {
            Some(text) => entry_facts(&entry).content == Some(text@),
            None => entry_facts(&entry).content is None,
        },
{
    let mut entry = entry;
    let mut content = String::new();
    match std::io::Read::read_to_string(&mut entry.inner, &mut content) {
        Ok(_) => Some(content),
        Err(_) => None,
    }
}

/// Writes an `std::io::Error` as text. Nothing is claimed of the text.
#[verifier::external_body]
pub(crate) fn io_error_text(error: &std::io::Error) -> (text: String) {
    format!("{error}")
}

/// An archive error whose message is `label` followed by what `error`
/// says.
fn archive_failure(label: &str, error: &std::io::Error) -> (failure: AnalysisError)
    ensures
        failure matches AnalysisError::ArchiveError { message } && is_prefix(message@, label@),
{
    let mut message = label.to_string();
    let detail = io_error_text(error);
    message.append(detail.as_str());
    proof {
        assert(message@.subrange(0, label@.len() as int) =~= label@);
    }
    AnalysisError::ArchiveError { message }
}

/// The record of the file in `entry`, if the entry is a file that is to be
/// read and holds text. An entry that is left out is counted in `stats`,
/// with its size; one that is to be read is counted there too.
///
/// The result and the tally are what `verdict_for` and `tally_after` make
/// of what the archive says of the entry.
pub fn process_tar_entry_sync(
    entry: TarEntry<'_, '_>,
    filter: &IntelligentFilter,
    stats: &mut FilterStats,
    registry: &LanguageRegistry,
) -> (processed: Result<FileMetrics>)
    ensures
        entry_processed(
            filter,
            registry,
            *old(stats),
            *final(stats),
            processed,
            entry_facts(&entry),
        ),
        old(stats).in_step() ==> final(stats).in_step(),
        final(stats).total_entries == old(stats).total_entries || final(stats).total_entries
            == old(stats).total_entries + 1,
        processed matches Ok(metrics) ==> metrics.counts_add_up(),
        processed matches Err(error) ==> error is ArchiveError,
{
    let file_path = match entry_path(&entry) {
        Ok(path) => path,
        Err(e) => {
            return Err(archive_failure("Invalid path in tar entry: ", &e));
        },
    };
    let file_size = match entry_size(&entry) {
        Ok(size) => size,
        Err(_) => 0,
    };
    let is_file = entry_is_file(&entry);
    match admit_entry(filter, stats, file_path.as_str(), is_file, file_size) {
        Ok(_) => {},
        Err(e) => {
            return Err(e);
        },
    }
    let content = entry_text(entry);
    let text: Option<&str> = match &content {
        Some(text) => Some(text.as_str()),
        None => None,
    };
    match finish_entry(registry, file_path.as_str(), file_size, text) {
        EntryOutcome::Included(metrics) => Ok(metrics),
        _ => Err(AnalysisError::archive("Failed to read file content")),
    }
}

/// Reads the gzip-compressed tar archive `bytes` entry by entry and adds
/// the record of every file that is read to `project_analysis`.
///
/// Entries that are left out, are no files or hold no text are passed
/// over. The records of the others are added in the order of the archive.
/// The work succeeds when the archive has been read to its end. It fails
/// with an archive error where the reading breaks off, and at the first
/// record that the analysis cannot take; what was added before stays.
pub fn process_tarball(
    bytes: Vec<u8>,
    project_analysis: &mut ProjectAnalysis,
    filter: &IntelligentFilter,
    registry: &LanguageRegistry,
    _progress_hook: &dyn ProgressHook,
) -> (done: Result<()>)
    ensures
        archive_was_read(
            filter,
            registry,
            old(project_analysis)@,
            final(project_analysis)@,
            done,
            archive_entries_of(bytes@),
            archive_breaks_off(bytes@),
        ),
        final(project_analysis).project_name == old(project_analysis).project_name,
        old(project_analysis)@.in_step() ==> final(project_analysis)@.in_step(),
        distinct_languages(old(project_analysis)@.languages) ==> distinct_languages(
            final(project_analysis)@.languages,
        ),
        done matches Err(error) ==> error is ArchiveError || error is InvalidStatistics,
{
    let ghost start = project_analysis@;
    let ghost all = archive_entries_of(bytes@);
    let ghost breaks_off = archive_breaks_off(bytes@);
    let ghost mut records: Seq<FileMetrics> = Seq::empty();
    let ghost mut seen: int = 0;
    let mut tarball = tar_archive(gz_decoder(bytes));
    // An archive of which nothing has been read gives its entries.
    let mut entries = match tarball_entries(&mut tarball) {
        Ok(entries) => entries,
        Err(e) => {
            return Err(archive_failure("Failed to read tar entries: ", &e));
        },
    };
    let mut stats = FilterStats::new();
    proof {
        assert(all.skip(0) =~= all);
        assert(all.take(0) =~= Seq::<EntryFacts>::empty());
    }
    loop
        invariant
            all == archive_entries_of(bytes@),
            breaks_off == archive_breaks_off(bytes@),
            start == old(project_analysis)@,
            project_analysis.project_name == old(project_analysis).project_name,
            project_analysis@ == start.add_all(records),
            start.takes_all(records),
            distinct_languages(start.languages) ==> distinct_languages(
                project_analysis@.languages,
            ),
            0 <= seen <= all.len(),
            entries_ahead(&entries) == all.skip(seen),
            entries_break_off(&entries) == breaks_off,
            stats == tally_through(filter, FilterStats::zero(), all.take(seen)),
            are_records_of(filter, registry, all.take(seen), records),
        decreases all.len() - seen,
    {
        let entry = match next_entry(&mut entries) {
            Some(Ok(entry)) => entry,
            Some(Err(e)) => {
                let done = Err(archive_failure("Failed to read tar entry: ", &e));
                proof {
                    lemma_add_all_keeps_step(start, records);
                    assert(archive_read(
                        filter,
                        registry,
                        start,
                        project_analysis@,
                        done,
                        all,
                        breaks_off,
                        seen,
                        records,
                    ));
                }
                return done;
            },
            None => {
                proof {
                    lemma_add_all_keeps_step(start, records);
                    assert(archive_read(
                        filter,
                        registry,
                        start,
                        project_analysis@,
                        Ok(()),
                        all,
                        breaks_off,
                        seen,
                        records,
                    ));
                }
                return Ok(());
            },
        };
        let ghost facts = all[seen];
        proof {
            assert(all.skip(seen)[0] == facts);
            assert(all.skip(seen).drop_first() =~= all.skip(seen + 1));
            assert(all.take(seen + 1).drop_last() =~= all.take(seen));
            assert(all.take(seen + 1).last() == facts);
        }
        match process_tar_entry_sync(entry, filter, &mut stats, registry) {
            Ok(metrics) => {
                let valid = metrics.validate().is_ok();
                if !valid || !project_analysis.has_room_for(&metrics) {
                    let done = if valid {
                        Err(AnalysisError::archive("Too many files to count"))
                    } else {
                        project_analysis.add_file_metrics(metrics)
                    };
                    proof {
                        lemma_add_all_keeps_step(start, records);
                        assert(is_record_of_entry(registry, metrics, all[seen]));
                        assert(stopped_by(project_analysis@, metrics, done));
                        assert(archive_read(
                            filter,
                            registry,
                            start,
                            project_analysis@,
                            done,
                            all,
                            breaks_off,
                            seen,
                            records,
                        ));
                    }
                    return done;
                }
                proof {
                    let longer = records.push(metrics);
                    assert(longer.drop_last() =~= records);
                    assert forall|at: int| 0 <= at < longer.len() implies (
                    #[trigger] longer[at]).is_valid() && start.add_all(
                        longer.take(at),
                    ).has_room_for(longer[at]) by {
                        if at < records.len() {
                            assert(longer.take(at) =~= records.take(at));
                            assert(longer[at] == records[at]);
                        } else {
                            assert(longer.take(at) =~= records);
                        }
                    }
                    records = longer;
                }
                let _ = project_analysis.add_file_metrics(metrics);
            },
            Err(_) => {},
        }
        proof {
            seen = seen + 1;
        }
    }
}

} // verus!
