//! Persistence of the history: an append-only log in two files, bounded in
//! size by rotating the file that is written to.
//!
//! This module decides; it touches no file. Whoever keeps the files tells it
//! how large the current one is and does what the plan says.

use vstd::prelude::*;
use vstd::string::{StringExecFns, StringSliceAdditionalSpecFns};
use vstd::utf8::encode_utf8;

verus! {

/// The name of the file that is appended to.
pub const CURRENT_HISTORY_FILE_NAME: &'static str = "current_stats.txt";

/// The name of the file that the current one is rotated to.
pub const OLD_HISTORY_FILE_NAME: &'static str = "old_stats.txt";

/// Configuration for persisting history to disk.
#[derive(Debug, PartialEq, Eq)]
pub enum HistoryPersistenceConfig {
    Disabled,
    Enabled {
        /// The base directory to save the stats history to.
        dir: String,
        /// The maximum size to allow the saved stats history directory to grow to, in bytes.
        size_limit: u64,
    },
}

impl Clone for HistoryPersistenceConfig {
    fn clone(&self) -> (copy: Self)
        ensures
            copy == *self,
    {
        match self {
            HistoryPersistenceConfig::Disabled => HistoryPersistenceConfig::Disabled,
            HistoryPersistenceConfig::Enabled { dir, size_limit } => {
                HistoryPersistenceConfig::Enabled { dir: dir.clone(), size_limit: *size_limit }
            },
        }
    }
}

/// A history directory as the lines that its two files hold. A file that
/// does not exist is `None`.
pub struct HistoryDir {
    pub old: Option<Seq<Seq<u8>>>,
    pub current: Option<Seq<Seq<u8>>>,
}

/// The size of a file in bytes: its lines, each with its line break.
pub open spec fn file_size(lines: Seq<Seq<u8>>) -> nat
    decreases lines.len(),
{
    if lines.len() == 0 {
        0
    } else {
        file_size(lines.drop_last()) + lines.last().len() + 1
    }
}

/// The size of a file that may not exist.
pub open spec fn size_of(file: Option<Seq<Seq<u8>>>) -> Option<nat> {
    match file {
        Some(lines) => Some(file_size(lines)),
        None => None,
    }
}

/// The lines of a file; none where it does not exist.
pub open spec fn lines_of(file: Option<Seq<Seq<u8>>>) -> Seq<Seq<u8>> {
    match file {
        Some(lines) => lines,
        None => Seq::empty(),
    }
}

/// Whether the current file, of the given size if it exists, is to be
/// rotated before the next line is written: it is once it has reached half
/// the limit, the limit being shared by two files.
pub open spec fn rotation_due(current_size: Option<nat>, size_limit: nat) -> bool {
    current_size matches Some(size) && size >= size_limit / 2
}

/// The directory after one more line was persisted: where rotation is due,
/// the current file has become the old one, in place of any earlier old
/// one, and a fresh current file holds the line; else the line is at the
/// end of the current file.
pub open spec fn appended(dir: HistoryDir, line: Seq<u8>, size_limit: nat) -> HistoryDir {
    if rotation_due(size_of(dir.current), size_limit) {
        HistoryDir { old: dir.current, current: Some(seq![line]) }
    } else {
        HistoryDir { old: dir.old, current: Some(lines_of(dir.current).push(line)) }
    }
}

/// The directory after a series of lines was persisted, one after the other.
pub open spec fn appended_all(dir: HistoryDir, lines: Seq<Seq<u8>>, size_limit: nat) -> HistoryDir
    decreases lines.len(),
{
    if lines.len() == 0 {
        dir
    } else {
        appended(appended_all(dir, lines.drop_last(), size_limit), lines.last(), size_limit)
    }
}

/// The lines that a load reads, in its order: those of the old file, then
/// those of the current one.
pub open spec fn stored(dir: HistoryDir) -> Seq<Seq<u8>> {
    lines_of(dir.old) + lines_of(dir.current)
}

/// The bytes that the directory takes.
pub open spec fn total_size(dir: HistoryDir) -> nat {
    file_size(lines_of(dir.old)) + file_size(lines_of(dir.current))
}

/// Whether neither file is larger than half the limit and one line of at
/// most `longest` bytes with its line break.
pub open spec fn bounded(dir: HistoryDir, size_limit: nat, longest: nat) -> bool {
    &&& file_size(lines_of(dir.old)) <= size_limit / 2 + longest + 1
    &&& file_size(lines_of(dir.current)) <= size_limit / 2 + longest + 1
}

/// A line that was persisted is the last that a load reads, and the load
/// reads before it what it read earlier, in the same order: all of it as long
/// as no old file is replaced, else what the current file held.
pub proof fn lemma_append_then_load(dir: HistoryDir, line: Seq<u8>, size_limit: nat)
    ensures
        stored(appended(dir, line, size_limit)).last() == line,
        !rotation_due(size_of(dir.current), size_limit) || lines_of(dir.old).len() == 0 ==> stored(
            appended(dir, line, size_limit),
        ) == stored(dir).push(line),
        rotation_due(size_of(dir.current), size_limit) ==> stored(
            appended(dir, line, size_limit),
        ) == lines_of(dir.current).push(line),
{
    let after = appended(dir, line, size_limit);
    if rotation_due(size_of(dir.current), size_limit) {
        assert(stored(after) =~= lines_of(dir.current).push(line));
        if lines_of(dir.old).len() == 0 {
            assert(stored(dir) =~= lines_of(dir.current));
        }
    } else {
        assert(stored(after) =~= stored(dir).push(line));
    }
}

/// Lines persisted into an empty directory are what a load reads, in
/// the order they were written, as long as no rotation replaced an old file:
/// that is, as long as all but the last of them take less than the two
/// halves of the limit.
pub proof fn lemma_round_trip(lines: Seq<Seq<u8>>, size_limit: nat)
    requires
        lines.len() > 0 ==> file_size(lines.drop_last()) < 2 * (size_limit / 2),
    ensures
        stored(appended_all(HistoryDir { old: None, current: None }, lines, size_limit)) == lines,
{
    let empty = HistoryDir { old: None, current: None };
    lemma_round_trip_parts(lines, size_limit);
    assert(stored(empty) =~= Seq::<Seq<u8>>::empty());
}

/// Lines persisted into an empty directory, all but the last taking less
/// than the two halves of the limit, are spread over the two files in
/// order, and the old file, once it exists, holds at least half the limit.
proof fn lemma_round_trip_parts(lines: Seq<Seq<u8>>, size_limit: nat)
    requires
        lines.len() > 0 ==> file_size(lines.drop_last()) < 2 * (size_limit / 2),
    ensures
        ({
            let dir = appended_all(HistoryDir { old: None, current: None }, lines, size_limit);
            &&& stored(dir) == lines
            &&& dir.old is Some ==> file_size(lines_of(dir.old)) >= size_limit / 2
            &&& lines.len() > 0 ==> dir.current is Some
        }),
    decreases lines.len(),
{
    let empty = HistoryDir { old: None, current: None };
    if lines.len() == 0 {
        assert(stored(empty) =~= lines);
    } else {
        let before = lines.drop_last();
        if before.len() > 0 {
            lemma_file_size_grows(before.drop_last(), before.last());
        }
        lemma_round_trip_parts(before, size_limit);
        let dir = appended_all(empty, before, size_limit);
        let after = appended(dir, lines.last(), size_limit);
        lemma_append_then_load(dir, lines.last(), size_limit);
        lemma_file_size_concat(lines_of(dir.old), lines_of(dir.current));
        if rotation_due(size_of(dir.current), size_limit) && lines_of(dir.old).len() > 0 {
            // Both files would hold half the limit already.
            assert(false);
        }
        assert(before.push(lines.last()) =~= lines);
    }
}

/// A file with a line more is larger by the line and its line break.
proof fn lemma_file_size_grows(lines: Seq<Seq<u8>>, line: Seq<u8>)
    ensures
        file_size(lines.push(line)) == file_size(lines) + line.len() + 1,
{
    assert(lines.push(line).drop_last() =~= lines);
}

/// The size of two files' lines in one is the sum of their sizes.
proof fn lemma_file_size_concat(first: Seq<Seq<u8>>, second: Seq<Seq<u8>>)
    ensures
        file_size(first + second) == file_size(first) + file_size(second),
    decreases second.len(),
{
    if second.len() == 0 {
        assert(first + second =~= first);
    } else {
        lemma_file_size_concat(first, second.drop_last());
        assert((first + second).drop_last() =~= first + second.drop_last());
    }
}

/// Once the current file has reached half the limit, the next line
/// persisted makes it the old file and starts a fresh current file; before
/// that the old file is left alone.
pub proof fn lemma_rotation(dir: HistoryDir, line: Seq<u8>, size_limit: nat)
    ensures
        dir.current is Some && file_size(lines_of(dir.current)) >= size_limit / 2 ==> appended(
            dir,
            line,
            size_limit,
        ) == (HistoryDir { old: dir.current, current: Some(seq![line]) }),
        !(dir.current is Some && file_size(lines_of(dir.current)) >= size_limit / 2) ==> appended(
            dir,
            line,
            size_limit,
        ).old == dir.old,
{
}

/// Persisting a line keeps the directory bounded: with lines of at most
/// `longest` bytes, neither file outgrows half the limit by more than one
/// line, so the directory stays within the limit and two lines.
pub proof fn lemma_append_keeps_bounded(
    dir: HistoryDir,
    line: Seq<u8>,
    size_limit: nat,
    longest: nat,
)
    requires
        bounded(dir, size_limit, longest),
        line.len() <= longest,
    ensures
        bounded(appended(dir, line, size_limit), size_limit, longest),
        total_size(appended(dir, line, size_limit)) <= size_limit + 2 * (longest + 1),
{
    let after = appended(dir, line, size_limit);
    assert(file_size(seq![line]) == line.len() + 1) by {
        assert(seq![line].drop_last() =~= Seq::<Seq<u8>>::empty());
    }
    if !rotation_due(size_of(dir.current), size_limit) {
        lemma_file_size_grows(lines_of(dir.current), line);
    }
    assert(2 * (size_limit / 2) <= size_limit);
}

/// However many lines are persisted into an empty directory, the directory
/// stays within the limit and two lines.
pub proof fn lemma_size_stays_bounded(lines: Seq<Seq<u8>>, size_limit: nat, longest: nat)
    requires
        forall|i: int| 0 <= i < lines.len() ==> (#[trigger] lines[i]).len() <= longest,
    ensures
        bounded(
            appended_all(HistoryDir { old: None, current: None }, lines, size_limit),
            size_limit,
            longest,
        ),
        total_size(appended_all(HistoryDir { old: None, current: None }, lines, size_limit))
            <= size_limit + 2 * (longest + 1),
    decreases lines.len(),
{
    if lines.len() > 0 {
        let before = lines.drop_last();
        assert forall|i: int| 0 <= i < before.len() implies (#[trigger] before[i]).len()
            <= longest by {
            assert(before[i] == lines[i]);
        }
        lemma_size_stays_bounded(before, size_limit, longest);
        lemma_append_keeps_bounded(
            appended_all(HistoryDir { old: None, current: None }, before, size_limit),
            lines.last(),
            size_limit,
            longest,
        );
    }
}

/// What is to be done to persist one snapshot.
#[derive(Debug, PartialEq, Eq)]
pub struct PersistPlan {
    /// Whether the current file is first to be renamed to the old one,
    /// replacing it.
    pub rotate: bool,
    /// What is then to be appended to the current file, created if need be.
    pub line: String,
}

/// The size as the model counts it.
pub open spec fn as_size(size: Option<u64>) -> Option<nat> {
    match size {
        Some(size) => Some(size as nat),
        None => None,
    }
}

/// Whether the current file, of the given size if there is one, is to be
/// rotated before the next line is written.
pub fn rotation_is_due(current_size: Option<u64>, dir_size_limit_bytes: u64) -> (due: bool)
    ensures
        due == rotation_due(as_size(current_size), dir_size_limit_bytes as nat),
{
    // divide size limit by 2 since this swaps between 2 files
    match current_size {
        Some(size) => size >= dir_size_limit_bytes / 2,
        None => false,
    }
}

/// Plans how to persist a snapshot.
/// # Params
/// * `stats` - The snapshot, serialized on a single line.
/// * `current_size` - The size in bytes of the current file, `None` if there is none.
/// * `dir_size_limit_bytes` - The maximum size to allow the directory to grow to, in bytes.
pub fn persist_stats(stats: &str, current_size: Option<u64>, dir_size_limit_bytes: u64) -> (plan:
    PersistPlan)
    ensures
        plan.rotate == rotation_due(as_size(current_size), dir_size_limit_bytes as nat),
        plan.line@ == stats@.push('\n'),
{
    let rotate = rotation_is_due(current_size, dir_size_limit_bytes);
    let mut line = String::from_str(stats);
    line.append("\n");
    proof {
        reveal_strlit("\n");
        assert(line@ =~= stats@.push('\n'));
    }
    PersistPlan { rotate, line }
}

/// The lines of a file as the bytes that are written.
pub open spec fn line_bytes(lines: Seq<String>) -> Seq<Seq<u8>> {
    Seq::new(lines.len(), |i: int| encode_utf8(lines[i]@))
}

/// A history directory held in memory: the lines of its two files, and
/// nothing of a disk. It goes through what a directory on disk goes
/// through when the same lines are persisted with the same limit.
pub struct HistoryFiles {
    old: Option<Vec<String>>,
    current: Option<Vec<String>>,
    current_size: u128,
}

impl View for HistoryFiles {
    type V = HistoryDir;

    closed spec fn view(&self) -> HistoryDir {
        HistoryDir {
            old: match self.old {
                Some(lines) => Some(line_bytes(lines@)),
                None => None,
            },
            current: match self.current {
                Some(lines) => Some(line_bytes(lines@)),
                None => None,
            },
        }
    }
}

impl HistoryFiles {
    /// The size kept for the current file is its size.
    pub closed spec fn wf(&self) -> bool {
        &&& self.current_size == file_size(lines_of(self@.current))
        &&& self.current_size <= u64::MAX + usize::MAX + 1
    }

    /// A directory with neither file.
    pub fn new() -> (files: HistoryFiles)
        ensures
            files.wf(),
            files@ == (HistoryDir { old: None, current: None }),
    {
        HistoryFiles { old: None, current: None, current_size: 0 }
    }

    /// Persists one line as [`persist_stats`] plans it, and says whether the
    /// current file was rotated.
    pub fn append(&mut self, stats: &str, dir_size_limit_bytes: u64) -> (rotated: bool)
        requires
            old(self).wf(),
        ensures
            final(self).wf(),
            final(self)@ == appended(old(self)@, stats.spec_bytes(), dir_size_limit_bytes as nat),
            rotated == rotation_due(size_of(old(self)@.current), dir_size_limit_bytes as nat),
    {
        let current_size = match &self.current {
            Some(_) => Some(
                if self.current_size > u64::MAX as u128 {
                    u64::MAX
                } else {
                    self.current_size as u64
                },
            ),
            None => None,
        };
        let plan = persist_stats(stats, current_size, dir_size_limit_bytes);
        let line = String::from_str(stats);
        let length: u128 = stats.as_bytes().len() as u128 + 1;
        let ghost before = self@;
        if plan.rotate {
            let mut fresh: Option<Vec<String>> = Some(Vec::new());
            core::mem::swap(&mut self.current, &mut fresh);
            self.old = fresh;
            self.current_size = 0;
        }
        let mut lines = match self.current.take() {
            Some(lines) => lines,
            None => Vec::new(),
        };
        let ghost kept = line_bytes(lines@);
        proof {
            lemma_file_size_grows(kept, stats.spec_bytes());
            assert(plan.rotate ==> kept =~= Seq::<Seq<u8>>::empty());
            assert(!plan.rotate ==> kept =~= lines_of(before.current));
        }
        lines.push(line);
        assert(line_bytes(lines@) =~= kept.push(stats.spec_bytes()));
        self.current = Some(lines);
        self.current_size = self.current_size + length;
        proof {
            assert(seq![stats.spec_bytes()] =~= Seq::<Seq<u8>>::empty().push(stats.spec_bytes()));
        }
        plan.rotate
    }

    /// The lines that a load reads: those of the old file, then those of
    /// the current one.
    pub fn lines(&self) -> (lines: Vec<String>)
        ensures
            line_bytes(lines@) == stored(self@),
    {
        let mut lines: Vec<String> = Vec::new();
        if let Some(old) = &self.old {
            let mut i: usize = 0;
            while i < old.len()
                invariant
                    i <= old.len(),
                    lines@ == old@.take(i as int),
                decreases old.len() - i,
            {
                lines.push(old[i].clone());
                assert(lines@ =~= old@.take(i + 1));
                i += 1;
            }
            assert(old@.take(old.len() as int) =~= old@);
        }
        let ghost first = lines@;
        if let Some(current) = &self.current {
            let mut i: usize = 0;
            while i < current.len()
                invariant
                    i <= current.len(),
                    lines@ == first + current@.take(i as int),
                decreases current.len() - i,
            {
                lines.push(current[i].clone());
                assert(lines@ =~= first + current@.take(i + 1));
                i += 1;
            }
            assert(current@.take(current.len() as int) =~= current@);
        }
        assert(line_bytes(lines@) =~= stored(self@));
        lines
    }

    /// The size of the current file in bytes; `None` where there is none.
    pub fn current_size(&self) -> (size: Option<u128>)
        requires
            self.wf(),
        ensures
            size == match size_of(self@.current) {
                Some(bytes) => Some(bytes as u128),
                None => None,
            },
    {
        match &self.current {
            Some(_) => Some(self.current_size),
            None => None,
        }
    }
}

} // verus!
