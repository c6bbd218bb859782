//! The rolling history: a fixed number of slots for snapshots, the oldest
//! overwritten once all are in use, read back oldest first.

use crate::stats::{AllStats, AllStatsView};
use vstd::prelude::*;

verus! {

/// A history after one more entry: appended while there is room, else in
/// place of the oldest.
pub open spec fn pushed<T>(entries: Seq<T>, capacity: nat, new: T) -> Seq<T> {
    if entries.len() < capacity {
        entries.push(new)
    } else {
        entries.drop_first().push(new)
    }
}

/// A history with its newest entry replaced; an empty one gains the entry.
pub open spec fn replaced_latest<T>(entries: Seq<T>, new: T) -> Seq<T> {
    if entries.len() == 0 {
        seq![new]
    } else {
        entries.drop_last().push(new)
    }
}

/// A history after a series of entries, pushed one after the other.
pub open spec fn pushed_all<T>(entries: Seq<T>, capacity: nat, items: Seq<T>) -> Seq<T>
    decreases items.len(),
{
    if items.len() == 0 {
        entries
    } else {
        pushed(pushed_all(entries, capacity, items.drop_last()), capacity, items.last())
    }
}

/// The snapshots of a series as mathematical values.
pub open spec fn views(entries: Seq<AllStats>) -> Seq<AllStatsView> {
    Seq::new(entries.len(), |i: int| entries[i]@)
}

/// What a history holds after a series of pushes: what it held and what was
/// pushed, in that order, as long as it all fits; beyond that the most
/// recent of it all, as many as there are slots.
pub proof fn lemma_pushes_keep_most_recent<T>(entries: Seq<T>, capacity: nat, items: Seq<T>)
    requires
        capacity >= 1,
        entries.len() <= capacity,
    ensures
        pushed_all(entries, capacity, items).len() <= capacity,
        entries.len() + items.len() <= capacity ==> pushed_all(entries, capacity, items)
            == entries + items,
        entries.len() + items.len() > capacity ==> pushed_all(entries, capacity, items) == (entries
            + items).skip(entries.len() + items.len() - capacity),
    decreases items.len(),
{
    if items.len() > 0 {
        let before = items.drop_last();
        lemma_pushes_keep_most_recent(entries, capacity, before);
        let history = pushed_all(entries, capacity, before);
        let all = entries + items;
        assert(entries + before =~= all.drop_last());
        if all.len() <= capacity {
            assert(history.push(items.last()) =~= all);
        } else if all.len() - 1 <= capacity {
            assert(history.drop_first().push(items.last()) =~= all.skip(1));
        } else {
            assert(history.drop_first().push(items.last()) =~= all.skip(all.len() - capacity));
        }
    } else {
        assert(entries + items =~= entries);
    }
}

/// As long as no more is pushed into an empty history than it has slots,
/// the history holds exactly what was pushed, in push order, and its newest
/// entry is what was pushed last.
pub proof fn lemma_pushes_within_capacity<T>(capacity: nat, items: Seq<T>)
    requires
        capacity >= 1,
        items.len() <= capacity,
    ensures
        pushed_all(Seq::empty(), capacity, items) == items,
        items.len() > 0 ==> pushed_all(Seq::empty(), capacity, items).last() == items.last(),
{
    lemma_pushes_keep_most_recent(Seq::empty(), capacity, items);
    assert(Seq::<T>::empty() + items =~= items);
}

/// Once `k` more were pushed into an empty history than it has slots, the
/// history holds exactly the most recent of them, as many as it has slots,
/// in push order: the oldest `k` are gone.
pub proof fn lemma_pushes_beyond_capacity<T>(capacity: nat, items: Seq<T>, k: nat)
    requires
        capacity >= 1,
        items.len() == capacity + k,
    ensures
        pushed_all(Seq::empty(), capacity, items) == items.skip(k as int),
        pushed_all(Seq::empty(), capacity, items).len() == capacity,
        pushed_all(Seq::empty(), capacity, items).last() == items.last(),
{
    lemma_pushes_keep_most_recent(Seq::empty(), capacity, items);
    assert(Seq::<T>::empty() + items =~= items);
    if k == 0 {
        assert(items.skip(0) =~= items);
    }
}

/// Replacing the newest entry changes neither the number of entries nor where
/// the next push lands: a push after it gives what it would have given
/// without it, but for the replaced entry.
pub proof fn lemma_push_after_replacement<T>(entries: Seq<T>, capacity: nat, update: T, new: T)
    requires
        capacity >= 1,
        0 < entries.len() <= capacity,
    ensures
        replaced_latest(entries, update).len() == entries.len(),
        pushed(replaced_latest(entries, update), capacity, new).len() == pushed(
            entries,
            capacity,
            new,
        ).len(),
        pushed(entries, capacity, new).len() >= 2 ==> pushed(
            replaced_latest(entries, update),
            capacity,
            new,
        ) == pushed(entries, capacity, new).update(
            pushed(entries, capacity, new).len() - 2,
            update,
        ),
        pushed(entries, capacity, new).len() < 2 ==> pushed(
            replaced_latest(entries, update),
            capacity,
            new,
        ) == pushed(entries, capacity, new),
{
    let plain = pushed(entries, capacity, new);
    let after = pushed(replaced_latest(entries, update), capacity, new);
    if plain.len() >= 2 {
        assert(after =~= plain.update(plain.len() - 2, update));
    } else {
        assert(after =~= plain);
    }
}

/// The entries of a persisted history's lines, each line being present.
pub open spec fn unwrapped<T>(lines: Seq<Option<T>>) -> Seq<T> {
    Seq::new(lines.len(), |i: int| lines[i].unwrap())
}

/// Whether no line before `end` is malformed.
pub open spec fn sound_before<T>(lines: Seq<Option<T>>, end: int) -> bool {
    forall|k: int| 0 <= k < end && k < lines.len() ==> (#[trigger] lines[k]).is_some()
}

/// Whether no line is malformed.
pub open spec fn sound<T>(lines: Seq<Option<T>>) -> bool {
    sound_before(lines, lines.len() as int)
}

/// Whether line `k` is the first malformed one.
pub open spec fn first_malformed<T>(lines: Seq<Option<T>>, k: int) -> bool {
    &&& 0 <= k < lines.len()
    &&& lines[k].is_none()
    &&& sound_before(lines, k)
}

/// One step round a ring of `n` slots: on to the next slot, from the last
/// back to the first.
proof fn lemma_ring_step(i: int, n: int)
    requires
        0 <= i < n,
    ensures
        i + 1 < n ==> (i + 1) % n == i + 1,
        i + 1 == n ==> (i + 1) % n == 0,
{
    if i + 1 < n {
        vstd::arithmetic::div_mod::lemma_small_mod((i + 1) as nat, n as nat);
    } else {
        vstd::arithmetic::div_mod::lemma_mod_self_0(n);
    }
}

/// One of the two files that a persisted history is kept in.
#[derive(Clone, Copy, Debug, PartialEq, Eq)]
pub enum HistoryFile {
    /// The file that was rotated out, with the earlier entries.
    Old,
    /// The file that is appended to, with the later entries.
    Current,
}

/// Why a persisted history could not be loaded.
#[derive(Clone, Copy, Debug, PartialEq, Eq)]
pub enum LoadError {
    /// A line does not hold a snapshot. Lines count from zero.
    MalformedLine { file: HistoryFile, line: usize },
}

/// A rolling history of system stats. As new stats are added, the oldest stats will be replaced if the history is full.
pub struct StatsHistory {
    /// The maximum size of the stats list.
    max_size: usize,
    /// The list of stats.
    stats: Vec<AllStats>,
    /// The index of the most recently added stats.
    most_recent_index: usize,
}

impl View for StatsHistory {
    type V = Seq<AllStatsView>;

    /// The snapshots held, oldest first, as mathematical values.
    open spec fn view(&self) -> Seq<AllStatsView> {
        views(self.entries())
    }
}

impl StatsHistory {
    /// There is at least one slot, no more slots are in use than there are,
    /// the newest entry is in a slot in use, and until all slots are in use
    /// it is in the last of them.
    pub closed spec fn wf(&self) -> bool {
        &&& self.max_size >= 1
        &&& self.stats.len() <= self.max_size
        &&& self.stats.len() == 0 ==> self.most_recent_index == 0
        &&& self.stats.len() > 0 ==> self.most_recent_index < self.stats.len()
        &&& 0 < self.stats.len() < self.max_size ==> self.most_recent_index == self.stats.len()
            - 1
    }

    /// The number of slots.
    pub closed spec fn capacity(&self) -> nat {
        self.max_size as nat
    }

    /// The number of slots written so far.
    pub closed spec fn slots_written(&self) -> nat {
        self.stats.len() as nat
    }

    /// The slot of the newest entry.
    pub closed spec fn latest_slot(&self) -> nat {
        self.most_recent_index as nat
    }

    /// The snapshots held, oldest first.
    pub closed spec fn entries(&self) -> Seq<AllStats> {
        if self.stats.len() == 0 {
            Seq::empty()
        } else {
            self.stats@.subrange(self.most_recent_index + 1, self.stats.len() as int)
                + self.stats@.subrange(0, self.most_recent_index + 1)
        }
    }

    /// A well-formed history holds as many entries as it has slots written,
    /// never more than its capacity.
    pub proof fn lemma_entries_len(&self)
        requires
            self.wf(),
        ensures
            self.entries().len() == self.slots_written(),
            self.entries().len() <= self.capacity(),
            self@.len() == self.entries().len(),
    {
    }

    /// Creates a `StatsHistory`.
    /// # Params
    /// * `max_size` - The maximum number of entries to hold in this history.
    pub fn new(max_size: usize) -> (history: StatsHistory)
        requires
            max_size >= 1,
        ensures
            history.wf(),
            history.capacity() == max_size,
            history.entries() == Seq::<AllStats>::empty(),
    {
        StatsHistory { max_size, stats: Vec::new(), most_recent_index: 0 }
    }

    /// The capacity of this history.
    pub fn max_size(&self) -> (max_size: usize)
        requires
            self.wf(),
        ensures
            max_size == self.capacity(),
            max_size >= 1,
    {
        self.max_size
    }

    /// The number of entries in this history.
    pub fn len(&self) -> (len: usize)
        requires
            self.wf(),
        ensures
            len == self.entries().len(),
            len <= self.capacity(),
    {
        self.stats.len()
    }

    /// Builds the history that was persisted, from the lines of its two
    /// files in the order they were written: a line is `None` where it does
    /// not hold a snapshot, and a file that does not exist has no lines.
    ///
    /// The history holds every line, those of the old file first, has as
    /// many slots as there are lines (one where there is none), and its
    /// newest entry is the last line. One malformed line fails the whole
    /// load; the error names the first.
    pub fn load_from(old_stats: Vec<Option<AllStats>>, current_stats: Vec<Option<AllStats>>) -> (loaded:
        Result<StatsHistory, LoadError>)
        requires
            old_stats.len() + current_stats.len() <= usize::MAX,
        ensures
            match loaded {
                Ok(history) => {
                    &&& sound(old_stats@)
                    &&& sound(current_stats@)
                    &&& history.wf()
                    &&& history.entries() == unwrapped(old_stats@) + unwrapped(current_stats@)
                    &&& history.capacity() == if old_stats@.len() + current_stats@.len() == 0 {
                        1
                    } else {
                        old_stats@.len() + current_stats@.len()
                    }
                },
                Err(LoadError::MalformedLine { file: HistoryFile::Old, line }) => first_malformed(
                    old_stats@,
                    line as int,
                ),
                Err(LoadError::MalformedLine { file: HistoryFile::Current, line }) => {
                    &&& sound(old_stats@)
                    &&& first_malformed(current_stats@, line as int)
                },
            },
    {
        let ghost old_lines = old_stats@;
        let ghost current_lines = current_stats@;
        let mut stats: Vec<AllStats> = Vec::new();

        let mut line: usize = 0;
        for entry in it: old_stats.into_iter()
            invariant
                it.seq() == old_lines,
                old_lines.len() <= usize::MAX,
                line == it.index(),
                sound_before(old_lines, line as int),
                stats@ == unwrapped(old_lines.take(line as int)),
        {
            match entry {
                Some(snapshot) => {
                    stats.push(snapshot);
                    assert(stats@ =~= unwrapped(old_lines.take(line + 1)));
                },
                None => {
                    return Err(LoadError::MalformedLine { file: HistoryFile::Old, line });
                },
            }
            line = line + 1;
        }
        assert(old_lines.take(old_lines.len() as int) =~= old_lines);

        let mut line: usize = 0;
        for entry in it: current_stats.into_iter()
            invariant
                it.seq() == current_lines,
                old_lines == old_stats@,
                line == it.index(),
                old_lines.len() + current_lines.len() <= usize::MAX,
                sound(old_lines),
                sound_before(current_lines, line as int),
                stats@ == unwrapped(old_lines) + unwrapped(current_lines.take(line as int)),
        {
            match entry {
                Some(snapshot) => {
                    stats.push(snapshot);
                    assert(stats@ =~= unwrapped(old_lines) + unwrapped(
                        current_lines.take(line + 1),
                    ));
                },
                None => {
                    return Err(LoadError::MalformedLine { file: HistoryFile::Current, line });
                },
            }
            line = line + 1;
        }
        assert(current_lines.take(current_lines.len() as int) =~= current_lines);

        let size = stats.len();
        if size == 0 {
            let history = StatsHistory::new(1);
            assert(history.entries() =~= unwrapped(old_lines) + unwrapped(current_lines));
            Ok(history)
        } else {
            let history = StatsHistory { max_size: size, stats, most_recent_index: size - 1 };
            proof {
                let entries = unwrapped(old_lines) + unwrapped(current_lines);
                assert(history.entries() =~= entries.subrange(size as int, size as int)
                    + entries.subrange(0, size as int));
                assert(history.entries() =~= entries);
            }
            Ok(history)
        }
    }

    /// Adds stats to the history.
    /// # Params
    /// * `new_stats` - The stats to add.
    pub fn push(&mut self, new_stats: AllStats)
        requires
            old(self).wf(),
        ensures
            final(self).wf(),
            final(self).capacity() == old(self).capacity(),
            final(self).entries() == pushed(old(self).entries(), old(self).capacity(), new_stats),
            final(self)@ == pushed(old(self)@, old(self).capacity(), new_stats@),
            final(self).slots_written() == if old(self).slots_written() < old(self).capacity() {
                old(self).slots_written() + 1
            } else {
                old(self).slots_written()
            },
            final(self).latest_slot() == if old(self).slots_written() < old(self).capacity() {
                old(self).slots_written()
            } else {
                (old(self).latest_slot() + 1) % old(self).capacity()
            },
    {
        if self.stats.len() == self.max_size {
            // The list is full, so we need to replace an existing entry
            let ghost before = self.stats@;
            let ghost latest = self.most_recent_index as int;
            let next = self.get_next_index();
            proof {
                lemma_ring_step(latest, self.max_size as int);
            }
            self.most_recent_index = next;
            self.stats.set(next, new_stats);
            proof {
                let len = before.len() as int;
                let earlier = before.subrange(latest + 1, len) + before.subrange(0, latest + 1);
                assert(self.entries() =~= earlier.drop_first().push(new_stats));
                assert(self@ =~= views(earlier).drop_first().push(new_stats@));
            }
        } else {
            // The list isn't full yet, so we can just add a new entry to the end
            let ghost before = self.stats@;
            self.stats.push(new_stats);
            self.most_recent_index = self.stats.len() - 1;
            proof {
                if before.len() == 0 {
                    assert(self.entries() =~= Seq::<AllStats>::empty().push(new_stats));
                    assert(self@ =~= Seq::<AllStatsView>::empty().push(new_stats@));
                } else {
                    let len = before.len() as int;
                    let earlier = before.subrange(len, len) + before.subrange(0, len);
                    assert(earlier =~= before);
                    assert(self.entries() =~= earlier.push(new_stats));
                    assert(self@ =~= views(earlier).push(new_stats@));
                }
            }
        }
    }

    /// Replaces the most recently added stats with the provided stats.
    /// # Params
    /// * `new_stats` - The stats to replace the most recent stats with.
    pub fn update_most_recent_stats(&mut self, new_stats: AllStats)
        requires
            old(self).wf(),
        ensures
            final(self).wf(),
            final(self).capacity() == old(self).capacity(),
            final(self).entries() == replaced_latest(old(self).entries(), new_stats),
            final(self)@ == replaced_latest(old(self)@, new_stats@),
            old(self).slots_written() > 0 ==> final(self).slots_written() == old(self).slots_written(),
            old(self).slots_written() > 0 ==> final(self).latest_slot() == old(self).latest_slot(),
            old(self).slots_written() == 0 ==> final(self).entries() == pushed(
                old(self).entries(),
                old(self).capacity(),
                new_stats,
            ),
    {
        if self.stats.is_empty() {
            self.push(new_stats);
            assert(self.entries() =~= seq![new_stats]);
            assert(self@ =~= seq![new_stats@]);
        } else {
            let ghost before = self.entries();
            self.stats.set(self.most_recent_index, new_stats);
            assert(self.entries() =~= before.drop_last().push(new_stats));
            assert(self@ =~= views(before).drop_last().push(new_stats@));
        }
    }

    /// Gets the most recently added stats from the history. Returns `None` if the history is empty.
    pub fn get_most_recent_stats(&self) -> (most_recent: Option<&AllStats>)
        requires
            self.wf(),
        ensures
            self.entries().len() == 0 ==> most_recent.is_none(),
            self.entries().len() > 0 ==> most_recent == Some(&self.entries().last()),
    {
        if self.stats.is_empty() {
            None
        } else {
            Some(&self.stats[self.most_recent_index])
        }
    }

    /// The slot after that of the newest entry, in ring order.
    fn get_next_index(&self) -> (next: usize)
        requires
            self.wf(),
        ensures
            next == (self.most_recent_index + 1) % (self.max_size as int),
            next < self.max_size,
    {
        proof {
            lemma_ring_step(self.most_recent_index as int, self.max_size as int);
        }
        if self.max_size == 1 {
            0
        } else {
            (self.most_recent_index + 1) % self.max_size
        }
    }

    /// Starts a walk over the history, oldest entry first. A walk can be
    /// started anew at any time.
    pub fn into_iter(&self) -> (iterator: StatsHistoryIterator<'_>)
        requires
            self.wf(),
        ensures
            iterator.wf(),
            iterator.history() == self,
            iterator.remaining() == self.entries(),
    {
        proof {
            lemma_ring_step(self.most_recent_index as int, self.max_size as int);
        }
        let starting_index = if self.stats.len() == self.max_size {
            // The array is full, so the oldest stats are in the next index. (Since it wraps around)
            self.get_next_index()
        } else {
            // The array is not full, so the oldest stats are at the beginning of the array.
            0
        };

        let iterator = StatsHistoryIterator {
            stats_history: self,
            index: starting_index,
            done: self.stats.is_empty(),
        };
        assert(iterator.remaining() =~= self.entries());
        iterator
    }
}

/// A walk over a [`StatsHistory`], oldest entry first.
pub struct StatsHistoryIterator<'a> {
    stats_history: &'a StatsHistory,
    index: usize,
    done: bool,
}

impl<'a> StatsHistoryIterator<'a> {
    /// The history is well formed, and unless the walk is over it stands at
    /// a slot in use.
    pub closed spec fn wf(&self) -> bool {
        &&& self.stats_history.wf()
        &&& !self.done ==> self.index < self.stats_history.stats.len()
    }

    /// The history walked over.
    pub closed spec fn history(&self) -> &StatsHistory {
        self.stats_history
    }

    /// How many entries the walk has left behind.
    pub closed spec fn position(&self) -> int {
        let len = self.stats_history.stats.len() as int;
        let latest = self.stats_history.most_recent_index as int;
        if self.done {
            len
        } else if self.index > latest {
            self.index - latest - 1
        } else {
            self.index + len - latest - 1
        }
    }

    /// The entries still to come, oldest first.
    pub closed spec fn remaining(&self) -> Seq<AllStats> {
        self.stats_history.entries().skip(self.position())
    }

    /// The next entry of the walk, `None` once the newest has been given.
    pub fn next(&mut self) -> (item: Option<&'a AllStats>)
        requires
            old(self).wf(),
        ensures
            final(self).wf(),
            final(self).history() == old(self).history(),
            old(self).remaining().len() == 0 ==> item.is_none(),
            old(self).remaining().len() == 0 ==> final(self).remaining() == old(self).remaining(),
            old(self).remaining().len() > 0 ==> item == Some(&old(self).remaining()[0]),
            old(self).remaining().len() > 0 ==> final(self).remaining() == old(self).remaining()
                .drop_first(),
    {
        if self.done {
            return None;
        }
        let ghost before = self.remaining();
        proof {
            lemma_ring_step(self.index as int, self.stats_history.max_size as int);
        }
        let result = &self.stats_history.stats[self.index];
        if self.index == self.stats_history.most_recent_index {
            self.done = true;
        } else {
            self.index = (self.index + 1) % self.stats_history.max_size;
        }
        assert(self.remaining() =~= before.drop_first());
        Some(result)
    }
}

} // verus!
