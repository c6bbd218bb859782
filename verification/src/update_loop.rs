//! The update loop, one sample at a time.
//!
//! Sampling and sleeping are the caller's; what this module holds is what
//! is decided between two samples: whether the new sample only refreshes the
//! newest entry of the history, or completes a batch that is consolidated.

use crate::consolidation::{consolidate_all_stats, consolidated};
use crate::persistence::HistoryPersistenceConfig;
use crate::stats::{AllStats, AllStatsView};
use crate::stats_history::{pushed, replaced_latest, StatsHistory};
use vstd::prelude::*;

verus! {

/// Why an update loop cannot be set up.
#[derive(Clone, Copy, Debug, PartialEq, Eq)]
pub enum ConfigError {
    /// The history would have no slot.
    ZeroHistorySize,
    /// A batch would be complete before it held a sample.
    ZeroConsolidationLimit,
    /// Sampling the CPU load takes as long as, or longer than, the time
    /// from one update to the next.
    UpdateFrequencyTooShort,
}

/// Stats history that is updated periodically.
pub struct UpdatingStatsHistory {
    /// The stats history.
    stats_history: StatsHistory,
    /// The samples gathered since the last consolidation.
    recent_stats: Vec<AllStats>,
    /// The number of samples that make a batch.
    consolidation_limit: usize,
    /// The time that sampling the CPU load takes, in milliseconds.
    cpu_sample_duration: u64,
    /// The time from one update to the next, in milliseconds.
    update_frequency: u64,
    /// Configuration for persisting history to disk.
    persistence_config: HistoryPersistenceConfig,
}

impl UpdatingStatsHistory {
    /// The history is well formed, the batch is not yet complete, and an
    /// update takes longer than sampling does.
    pub closed spec fn wf(&self) -> bool {
        &&& self.stats_history.wf()
        &&& self.consolidation_limit >= 1
        &&& self.recent_stats.len() < self.consolidation_limit
        &&& self.update_frequency > self.cpu_sample_duration
    }

    /// The stats history.
    pub closed spec fn history(&self) -> StatsHistory {
        self.stats_history
    }

    /// The samples gathered since the last consolidation, oldest first.
    pub closed spec fn batch(&self) -> Seq<AllStatsView> {
        self.recent_stats.deep_view()
    }

    /// The number of samples that make a batch.
    pub closed spec fn consolidation_limit(&self) -> nat {
        self.consolidation_limit as nat
    }

    /// The time that sampling the CPU load takes, in milliseconds.
    pub closed spec fn sample_duration(&self) -> u64 {
        self.cpu_sample_duration
    }

    /// The time to sleep between two samples, in milliseconds.
    pub closed spec fn sleep_duration(&self) -> int {
        self.update_frequency - self.cpu_sample_duration
    }

    /// Configuration for persisting history to disk.
    pub closed spec fn config(&self) -> HistoryPersistenceConfig {
        self.persistence_config
    }

    /// Creates an `UpdatingStatsHistory`, with an empty history and an empty batch.
    /// # Params
    /// * `cpu_sample_duration` - The amount of time to take to sample CPU load, in milliseconds. Must be less than `update_frequency`.
    /// * `update_frequency` - How often new stats should be gathered, in milliseconds. Must be greater than `cpu_sample_duration`.
    /// * `history_size` - The maximum number of entries to keep in the history. Must not be zero.
    /// * `consolidation_limit` - The number of times to gather stats before consolidating them and adding them to the history. Must not be zero.
    /// * `persistence_config` - Configuration for persisting history to disk.
    pub fn new(
        cpu_sample_duration: u64,
        update_frequency: u64,
        history_size: usize,
        consolidation_limit: usize,
        persistence_config: HistoryPersistenceConfig,
    ) -> (created: Result<UpdatingStatsHistory, ConfigError>)
        ensures
            match created {
                Ok(updating) => {
                    &&& history_size >= 1
                    &&& consolidation_limit >= 1
                    &&& update_frequency > cpu_sample_duration
                    &&& updating.wf()
                    &&& updating.history().capacity() == history_size
                    &&& updating.history()@ == Seq::<AllStatsView>::empty()
                    &&& updating.batch() == Seq::<AllStatsView>::empty()
                    &&& updating.consolidation_limit() == consolidation_limit
                    &&& updating.sample_duration() == cpu_sample_duration
                    &&& updating.sleep_duration() == update_frequency - cpu_sample_duration
                    &&& updating.config() == persistence_config
                },
                Err(ConfigError::ZeroHistorySize) => history_size == 0,
                Err(ConfigError::ZeroConsolidationLimit) => history_size >= 1 && consolidation_limit
                    == 0,
                Err(ConfigError::UpdateFrequencyTooShort) => history_size >= 1
                    && consolidation_limit >= 1 && update_frequency <= cpu_sample_duration,
            },
    {
        if history_size == 0 {
            return Err(ConfigError::ZeroHistorySize);
        }
        if consolidation_limit == 0 {
            return Err(ConfigError::ZeroConsolidationLimit);
        }
        if update_frequency <= cpu_sample_duration {
            return Err(ConfigError::UpdateFrequencyTooShort);
        }
        let stats_history = StatsHistory::new(history_size);
        let recent_stats: Vec<AllStats> = Vec::new();
        assert(stats_history@ =~= Seq::<AllStatsView>::empty());
        assert(recent_stats.deep_view() =~= Seq::<AllStatsView>::empty());
        Ok(
            UpdatingStatsHistory {
                stats_history,
                recent_stats,
                consolidation_limit,
                cpu_sample_duration,
                update_frequency,
                persistence_config,
            },
        )
    }

    /// The stats history.
    pub fn stats_history(&self) -> (history: &StatsHistory)
        requires
            self.wf(),
        ensures
            *history == self.history(),
            history.wf(),
    {
        &self.stats_history
    }

    /// Configuration for persisting history to disk.
    pub fn persistence_config(&self) -> (config: &HistoryPersistenceConfig)
        ensures
            *config == self.config(),
    {
        &self.persistence_config
    }

    /// The amount of time to take to sample CPU load, in milliseconds.
    pub fn cpu_sample_duration(&self) -> (duration: u64)
        requires
            self.wf(),
        ensures
            duration == self.sample_duration(),
            self.sleep_duration() + duration <= u64::MAX,
    {
        self.cpu_sample_duration
    }

    /// The amount of time to sleep between two samples, in milliseconds:
    /// what is left of the time from one update to the next once the CPU
    /// load was sampled.
    pub fn sleep_duration_millis(&self) -> (duration: u64)
        requires
            self.wf(),
        ensures
            duration == self.sleep_duration(),
            duration > 0,
    {
        self.update_frequency - self.cpu_sample_duration
    }

    /// What is to be persisted before a new sample is taken in: the
    /// snapshot that the batch is consolidated to once the sample has joined
    /// it, where the sample completes the batch and persistence is enabled.
    /// Nothing is changed by asking.
    pub fn consolidation_due(&self, new_stats: &AllStats) -> (to_persist: Option<AllStats>)
        requires
            self.wf(),
        ensures
            self.batch().len() + 1 >= self.consolidation_limit() && self.config() is Enabled
                ==> (to_persist matches Some(persisted) && persisted@ == consolidated(
                self.batch().push(new_stats@),
            )),
            self.batch().len() + 1 < self.consolidation_limit() || self.config() is Disabled
                ==> to_persist.is_none(),
    {
        match &self.persistence_config {
            HistoryPersistenceConfig::Disabled => None,
            HistoryPersistenceConfig::Enabled { .. } => {
                if self.recent_stats.len() + 1 < self.consolidation_limit {
                    None
                } else {
                    let mut batch: Vec<AllStats> = Vec::new();
                    let mut i: usize = 0;
                    while i < self.recent_stats.len()
                        invariant
                            i <= self.recent_stats.len(),
                            batch.len() == i,
                            forall|k: int| 0 <= k < i ==> batch[k]@ == self.recent_stats[k]@,
                        decreases self.recent_stats.len() - i,
                    {
                        batch.push(self.recent_stats[i].clone());
                        i += 1;
                    }
                    batch.push(new_stats.clone());
                    assert(batch.deep_view() =~= self.recent_stats.deep_view().push(new_stats@));
                    Some(consolidate_all_stats(batch))
                }
            },
        }
    }

    /// Takes in a new sample.
    ///
    /// The sample joins the batch. While the batch is incomplete, the sample
    /// replaces the newest entry of the history, so that readers see it at
    /// once. Once the batch is complete, it is consolidated and emptied, the
    /// consolidated snapshot is pushed into the history, the sample is
    /// pushed after it as the entry that the next samples will refresh, and,
    /// where persistence is enabled, the consolidated snapshot is handed back
    /// to be persisted.
    pub fn update(&mut self, new_stats: AllStats) -> (to_persist: Option<AllStats>)
        requires
            old(self).wf(),
        ensures
            final(self).wf(),
            final(self).consolidation_limit() == old(self).consolidation_limit(),
            final(self).sample_duration() == old(self).sample_duration(),
            final(self).sleep_duration() == old(self).sleep_duration(),
            final(self).config() == old(self).config(),
            final(self).history().capacity() == old(self).history().capacity(),
            old(self).batch().len() + 1 < old(self).consolidation_limit() ==> {
                &&& to_persist.is_none()
                &&& final(self).batch() == old(self).batch().push(new_stats@)
                &&& final(self).history()@ == replaced_latest(old(self).history()@, new_stats@)
            },
            old(self).batch().len() + 1 >= old(self).consolidation_limit() ==> {
                &&& old(self).config() is Disabled ==> to_persist.is_none()
                &&& old(self).config() is Enabled ==> (to_persist matches Some(persisted)
                    && persisted@ == consolidated(old(self).batch().push(new_stats@)))
                &&& final(self).batch() == Seq::<AllStatsView>::empty()
                &&& final(self).history()@ == pushed(
                    pushed(
                        old(self).history()@,
                        old(self).history().capacity(),
                        consolidated(old(self).batch().push(new_stats@)),
                    ),
                    old(self).history().capacity(),
                    new_stats@,
                )
            },
    {
        let ghost batch_before = self.recent_stats.deep_view();
        self.recent_stats.push(new_stats.clone());
        assert(self.recent_stats.deep_view() =~= batch_before.push(new_stats@));

        if self.recent_stats.len() >= self.consolidation_limit {
            let mut batch: Vec<AllStats> = Vec::new();
            core::mem::swap(&mut self.recent_stats, &mut batch);
            assert(self.recent_stats.deep_view() =~= Seq::<AllStatsView>::empty());
            let consolidated_stats = consolidate_all_stats(batch);
            let to_persist = match &self.persistence_config {
                HistoryPersistenceConfig::Enabled { .. } => Some(consolidated_stats.clone()),
                HistoryPersistenceConfig::Disabled => None,
            };
            self.stats_history.push(consolidated_stats);
            self.stats_history.push(new_stats);
            to_persist
        } else {
            self.stats_history.update_most_recent_stats(new_stats);
            None
        }
    }
}

} // verus!
