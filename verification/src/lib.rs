//! A bounded, time-ordered history of system stats, and what is made of it.
//!
//! A [`stats::AllStats`] is one snapshot of the system: load averages, CPU
//! loads and temperature, memory, filesystems, network. Each metric is
//! optional by itself. Snapshots are made from what the platform reports
//! ([`sampling`]), gathered in batches that are consolidated into one
//! snapshot of means ([`average`], [`consolidation`]), kept in a
//! rolling history of fixed capacity ([`stats_history`]) that is fed one
//! sample at a time ([`update_loop`]), persisted in two files that take
//! turns ([`persistence`]), and shown as sections and charts
//! ([`charts`], [`dashboard_context`], [`text`]).
//!
//! Nothing here reads the system, the clock or a file: the caller does, and
//! hands over what it has read.
//!
//! Quantities that are fractions by nature are whole numbers of thousandths
//! throughout: a load of 12.5 % is `12_500`.

pub mod average;
pub mod charts;
pub mod consolidation;
pub mod dashboard_context;
pub mod error_context;
pub mod persistence;
pub mod sampling;
pub mod stats;
pub mod stats_history;
pub mod text;
pub mod update_loop;
