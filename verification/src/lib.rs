//! Shift-based manufacturing test-result reporting: shift calendar and
//! time-window arithmetic, cell/station registry, record aggregation, and
//! the query-key and navigation logic around them.
pub mod calendar;
pub mod config;
pub mod facade;
pub mod nav;
pub mod params;
pub mod registry;
pub mod tally;
pub mod text;
