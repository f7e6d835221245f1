//! Resolution of a textual timestamp into an absolute UTC instant.
//!
//! A fixed cascade of strategies is tried in order; the first one that
//! succeeds decides the instant.
pub mod civil;
pub mod delta;
pub mod epoch;
pub mod instant;
pub mod resolve;

pub use civil::{
    civil_epoch_seconds, complete_fields, days_from_civil, fields_to_instant, CalendarFields,
};
pub use delta::{delta_lines, DeltaLine, Direction, Unit};
pub use epoch::{instant_from_integer, parse_epoch_integer};
pub use instant::{Instant, ParseFailure, LOWER_BOUND, UPPER_BOUND};
pub use resolve::{resolve, resolve_strategies, strategies, try_strategy, Strategy};
