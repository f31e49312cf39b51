//! Alpha-beta search, principal variations, time budgets and the
//! iterative-deepening driver.

pub mod minimax;
pub mod options;
pub mod pv_table;
pub mod root;
pub mod search;
pub mod timeman;
