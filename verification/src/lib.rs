//! Ordering logic of a food stall: orders and their prices, the rows they are
//! stored as, and the decisions behind the live order boards.

pub mod model;
pub mod ordering;
pub mod rows;
pub mod live;
