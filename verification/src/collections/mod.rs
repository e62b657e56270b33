//! Memory-efficient maps and sets keyed by an ordered key type, their
//! cursors, and small value types used alongside them.
pub mod economic_map;
pub mod equivalence;
pub mod map_cursor;
pub mod pair;
pub mod order;
pub mod btree_economic_map;
pub mod economic_map_wrap;
pub mod empty;
pub mod economic_set;
pub mod btree_economic_set;
pub mod laws;
