//! Storage: ordered byte maps, pending write sets, and the multi-store
//! that partitions one versioned key space among the registered modules.

pub mod byte_map;
pub mod table;
pub mod multi;
pub mod view;
