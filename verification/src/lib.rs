//! Lowest layer of a page-oriented storage engine: fixed-size pages,
//! monotonically issued page identifiers, and exact-length page reads and
//! writes against a flat backing store.

pub mod disk_manager;
