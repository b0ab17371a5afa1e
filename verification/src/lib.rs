//! Fetch-through tile cache: coordinate model, upstream routing, disk-cache
//! keying, fetch-through and precache planning, bulk sweeps, and the
//! placeholder error tile, all with verified contracts.

pub mod bbox;
pub mod bulk;
pub mod digits;
pub mod endpoint;
pub mod errtile;
pub mod fetch;
pub mod fresh;
pub mod precache;
pub mod router;
pub mod store;
pub mod tile;
