//! Verified key and value codecs, row normalization, compaction and command
//! planning for a Redis-compatible store that keeps its data in SlateDB.
use vstd::prelude::*;

pub mod codec;
pub mod collection_ops;
pub mod compaction_filter;
pub mod data_type;
pub mod decimal;
pub mod dedup;
pub mod error;
pub mod expiration;
pub mod key_range;
pub mod keyspace_ops;
pub mod list_ops;
pub mod lock;
pub mod meta;
pub mod migration;
pub mod segment;
pub mod top_level_key;
pub mod top_level_row;
pub mod version;
pub mod sub_keys;
pub mod store_config;
pub mod string_ops;
pub mod telemetry;

verus! {

} // verus!
