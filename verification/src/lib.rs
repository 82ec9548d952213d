//! Lockstep merging of row-synchronized variant-call streams.
//!
//! Every source contributes one record per row. A row is merged only when
//! every source produced a record for it; the merged record keeps the
//! variant-identity columns of the first source and carries the per-sample
//! genotype columns of all sources, in source order.

pub mod concat;
pub mod consistency;
pub mod driver;
pub mod error;
pub mod header;
pub mod laws;
pub mod merge;
pub mod reader;
pub mod record;
pub mod run;
pub mod sync;
