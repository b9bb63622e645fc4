//! Catalog listing: default-prefix resolution, selection criteria and the
//! pull-driven paginated fetch of live catalog entries.

pub mod error;
pub mod paging;
pub mod prefixes;
pub mod selection;
pub mod table;
pub mod text;
pub mod trace;
