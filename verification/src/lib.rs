//! Storage core of a page-oriented database: a fixed-page-size file format,
//! the layout rules behind it, and the bookkeeping of the component that
//! allocates and caches pages.

use vstd::prelude::*;

pub mod bytes;
pub mod config;
pub mod data_page;
pub mod error;
pub mod free_list;
pub mod header;
pub mod index_page;
pub mod layout;
pub mod manager;
pub mod metadata;
pub mod page_type;
pub mod page_window;
pub mod paged_file;
pub mod pool;
pub mod serialize;

verus! {

/// Sum of two counters.
pub fn add(left: u64, right: u64) -> (sum: u64)
    requires
        left + right <= u64::MAX,
    ensures
        sum == left + right,
{
    left + right
}

} // verus!
