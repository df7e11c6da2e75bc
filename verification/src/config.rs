//! What a paged file manager is set up with.

use vstd::prelude::*;

verus! {

/// The settings of a paged file manager.
#[derive(Clone, Copy, Debug)]
pub struct PagedFileManagerConfig {
    pub(crate) page_size: u32,
    pub(crate) max_cache_size: usize,
}

impl PagedFileManagerConfig {
    /// Size of every page in bytes.
    pub closed spec fn spec_page_size(&self) -> u32 {
        self.page_size
    }

    /// Number of pages that the buffer pool holds before it evicts.
    pub closed spec fn spec_max_cache_size(&self) -> usize {
        self.max_cache_size
    }

    /// Size of every page in bytes.
    #[verifier::when_used_as_spec(spec_page_size)]
    pub fn page_size(&self) -> (size: u32)
        ensures
            size == self.spec_page_size(),
    {
        self.page_size
    }

    /// Number of pages that the buffer pool holds before it evicts.
    #[verifier::when_used_as_spec(spec_max_cache_size)]
    pub fn max_cache_size(&self) -> (size: usize)
        ensures
            size == self.spec_max_cache_size(),
    {
        self.max_cache_size
    }
}

/// Collects the settings of a paged file manager; what is not set gets its
/// default.
#[derive(Clone, Copy, Debug)]
pub struct PagedFileManagerConfigBuilder {
    page_size: Option<u32>,
    max_cache_size: Option<usize>,
}

impl Default for PagedFileManagerConfigBuilder {
    fn default() -> (builder: PagedFileManagerConfigBuilder)
        ensures
            builder.chosen_page_size() is None,
            builder.chosen_max_cache_size() is None,
    {
        PagedFileManagerConfigBuilder { page_size: None, max_cache_size: None }
    }
}

impl PagedFileManagerConfigBuilder {
    /// Page size of a manager for which none was chosen.
    pub const DEFAULT_PAGE_SIZE: u32 = 4096;

    /// Pool limit of a manager for which none was chosen.
    pub const DEFAULT_MAX_CACHE_SIZE: usize = 100;

    /// The page size that was chosen, if one was.
    pub closed spec fn chosen_page_size(&self) -> Option<u32> {
        self.page_size
    }

    /// The pool limit that was chosen, if one was.
    pub closed spec fn chosen_max_cache_size(&self) -> Option<usize> {
        self.max_cache_size
    }

    /// A builder with nothing chosen yet.
    pub fn new() -> (builder: PagedFileManagerConfigBuilder)
        ensures
            builder.chosen_page_size() is None,
            builder.chosen_max_cache_size() is None,
    {
        PagedFileManagerConfigBuilder { page_size: None, max_cache_size: None }
    }

    /// Chooses the page size.
    pub fn page_size(self, size: u32) -> (builder: PagedFileManagerConfigBuilder)
        ensures
            builder.chosen_page_size() == Some(size),
            builder.chosen_max_cache_size() == self.chosen_max_cache_size(),
    {
        let mut builder = self;
        builder.page_size = Some(size);
        builder
    }

    /// Chooses the pool limit.
    pub fn max_cache_size(self, size: usize) -> (builder: PagedFileManagerConfigBuilder)
        ensures
            builder.chosen_max_cache_size() == Some(size),
            builder.chosen_page_size() == self.chosen_page_size(),
    {
        let mut builder = self;
        builder.max_cache_size = Some(size);
        builder
    }

    /// The settings: what was chosen, and the default for the rest.
    pub fn build(self) -> (config: PagedFileManagerConfig)
        ensures
            config.spec_page_size() == match self.chosen_page_size() {
                Some(size) => size,
                None => PagedFileManagerConfigBuilder::DEFAULT_PAGE_SIZE,
            },
            config.spec_max_cache_size() == match self.chosen_max_cache_size() {
                Some(size) => size,
                None => PagedFileManagerConfigBuilder::DEFAULT_MAX_CACHE_SIZE,
            },
    {
        PagedFileManagerConfig {
            page_size: match self.page_size {
                Some(size) => size,
                None => PagedFileManagerConfigBuilder::DEFAULT_PAGE_SIZE,
            },
            max_cache_size: match self.max_cache_size {
                Some(size) => size,
                None => PagedFileManagerConfigBuilder::DEFAULT_MAX_CACHE_SIZE,
            },
        }
    }
}

} // verus!
