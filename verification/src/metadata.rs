//! The metadata page: page 0 of every file.
//!
//! Its body follows the padded header and holds the version of the format
//! (4 bytes), the page size (4 bytes), the root of the primary index
//! (8 bytes), the first free-list page (8 bytes) and the number of pages
//! ever allocated (8 bytes), each at the offset that the layout engine gives
//! it.

use vstd::prelude::*;
use crate::bytes::{
    be_bytes, bytes_at, lemma_be_limits, lemma_value_after_write, number_at, overwrite,
    write_u32, write_u64,
};
use crate::error::PageError;
use crate::layout::{
    field_offset, fields_end, fixed_prefix, record_alignment, record_size, well_ordered,
    widths_of, FieldType, Primitive,
};
use crate::serialize::MySerialize;

verus! {

/// Version of the file format that this library writes.
pub const DB_VERSION: u32 = 1;

/// The body of the metadata page.
#[derive(Clone, Copy, Debug, PartialEq, Eq, Structural)]
pub struct MetadataPage {
    /// Version of the file format.
    pub db_version: u32,
    /// Size of every page of the file in bytes, fixed when the file is made.
    pub page_size: u32,
    /// Root of the primary index.
    pub root_page_id: u64,
    /// First page of the free list; 0 where the list is empty.
    pub first_free_list_page: u64,
    /// Number of pages ever allocated, the metadata page among them.
    pub total_pages: u64,
}

/// The field types of the metadata page, in declaration order.
pub open spec fn metadata_fields() -> Seq<FieldType> {
    seq![
        FieldType::Primitive(Primitive::U32),
        FieldType::Primitive(Primitive::U32),
        FieldType::Primitive(Primitive::U64),
        FieldType::Primitive(Primitive::U64),
        FieldType::Primitive(Primitive::U64),
    ]
}

/// The constants of the metadata page are what the layout engine derives from
/// its field types.
pub proof fn lemma_metadata_layout()
    ensures
        fixed_prefix(metadata_fields(), MetadataPage::FIELD_COUNT as int),
        well_ordered(metadata_fields()),
        widths_of(metadata_fields(), 5) == seq![4nat, 4, 8, 8, 8],
        field_offset(widths_of(metadata_fields(), 5), 0) == MetadataPage::DB_VERSION_OFFSET,
        field_offset(widths_of(metadata_fields(), 5), 1) == MetadataPage::PAGE_SIZE_OFFSET,
        field_offset(widths_of(metadata_fields(), 5), 2) == MetadataPage::ROOT_PAGE_ID_OFFSET,
        field_offset(widths_of(metadata_fields(), 5), 3)
            == MetadataPage::FIRST_FREE_LIST_PAGE_OFFSET,
        field_offset(widths_of(metadata_fields(), 5), 4) == MetadataPage::TOTAL_PAGES_OFFSET,
        fields_end(widths_of(metadata_fields(), 5), 5) == MetadataPage::SIZE,
        record_size(widths_of(metadata_fields(), 5)) == MetadataPage::SIZE,
{
    let widths: Seq<nat> = widths_of(metadata_fields(), 5);
    assert(widths =~= seq![4nat, 4, 8, 8, 8]);
    reveal_with_fuel(field_offset, 6);
    reveal_with_fuel(record_alignment, 6);
    assert(field_offset(widths, 0) == 0);
    assert(field_offset(widths, 1) == 4);
    assert(field_offset(widths, 2) == 8);
    assert(field_offset(widths, 3) == 16);
    assert(field_offset(widths, 4) == 24);
    assert(record_alignment(widths, 5) == 8);
}

/// What `serialize` leaves in a buffer reads back field by field.
pub proof fn lemma_metadata_layout_in_image(page: MetadataPage, buffer: Seq<u8>)
    requires
        buffer.len() >= MetadataPage::SIZE,
    ensures
        page.image(buffer).len() == buffer.len(),
        number_at(page.image(buffer), 0, 4) == page.db_version,
        number_at(page.image(buffer), 4, 4) == page.page_size,
        number_at(page.image(buffer), 8, 8) == page.root_page_id,
        number_at(page.image(buffer), 16, 8) == page.first_free_list_page,
        number_at(page.image(buffer), 24, 8) == page.total_pages,
        forall|from: int, to: int|
            32 <= from <= to <= buffer.len() ==> #[trigger] page.image(buffer).subrange(from, to)
                == buffer.subrange(from, to),
{
    lemma_be_limits();
    let with_version = overwrite(buffer, 0, be_bytes(page.db_version as nat, 4));
    let with_page_size = overwrite(with_version, 4, be_bytes(page.page_size as nat, 4));
    let with_root = overwrite(with_page_size, 8, be_bytes(page.root_page_id as nat, 8));
    let with_free_list = overwrite(with_root, 16, be_bytes(page.first_free_list_page as nat, 8));
    let image = overwrite(with_free_list, 24, be_bytes(page.total_pages as nat, 8));
    lemma_value_after_write(buffer, 0, page.db_version as nat, 4);
    lemma_value_after_write(with_version, 4, page.page_size as nat, 4);
    lemma_value_after_write(with_page_size, 8, page.root_page_id as nat, 8);
    lemma_value_after_write(with_root, 16, page.first_free_list_page as nat, 8);
    lemma_value_after_write(with_free_list, 24, page.total_pages as nat, 8);
    assert(bytes_at(image, 0, 4) == bytes_at(with_version, 0, 4)) by {
        assert(with_page_size.subrange(0, 4) == with_version.subrange(0, 4));
        assert(with_root.subrange(0, 4) == with_page_size.subrange(0, 4));
        assert(with_free_list.subrange(0, 4) == with_root.subrange(0, 4));
        assert(image.subrange(0, 4) == with_free_list.subrange(0, 4));
    }
    assert(bytes_at(image, 4, 4) == bytes_at(with_page_size, 4, 4)) by {
        assert(with_root.subrange(4, 8) == with_page_size.subrange(4, 8));
        assert(with_free_list.subrange(4, 8) == with_root.subrange(4, 8));
        assert(image.subrange(4, 8) == with_free_list.subrange(4, 8));
    }
    assert(bytes_at(image, 8, 8) == bytes_at(with_root, 8, 8)) by {
        assert(with_free_list.subrange(8, 16) == with_root.subrange(8, 16));
        assert(image.subrange(8, 16) == with_free_list.subrange(8, 16));
    }
    assert(bytes_at(image, 16, 8) == bytes_at(with_free_list, 16, 8)) by {
        assert(image.subrange(16, 24) == with_free_list.subrange(16, 24));
    }
    assert forall|from: int, to: int| 32 <= from <= to <= buffer.len() implies #[trigger] image.subrange(
        from,
        to,
    ) == buffer.subrange(from, to) by {
        assert(with_version.subrange(from, to) == buffer.subrange(from, to));
        assert(with_page_size.subrange(from, to) == with_version.subrange(from, to));
        assert(with_root.subrange(from, to) == with_page_size.subrange(from, to));
        assert(with_free_list.subrange(from, to) == with_root.subrange(from, to));
        assert(image.subrange(from, to) == with_free_list.subrange(from, to));
    }
}

impl MetadataPage {
    /// Offset of `db_version` in the body.
    pub const DB_VERSION_OFFSET: usize = 0;

    /// Width of `db_version` in bytes.
    pub const DB_VERSION_SIZE: usize = 4;

    /// Offset of `page_size` in the body.
    pub const PAGE_SIZE_OFFSET: usize = 4;

    /// Width of `page_size` in bytes.
    pub const PAGE_SIZE_SIZE: usize = 4;

    /// Offset of `root_page_id` in the body.
    pub const ROOT_PAGE_ID_OFFSET: usize = 8;

    /// Width of `root_page_id` in bytes.
    pub const ROOT_PAGE_ID_SIZE: usize = 8;

    /// Offset of `first_free_list_page` in the body.
    pub const FIRST_FREE_LIST_PAGE_OFFSET: usize = 16;

    /// Width of `first_free_list_page` in bytes.
    pub const FIRST_FREE_LIST_PAGE_SIZE: usize = 8;

    /// Offset of `total_pages` in the body.
    pub const TOTAL_PAGES_OFFSET: usize = 24;

    /// Width of `total_pages` in bytes.
    pub const TOTAL_PAGES_SIZE: usize = 8;

    /// Size of the body; no padding follows its last field.
    pub const SIZE: usize = 32;

    /// Number of fields in the body.
    pub const FIELD_COUNT: usize = 5;

    /// The bytes of `total_pages`.
    pub fn total_pages_span() -> (span: core::ops::Range<usize>)
        ensures
            span.start == MetadataPage::TOTAL_PAGES_OFFSET,
            span.end == MetadataPage::TOTAL_PAGES_OFFSET + MetadataPage::TOTAL_PAGES_SIZE,
    {
        MetadataPage::TOTAL_PAGES_OFFSET..MetadataPage::TOTAL_PAGES_OFFSET
            + MetadataPage::TOTAL_PAGES_SIZE
    }

    /// The metadata of a new file with pages of `page_size` bytes: no index
    /// yet, an empty free list, and one page, the metadata page itself.
    pub fn intial_page(page_size: u32) -> (page: MetadataPage)
        ensures
            page == (MetadataPage {
                db_version: DB_VERSION,
                page_size,
                root_page_id: 0,
                first_free_list_page: 0,
                total_pages: 1,
            }),
    {
        MetadataPage {
            db_version: DB_VERSION,
            page_size,
            root_page_id: 0,
            first_free_list_page: 0,
            total_pages: 1,
        }
    }
}

impl MySerialize for MetadataPage {
    open spec fn encoded_size(&self) -> nat {
        MetadataPage::SIZE as nat
    }

    open spec fn refusal(&self, buffer_len: nat) -> Option<PageError> {
        if buffer_len < MetadataPage::SIZE {
            Some(PageError::BufferTooSmall)
        } else {
            None
        }
    }

    /// Each field is written big-endian at its offset, in declaration order.
    open spec fn image(&self, buffer: Seq<u8>) -> Seq<u8> {
        let with_version = overwrite(buffer, 0, be_bytes(self.db_version as nat, 4));
        let with_page_size = overwrite(with_version, 4, be_bytes(self.page_size as nat, 4));
        let with_root = overwrite(with_page_size, 8, be_bytes(self.root_page_id as nat, 8));
        let with_free_list = overwrite(
            with_root,
            16,
            be_bytes(self.first_free_list_page as nat, 8),
        );
        overwrite(with_free_list, 24, be_bytes(self.total_pages as nat, 8))
    }

    fn serialize(&self, buffer: &mut [u8]) -> (written: Result<usize, PageError>) {
        let size_to_write: usize = MetadataPage::total_pages_span().end;
        if buffer.len() < size_to_write {
            return Err(PageError::BufferTooSmall);
        }
        write_u32(buffer, MetadataPage::DB_VERSION_OFFSET, self.db_version);
        write_u32(buffer, MetadataPage::PAGE_SIZE_OFFSET, self.page_size);
        write_u64(buffer, MetadataPage::ROOT_PAGE_ID_OFFSET, self.root_page_id);
        write_u64(buffer, MetadataPage::FIRST_FREE_LIST_PAGE_OFFSET, self.first_free_list_page);
        write_u64(buffer, MetadataPage::TOTAL_PAGES_OFFSET, self.total_pages);
        Ok(size_to_write)
    }
}

} // verus!
