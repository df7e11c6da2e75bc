//! The header that every page starts with.

use vstd::prelude::*;
use crate::bytes::{
    be_bytes, be_value, lemma_be_limits, lemma_value_after_write, overwrite, read_u32, read_u64,
    read_u8, write_u32, write_u64, write_u8,
};
use crate::error::PageError;
use crate::layout::{
    field_offset, fields_end, fixed_prefix, record_alignment, record_size, well_ordered,
    widths_of, FieldType, Primitive,
};
use crate::page_type::PageType;
use crate::serialize::MySerialize;

verus! {

/// Common header of all pages, stored at byte 0 of the page.
#[derive(Clone, Copy, Debug, PartialEq, Eq, Structural)]
pub struct PageHeader {
    /// Identifier of the page.
    pub page_id: u64,
    /// Kind of the page.
    pub page_type: PageType,
    /// Reserved for a checksum of the page; 0 for now.
    pub checksum: u32,
    /// Log sequence number, reserved for a write-ahead log; 0 for now.
    pub lsn: u64,
    /// Offset in the page where the free space starts.
    pub free_space_pointer: u32,
}

/// The field types of the header, in declaration order.
pub open spec fn header_fields() -> Seq<FieldType> {
    seq![
        FieldType::Primitive(Primitive::U64),
        FieldType::Enumeration { width: 1 },
        FieldType::Primitive(Primitive::U32),
        FieldType::Primitive(Primitive::U64),
        FieldType::Primitive(Primitive::U32),
    ]
}

/// The header constants are what the layout engine derives from the field
/// types of the header.
pub proof fn lemma_header_layout()
    ensures
        fixed_prefix(header_fields(), PageHeader::FIELD_COUNT as int),
        well_ordered(header_fields()),
        widths_of(header_fields(), 5) == seq![8nat, 1, 4, 8, 4],
        field_offset(widths_of(header_fields(), 5), 0) == PageHeader::PAGE_ID_OFFSET,
        field_offset(widths_of(header_fields(), 5), 1) == PageHeader::PAGE_TYPE_OFFSET,
        field_offset(widths_of(header_fields(), 5), 2) == PageHeader::CHECKSUM_OFFSET,
        field_offset(widths_of(header_fields(), 5), 3) == PageHeader::LSN_OFFSET,
        field_offset(widths_of(header_fields(), 5), 4) == PageHeader::FREE_SPACE_POINTER_OFFSET,
        fields_end(widths_of(header_fields(), 5), 5) == PageHeader::SERIALIZED_SIZE,
        record_size(widths_of(header_fields(), 5)) == PageHeader::SIZE,
{
    let widths: Seq<nat> = widths_of(header_fields(), 5);
    assert(widths =~= seq![8nat, 1, 4, 8, 4]);
    reveal_with_fuel(field_offset, 6);
    reveal_with_fuel(record_alignment, 6);
    assert(field_offset(widths, 0) == 0);
    assert(field_offset(widths, 1) == 8);
    assert(field_offset(widths, 2) == 12);
    assert(field_offset(widths, 3) == 16);
    assert(field_offset(widths, 4) == 24);
    assert(record_alignment(widths, 5) == 8);
}

/// Round trip of the header: whatever a buffer of at least `PageHeader::SERIALIZED_SIZE` bytes
/// held, the header decoded from it after `header` was serialised into it is
/// `header`, field for field.
pub proof fn lemma_header_round_trip(header: PageHeader, buffer: Seq<u8>)
    requires
        buffer.len() >= PageHeader::SERIALIZED_SIZE,
    ensures
        header.image(buffer).len() == buffer.len(),
        PageHeader::parse(header.image(buffer)) == Ok::<PageHeader, PageError>(header),
{
    lemma_be_limits();
    let with_page_id = overwrite(buffer, 0, be_bytes(header.page_id as nat, 8));
    let with_page_type = overwrite(with_page_id, 8, be_bytes(header.page_type.tag(), 1));
    let with_checksum = overwrite(with_page_type, 12, be_bytes(header.checksum as nat, 4));
    let with_lsn = overwrite(with_checksum, 16, be_bytes(header.lsn as nat, 8));
    let image = overwrite(with_lsn, 24, be_bytes(header.free_space_pointer as nat, 4));
    lemma_value_after_write(buffer, 0, header.page_id as nat, 8);
    lemma_value_after_write(with_page_id, 8, header.page_type.tag(), 1);
    lemma_value_after_write(with_page_type, 12, header.checksum as nat, 4);
    lemma_value_after_write(with_checksum, 16, header.lsn as nat, 8);
    lemma_value_after_write(with_lsn, 24, header.free_space_pointer as nat, 4);
    assert(image.subrange(0, 8) == with_page_id.subrange(0, 8)) by {
        assert(with_page_type.subrange(0, 8) == with_page_id.subrange(0, 8));
        assert(with_checksum.subrange(0, 8) == with_page_type.subrange(0, 8));
        assert(with_lsn.subrange(0, 8) == with_checksum.subrange(0, 8));
        assert(image.subrange(0, 8) == with_lsn.subrange(0, 8));
    }
    assert(image.subrange(8, 9) == with_page_type.subrange(8, 9)) by {
        assert(with_checksum.subrange(8, 9) == with_page_type.subrange(8, 9));
        assert(with_lsn.subrange(8, 9) == with_checksum.subrange(8, 9));
        assert(image.subrange(8, 9) == with_lsn.subrange(8, 9));
    }
    assert(image.subrange(12, 16) == with_checksum.subrange(12, 16)) by {
        assert(with_lsn.subrange(12, 16) == with_checksum.subrange(12, 16));
        assert(image.subrange(12, 16) == with_lsn.subrange(12, 16));
    }
    assert(image.subrange(16, 24) == with_lsn.subrange(16, 24));
}

impl PageHeader {
    /// Offset of `page_id` in the header.
    pub const PAGE_ID_OFFSET: usize = 0;

    /// Width of `page_id` in bytes.
    pub const PAGE_ID_SIZE: usize = 8;

    /// Offset of `page_type` in the header.
    pub const PAGE_TYPE_OFFSET: usize = 8;

    /// Width of `page_type` in bytes.
    pub const PAGE_TYPE_SIZE: usize = 1;

    /// Offset of `checksum` in the header.
    pub const CHECKSUM_OFFSET: usize = 12;

    /// Width of `checksum` in bytes.
    pub const CHECKSUM_SIZE: usize = 4;

    /// Offset of `lsn` in the header.
    pub const LSN_OFFSET: usize = 16;

    /// Width of `lsn` in bytes.
    pub const LSN_SIZE: usize = 8;

    /// Offset of `free_space_pointer` in the header.
    pub const FREE_SPACE_POINTER_OFFSET: usize = 24;

    /// Width of `free_space_pointer` in bytes.
    pub const FREE_SPACE_POINTER_SIZE: usize = 4;

    /// End of the last header field: the bytes that a serialised header takes.
    pub const SERIALIZED_SIZE: usize = 28;

    /// Size of the header with the padding behind its last field.
    pub const SIZE: usize = 32;

    /// Number of fields in the header.
    pub const FIELD_COUNT: usize = 5;

    /// The header decoded from the first bytes of `buffer`: each field is the
    /// big-endian number at its offset. A buffer shorter than the serialised
    /// header, or a tag that names no page kind, has no header.
    pub open spec fn parse(buffer: Seq<u8>) -> Result<PageHeader, PageError> {
        if buffer.len() < PageHeader::SERIALIZED_SIZE {
            Err(PageError::BufferTooSmall)
        } else {
            match PageType::of_tag(be_value(buffer.subrange(8, 9))) {
                Err(error) => Err(error),
                Ok(page_type) => Ok(
                    PageHeader {
                        page_id: be_value(buffer.subrange(0, 8)) as u64,
                        page_type,
                        checksum: be_value(buffer.subrange(12, 16)) as u32,
                        lsn: be_value(buffer.subrange(16, 24)) as u64,
                        free_space_pointer: be_value(buffer.subrange(24, 28)) as u32,
                    },
                ),
            }
        }
    }

    /// The free-space pointer lies behind the serialised header and inside a
    /// page of `page_size` bytes.
    pub open spec fn well_formed(self, page_size: nat) -> bool {
        PageHeader::SERIALIZED_SIZE <= self.free_space_pointer <= page_size
    }

    /// A header for page `page_id` of kind `page_type`, with no checksum, no
    /// log sequence number, and the free space starting right behind the
    /// padded header.
    pub fn new(page_id: u64, page_type: PageType) -> (header: PageHeader)
        ensures
            header == (PageHeader {
                page_id,
                page_type,
                checksum: 0,
                lsn: 0,
                free_space_pointer: PageHeader::SIZE as u32,
            }),
            forall|page_size: nat| page_size >= PageHeader::SIZE ==> header.well_formed(page_size),
    {
        PageHeader { page_id, page_type, checksum: 0, lsn: 0, free_space_pointer: PageHeader::SIZE as u32 }
    }

    /// Number of bytes that a serialised header takes: the end of its last
    /// field.
    pub fn size() -> (size: usize)
        ensures
            size == PageHeader::SERIALIZED_SIZE,
    {
        PageHeader::free_space_pointer_span().end
    }

    /// The bytes of `page_id`.
    pub fn page_id_span() -> (span: core::ops::Range<usize>)
        ensures
            span.start == PageHeader::PAGE_ID_OFFSET,
            span.end == PageHeader::PAGE_ID_OFFSET + PageHeader::PAGE_ID_SIZE,
    {
        PageHeader::PAGE_ID_OFFSET..PageHeader::PAGE_ID_OFFSET + PageHeader::PAGE_ID_SIZE
    }

    /// The byte of `page_type`.
    pub fn page_type_span() -> (span: core::ops::Range<usize>)
        ensures
            span.start == PageHeader::PAGE_TYPE_OFFSET,
            span.end == PageHeader::PAGE_TYPE_OFFSET + PageHeader::PAGE_TYPE_SIZE,
    {
        PageHeader::PAGE_TYPE_OFFSET..PageHeader::PAGE_TYPE_OFFSET + PageHeader::PAGE_TYPE_SIZE
    }

    /// The bytes of `checksum`.
    pub fn checksum_span() -> (span: core::ops::Range<usize>)
        ensures
            span.start == PageHeader::CHECKSUM_OFFSET,
            span.end == PageHeader::CHECKSUM_OFFSET + PageHeader::CHECKSUM_SIZE,
    {
        PageHeader::CHECKSUM_OFFSET..PageHeader::CHECKSUM_OFFSET + PageHeader::CHECKSUM_SIZE
    }

    /// The bytes of `lsn`.
    pub fn lsn_span() -> (span: core::ops::Range<usize>)
        ensures
            span.start == PageHeader::LSN_OFFSET,
            span.end == PageHeader::LSN_OFFSET + PageHeader::LSN_SIZE,
    {
        PageHeader::LSN_OFFSET..PageHeader::LSN_OFFSET + PageHeader::LSN_SIZE
    }

    /// The bytes of `free_space_pointer`.
    pub fn free_space_pointer_span() -> (span: core::ops::Range<usize>)
        ensures
            span.start == PageHeader::FREE_SPACE_POINTER_OFFSET,
            span.end == PageHeader::FREE_SPACE_POINTER_OFFSET + PageHeader::FREE_SPACE_POINTER_SIZE,
    {
        PageHeader::FREE_SPACE_POINTER_OFFSET..PageHeader::FREE_SPACE_POINTER_OFFSET + PageHeader::FREE_SPACE_POINTER_SIZE
    }

    /// Decodes the header at the start of `buffer`. Fails with
    /// `BufferTooSmall` when `buffer` is shorter than a serialised header, and
    /// with `InvalidPageType` when the tag byte is above 4.
    pub fn deserialize(buffer: Vec<u8>) -> (header: Result<PageHeader, PageError>)
        ensures
            header == PageHeader::parse(buffer@),
    {
        PageHeader::read(buffer.as_slice())
    }

    /// Decodes the header at the start of `buffer`, as `deserialize` does.
    pub fn read(buffer: &[u8]) -> (header: Result<PageHeader, PageError>)
        ensures
            header == PageHeader::parse(buffer@),
    {
        let size_to_read: usize = PageHeader::size();
        if buffer.len() < size_to_read {
            return Err(PageError::BufferTooSmall);
        }
        let page_id: u64 = read_u64(buffer, PageHeader::PAGE_ID_OFFSET);
        let tag: u8 = read_u8(buffer, PageHeader::PAGE_TYPE_OFFSET);
        let page_type: PageType = match PageType::from_be_bytes([tag]) {
            Ok(page_type) => page_type,
            Err(error) => {
                return Err(error);
            },
        };
        let checksum: u32 = read_u32(buffer, PageHeader::CHECKSUM_OFFSET);
        let lsn: u64 = read_u64(buffer, PageHeader::LSN_OFFSET);
        let free_space_pointer: u32 = read_u32(buffer, PageHeader::FREE_SPACE_POINTER_OFFSET);
        Ok(PageHeader { page_id, page_type, checksum, lsn, free_space_pointer })
    }
}

impl MySerialize for PageHeader {
    open spec fn encoded_size(&self) -> nat {
        PageHeader::SERIALIZED_SIZE as nat
    }

    open spec fn refusal(&self, buffer_len: nat) -> Option<PageError> {
        if buffer_len < PageHeader::SERIALIZED_SIZE {
            Some(PageError::BufferTooSmall)
        } else {
            None
        }
    }

    /// Each field is written big-endian at its offset, in declaration order;
    /// the padding between the fields keeps what the buffer held.
    open spec fn image(&self, buffer: Seq<u8>) -> Seq<u8> {
        let with_page_id = overwrite(buffer, 0, be_bytes(self.page_id as nat, 8));
        let with_page_type = overwrite(with_page_id, 8, be_bytes(self.page_type.tag(), 1));
        let with_checksum = overwrite(with_page_type, 12, be_bytes(self.checksum as nat, 4));
        let with_lsn = overwrite(with_checksum, 16, be_bytes(self.lsn as nat, 8));
        overwrite(with_lsn, 24, be_bytes(self.free_space_pointer as nat, 4))
    }

    fn serialize(&self, buffer: &mut [u8]) -> (written: Result<usize, PageError>) {
        let size_to_write: usize = PageHeader::size();
        if buffer.len() < size_to_write {
            return Err(PageError::BufferTooSmall);
        }
        let tag: [u8; 1] = self.page_type.to_be_bytes();
        write_u64(buffer, PageHeader::PAGE_ID_OFFSET, self.page_id);
        write_u8(buffer, PageHeader::PAGE_TYPE_OFFSET, tag[0]);
        write_u32(buffer, PageHeader::CHECKSUM_OFFSET, self.checksum);
        write_u64(buffer, PageHeader::LSN_OFFSET, self.lsn);
        write_u32(buffer, PageHeader::FREE_SPACE_POINTER_OFFSET, self.free_space_pointer);
        Ok(size_to_write)
    }
}

} // verus!
