//! Free-list pages: the chain of pages that were given back.
//!
//! The body of a free-list page holds the identifier of the next free-list
//! page (8 bytes), the number of free pages listed here (4 bytes at offset 8)
//! and, from offset 16 on, their identifiers, 8 bytes each.

use vstd::prelude::*;
use crate::bytes::{
    be_bytes, bytes_at, lemma_be_limits, lemma_value_after_write, number_at, overwrite,
    write_u32, write_u64,
};
use crate::error::PageError;

verus! {

/// The body of a free-list page.
#[derive(Debug)]
pub struct FreeListPage {
    /// Next page of the chain; 0 at its end.
    pub next_free_list: u64,
    /// Identifiers of the free pages that this page lists.
    pub free_page_ids: Vec<u64>,
}

/// Length of the body of a free-list page that lists `id_count` pages.
pub open spec fn free_list_page_size(id_count: nat) -> nat {
    16 + 8 * id_count
}

/// Offset of identifier `index` in the body.
pub open spec fn free_page_id_offset(index: nat) -> nat {
    16 + 8 * index
}

/// `buffer` with the first `count` of `ids` written big-endian, each at its
/// offset.
pub open spec fn with_free_page_ids(buffer: Seq<u8>, ids: Seq<u64>, count: nat) -> Seq<u8>
    decreases count,
{
    if count == 0 {
        buffer
    } else {
        overwrite(
            with_free_page_ids(buffer, ids, (count - 1) as nat),
            free_page_id_offset((count - 1) as nat) as int,
            be_bytes(ids[count - 1] as nat, 8),
        )
    }
}

/// Writing identifiers changes neither the length of the buffer nor the
/// bytes before the first identifier, and each identifier reads back as it
/// was written.
pub proof fn lemma_with_free_page_ids(buffer: Seq<u8>, ids: Seq<u64>, count: nat)
    requires
        count <= ids.len(),
        free_list_page_size(count) <= buffer.len(),
    ensures
        with_free_page_ids(buffer, ids, count).len() == buffer.len(),
        forall|from: int, to: int|
            0 <= from <= to <= 16 ==> #[trigger] with_free_page_ids(buffer, ids, count).subrange(
                from,
                to,
            ) == buffer.subrange(from, to),
        forall|i: int|
            0 <= i < count ==> #[trigger] number_at(
                with_free_page_ids(buffer, ids, count),
                free_page_id_offset(i as nat),
                8,
            ) == ids[i],
    decreases count,
{
    if count > 0 {
        let before: nat = (count - 1) as nat;
        let inner: Seq<u8> = with_free_page_ids(buffer, ids, before);
        let outer: Seq<u8> = with_free_page_ids(buffer, ids, count);
        lemma_be_limits();
        lemma_with_free_page_ids(buffer, ids, before);
        lemma_value_after_write(inner, free_page_id_offset(before) as int, ids[count - 1] as nat, 8);
        assert forall|from: int, to: int| 0 <= from <= to <= 16 implies #[trigger] outer.subrange(
            from,
            to,
        ) == buffer.subrange(from, to) by {
            assert(outer.subrange(from, to) == inner.subrange(from, to));
        }
        assert forall|i: int| 0 <= i < count implies #[trigger] number_at(
            outer,
            free_page_id_offset(i as nat),
            8,
        ) == ids[i] by {
            if i < before {
                assert(bytes_at(outer, free_page_id_offset(i as nat), 8) == bytes_at(
                    inner,
                    free_page_id_offset(i as nat),
                    8,
                ));
                assert(number_at(inner, free_page_id_offset(i as nat), 8) == ids[i]);
            }
        }
    }
}

/// Layout of a serialised free-list page: a page that lists at most
/// `u32::MAX` pages is accepted by every buffer of at least its size, and
/// what `serialize` leaves there reads back as the next page at 0, the number
/// of identifiers at 8 and identifier `i` at `16 + 8 * i`.
pub proof fn lemma_free_list_page_layout(page: FreeListPage, buffer: Seq<u8>)
    requires
        page.free_page_ids@.len() <= u32::MAX,
        buffer.len() >= page.encoded_size(),
    ensures
        page.refusal(buffer.len()) is None,
        page.image(buffer).len() == buffer.len(),
        number_at(page.image(buffer), 0, 8) == page.next_free_list,
        number_at(page.image(buffer), 8, 4) == page.free_page_ids@.len(),
        forall|i: int|
            0 <= i < page.free_page_ids@.len() ==> #[trigger] number_at(
                page.image(buffer),
                free_page_id_offset(i as nat),
                8,
            ) == page.free_page_ids@[i],
{
    let ids: Seq<u64> = page.free_page_ids@;
    let count: nat = ids.len();
    let with_next = overwrite(buffer, 0, be_bytes(page.next_free_list as nat, 8));
    let with_count = overwrite(with_next, 8, be_bytes(count, 4));
    let image = with_free_page_ids(with_count, ids, count);
    assert(image == page.image(buffer));
    lemma_be_limits();
    lemma_value_after_write(buffer, 0, page.next_free_list as nat, 8);
    lemma_value_after_write(with_next, 8, count, 4);
    lemma_with_free_page_ids(with_count, ids, count);
    assert(bytes_at(image, 0, 8) == bytes_at(with_next, 0, 8)) by {
        assert(with_count.subrange(0, 8) == with_next.subrange(0, 8));
        assert(image.subrange(0, 8) == with_count.subrange(0, 8));
    }
    assert(bytes_at(image, 8, 4) == bytes_at(with_count, 8, 4)) by {
        assert(image.subrange(8, 12) == with_count.subrange(8, 12));
    }
}

impl FreeListPage {
    /// Offset of the next free-list page in the body.
    pub const NEXT_FREE_LIST_OFFSET: usize = 0;

    /// Width of the next free-list page in bytes.
    pub const NEXT_FREE_LIST_SIZE: usize = 8;

    /// Offset of the number of identifiers.
    pub const FREE_PAGE_IDS_LEN_OFFSET: usize = 8;

    /// Width of the number of identifiers in bytes.
    pub const FREE_PAGE_IDS_LEN_SIZE: usize = 4;

    /// Width of one identifier in bytes.
    pub const FREE_PAGE_IDS_VALUE_SIZE: usize = 8;

    /// Offset of the first identifier: the end of their number, moved up to 8
    /// bytes.
    pub const FREE_PAGE_IDS_FIRST_VALUE_OFFSET: usize = 16;

    /// Length of the body of a page that lists nothing.
    pub const MIN_SIZE: usize = 16;

    /// Number of bytes from the start of the buffer that the body takes.
    pub open spec fn encoded_size(&self) -> nat {
        free_list_page_size(self.free_page_ids@.len())
    }

    /// The error with which a buffer of `buffer_len` bytes is refused, if it
    /// is refused: a buffer shorter than the body first, then a number of
    /// identifiers that the 4-byte count cannot hold.
    pub open spec fn refusal(&self, buffer_len: nat) -> Option<PageError> {
        if buffer_len < self.encoded_size() {
            Some(PageError::BufferTooSmall)
        } else if self.free_page_ids@.len() > u32::MAX {
            Some(PageError::CountOverflow)
        } else {
            None
        }
    }

    /// What a buffer that held `buffer` holds once the page is written: the
    /// next page at 0, the number of identifiers at 8, the identifiers from
    /// 16 on; the padding at 12 keeps what the buffer held.
    pub open spec fn image(&self, buffer: Seq<u8>) -> Seq<u8> {
        let with_next = overwrite(buffer, 0, be_bytes(self.next_free_list as nat, 8));
        let with_count = overwrite(with_next, 8, be_bytes(self.free_page_ids@.len(), 4));
        with_free_page_ids(with_count, self.free_page_ids@, self.free_page_ids@.len())
    }

    /// The bytes of the next free-list page.
    pub fn next_free_list_span() -> (span: core::ops::Range<usize>)
        ensures
            span.start == FreeListPage::NEXT_FREE_LIST_OFFSET,
            span.end == FreeListPage::NEXT_FREE_LIST_OFFSET + FreeListPage::NEXT_FREE_LIST_SIZE,
    {
        FreeListPage::NEXT_FREE_LIST_OFFSET..FreeListPage::NEXT_FREE_LIST_OFFSET
            + FreeListPage::NEXT_FREE_LIST_SIZE
    }

    /// A free-list page that lists nothing and ends the chain.
    pub fn new() -> (page: FreeListPage)
        ensures
            page.next_free_list == 0,
            page.free_page_ids@.len() == 0,
    {
        FreeListPage { next_free_list: 0, free_page_ids: Vec::new() }
    }

    /// Writes the page into `buffer` and returns the number of bytes from the
    /// start of the buffer that it takes. A buffer shorter than that is
    /// refused with `BufferTooSmall`, and a refused call changes nothing.
    pub fn serialize(&self, buffer: &mut [u8]) -> (written: Result<usize, PageError>)
        ensures
            match written {
                Ok(count) => {
                    &&& self.refusal(old(buffer)@.len()) is None
                    &&& count == self.encoded_size()
                    &&& final(buffer)@ == self.image(old(buffer)@)
                },
                Err(error) => {
                    &&& self.refusal(old(buffer)@.len()) == Some(error)
                    &&& final(buffer)@ == old(buffer)@
                },
            },
            old(buffer)@.len() < self.encoded_size() ==> written == Err::<usize, PageError>(
                PageError::BufferTooSmall,
            ),
            final(buffer)@.len() == old(buffer)@.len(),
    {
        let len: usize = buffer.len();
        let id_count: usize = self.free_page_ids.len();
        let size_of_ids: usize = match FreeListPage::FREE_PAGE_IDS_VALUE_SIZE.checked_mul(id_count) {
            Some(size_of_ids) => size_of_ids,
            None => {
                return Err(PageError::BufferTooSmall);
            },
        };
        let size_to_write: usize = match FreeListPage::MIN_SIZE.checked_add(size_of_ids) {
            Some(size_to_write) => size_to_write,
            None => {
                return Err(PageError::BufferTooSmall);
            },
        };
        if len < size_to_write {
            return Err(PageError::BufferTooSmall);
        }
        if id_count > u32::MAX as usize {
            return Err(PageError::CountOverflow);
        }
        write_u64(buffer, FreeListPage::NEXT_FREE_LIST_OFFSET, self.next_free_list);
        write_u32(buffer, FreeListPage::FREE_PAGE_IDS_LEN_OFFSET, id_count as u32);
        let ghost with_count: Seq<u8> = buffer@;
        let mut free_page_id_offset: usize = FreeListPage::FREE_PAGE_IDS_FIRST_VALUE_OFFSET;
        let mut i: usize = 0;
        while i < id_count
            invariant
                i <= id_count,
                id_count == self.free_page_ids@.len(),
                buffer@.len() == old(buffer)@.len(),
                size_to_write <= buffer@.len(),
                size_to_write == 16 + 8 * id_count,
                free_page_id_offset == 16 + 8 * i,
                buffer@ == with_free_page_ids(with_count, self.free_page_ids@, i as nat),
            decreases id_count - i,
        {
            write_u64(buffer, free_page_id_offset, self.free_page_ids[i]);
            free_page_id_offset += FreeListPage::FREE_PAGE_IDS_VALUE_SIZE;
            i += 1;
        }
        Ok(size_to_write)
    }
}

} // verus!
