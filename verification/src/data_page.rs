//! Data pages: the slot array that finds the records of a page.
//!
//! The body of a data page holds the number of records (4 bytes), the number
//! of slots (4 bytes) and the slots, 4 bytes each and without padding between
//! them. Where the records themselves are stored is not settled yet.

use vstd::prelude::*;
use crate::bytes::{
    be_bytes, bytes_at, lemma_be_limits, lemma_value_after_write, number_at, overwrite, read_u32,
    write_u32,
};
use crate::error::PageError;
use crate::serialize::MySerialize;

verus! {

/// The body of a data page.
#[derive(Debug)]
pub struct DataPage {
    /// Number of records stored in the page.
    pub num_records: u32,
    /// Offset of each record in the page, in the order of insertion.
    pub slot_array: Vec<u32>,
}

/// What a data page holds, as plain values.
pub struct DataPageView {
    pub num_records: u32,
    pub slot_array: Seq<u32>,
}

impl View for DataPage {
    type V = DataPageView;

    open spec fn view(&self) -> DataPageView {
        DataPageView { num_records: self.num_records, slot_array: self.slot_array@ }
    }
}

impl DataPageView {
    /// Length of the serialised body.
    pub open spec fn encoded_size(self) -> nat {
        data_page_size(self.slot_array.len())
    }

    /// The error with which a buffer of `buffer_len` bytes is refused, if it
    /// is refused: a buffer shorter than the body first, then a number of
    /// slots that the 4-byte count cannot hold.
    pub open spec fn refusal(self, buffer_len: nat) -> Option<PageError> {
        if buffer_len < self.encoded_size() {
            Some(PageError::BufferTooSmall)
        } else if self.slot_array.len() > u32::MAX {
            Some(PageError::CountOverflow)
        } else {
            None
        }
    }

    /// What a buffer that held `buffer` holds once the page is written: the
    /// number of records at 0, the number of slots at 4, then the slots.
    pub open spec fn image(self, buffer: Seq<u8>) -> Seq<u8> {
        let with_records = overwrite(buffer, 0, be_bytes(self.num_records as nat, 4));
        let with_count = overwrite(with_records, 4, be_bytes(self.slot_array.len(), 4));
        with_slots(with_count, self.slot_array, self.slot_array.len())
    }
}

/// Length of the body of a data page with `slot_count` slots.
pub open spec fn data_page_size(slot_count: nat) -> nat {
    8 + 4 * slot_count
}

/// Offset of slot `index` in the body.
pub open spec fn slot_offset(index: nat) -> nat {
    8 + 4 * index
}

/// `buffer` with the first `count` of `slots` written big-endian, each at its
/// offset.
pub open spec fn with_slots(buffer: Seq<u8>, slots: Seq<u32>, count: nat) -> Seq<u8>
    decreases count,
{
    if count == 0 {
        buffer
    } else {
        overwrite(
            with_slots(buffer, slots, (count - 1) as nat),
            slot_offset((count - 1) as nat) as int,
            be_bytes(slots[count - 1] as nat, 4),
        )
    }
}

/// The slots that the first `count` slot fields of `buffer` spell.
pub open spec fn slots_in(buffer: Seq<u8>, count: nat) -> Seq<u32> {
    Seq::new(count, |i: int| number_at(buffer, slot_offset(i as nat), 4) as u32)
}

/// The data page that `buffer` holds from its start on: a buffer that ends
/// before the slot count, or before the last slot that the count announces,
/// holds none.
pub open spec fn parse_data_page(buffer: Seq<u8>) -> Result<DataPageView, PageError> {
    if buffer.len() < DataPage::MIN_SIZE {
        Err(PageError::BufferTooSmall)
    } else if buffer.len() < data_page_size(number_at(buffer, 4, 4)) {
        Err(PageError::BufferTooSmall)
    } else {
        Ok(
            DataPageView {
                num_records: number_at(buffer, 0, 4) as u32,
                slot_array: slots_in(buffer, number_at(buffer, 4, 4)),
            },
        )
    }
}

/// Writing slots changes neither the length of the buffer nor the bytes
/// before the first slot, and each slot reads back as it was written.
pub proof fn lemma_with_slots(buffer: Seq<u8>, slots: Seq<u32>, count: nat)
    requires
        count <= slots.len(),
        data_page_size(count) <= buffer.len(),
    ensures
        with_slots(buffer, slots, count).len() == buffer.len(),
        forall|from: int, to: int|
            0 <= from <= to <= 8 ==> #[trigger] with_slots(buffer, slots, count).subrange(from, to)
                == buffer.subrange(from, to),
        forall|i: int|
            0 <= i < count ==> #[trigger] number_at(
                with_slots(buffer, slots, count),
                slot_offset(i as nat),
                4,
            ) == slots[i],
    decreases count,
{
    if count > 0 {
        let before: nat = (count - 1) as nat;
        let inner: Seq<u8> = with_slots(buffer, slots, before);
        let outer: Seq<u8> = with_slots(buffer, slots, count);
        lemma_be_limits();
        lemma_with_slots(buffer, slots, before);
        lemma_value_after_write(inner, slot_offset(before) as int, slots[count - 1] as nat, 4);
        assert forall|from: int, to: int| 0 <= from <= to <= 8 implies #[trigger] outer.subrange(
            from,
            to,
        ) == buffer.subrange(from, to) by {
            assert(outer.subrange(from, to) == inner.subrange(from, to));
        }
        assert forall|i: int| 0 <= i < count implies #[trigger] number_at(
            outer,
            slot_offset(i as nat),
            4,
        ) == slots[i] by {
            if i < before {
                assert(bytes_at(outer, slot_offset(i as nat), 4) == bytes_at(
                    inner,
                    slot_offset(i as nat),
                    4,
                ));
                assert(number_at(inner, slot_offset(i as nat), 4) == slots[i]);
            }
        }
    }
}

/// Round trip of the data page: a page with at most `u32::MAX` slots is
/// accepted by every buffer of at least `size()` bytes, and the page decoded
/// from that buffer afterwards has the same number of records and the same
/// slots in the same order.
pub proof fn lemma_data_page_round_trip(page: DataPageView, buffer: Seq<u8>)
    requires
        page.slot_array.len() <= u32::MAX,
        buffer.len() >= page.encoded_size(),
    ensures
        page.refusal(buffer.len()) is None,
        page.image(buffer).len() == buffer.len(),
        parse_data_page(page.image(buffer)) == Ok::<DataPageView, PageError>(page),
{
    let slots: Seq<u32> = page.slot_array;
    let count: nat = slots.len();
    let with_records = overwrite(buffer, 0, be_bytes(page.num_records as nat, 4));
    let with_count = overwrite(with_records, 4, be_bytes(count, 4));
    let image = with_slots(with_count, slots, count);
    assert(image == page.image(buffer));
    lemma_be_limits();
    lemma_value_after_write(buffer, 0, page.num_records as nat, 4);
    lemma_value_after_write(with_records, 4, count, 4);
    lemma_with_slots(with_count, slots, count);
    assert(bytes_at(image, 0, 4) == bytes_at(with_records, 0, 4)) by {
        assert(with_count.subrange(0, 4) == with_records.subrange(0, 4));
        assert(image.subrange(0, 4) == with_count.subrange(0, 4));
    }
    assert(bytes_at(image, 4, 4) == bytes_at(with_count, 4, 4)) by {
        assert(image.subrange(4, 8) == with_count.subrange(4, 8));
    }
    assert(number_at(image, 4, 4) == count);
    assert(slots_in(image, count) =~= slots);
}

impl DataPage {
    /// Offset of the number of records in the body.
    pub const NUM_RECORDS_OFFSET: usize = 0;

    /// Width of the number of records in bytes.
    pub const NUM_RECORDS_SIZE: usize = 4;

    /// Offset of the number of slots.
    pub const SLOT_ARRAY_LEN_OFFSET: usize = 4;

    /// Width of the number of slots in bytes.
    pub const SLOT_ARRAY_LEN_SIZE: usize = 4;

    /// Width of one slot in bytes.
    pub const SLOT_ARRAY_VALUE_SIZE: usize = 4;

    /// Offset of the first slot.
    pub const SLOT_ARRAY_FIRST_VALUE_OFFSET: usize = 8;

    /// Length of the body of a page without slots.
    pub const MIN_SIZE: usize = 8;

    /// The bytes of the number of records.
    pub fn num_records_span() -> (span: core::ops::Range<usize>)
        ensures
            span.start == DataPage::NUM_RECORDS_OFFSET,
            span.end == DataPage::NUM_RECORDS_OFFSET + DataPage::NUM_RECORDS_SIZE,
    {
        DataPage::NUM_RECORDS_OFFSET..DataPage::NUM_RECORDS_OFFSET + DataPage::NUM_RECORDS_SIZE
    }

    /// The bytes of the number of slots.
    pub fn slot_array_length_span() -> (span: core::ops::Range<usize>)
        ensures
            span.start == DataPage::SLOT_ARRAY_LEN_OFFSET,
            span.end == DataPage::SLOT_ARRAY_LEN_OFFSET + DataPage::SLOT_ARRAY_LEN_SIZE,
    {
        DataPage::SLOT_ARRAY_LEN_OFFSET..DataPage::SLOT_ARRAY_LEN_OFFSET
            + DataPage::SLOT_ARRAY_LEN_SIZE
    }

    /// Length of the serialised body: the two counts and 4 bytes for each
    /// slot.
    pub fn size(&self) -> (size: usize)
        requires
            self.encoded_size() <= usize::MAX,
        ensures
            size == self.encoded_size(),
    {
        DataPage::MIN_SIZE + (DataPage::SLOT_ARRAY_VALUE_SIZE * self.slot_array.len())
    }

    /// `size` for every page: `None` where the length is not a `usize`.
    pub fn checked_size(&self) -> (size: Option<usize>)
        ensures
            match size {
                Some(size) => size == self.encoded_size(),
                None => self.encoded_size() > usize::MAX,
            },
    {
        let size_of_slots: usize = DataPage::SLOT_ARRAY_VALUE_SIZE.checked_mul(
            self.slot_array.len(),
        )?;
        DataPage::MIN_SIZE.checked_add(size_of_slots)
    }

    /// A data page without records.
    pub fn new() -> (page: DataPage)
        ensures
            page@ == (DataPageView { num_records: 0, slot_array: Seq::empty() }),
    {
        DataPage { num_records: 0, slot_array: Vec::new() }
    }

    /// Decodes the data page at the start of `buffer`. Fails with
    /// `BufferTooSmall` when `buffer` ends before the slot count or before
    /// the last slot that the count announces.
    pub fn deserialize(buffer: &[u8]) -> (page: Result<DataPage, PageError>)
        ensures
            match page {
                Ok(page) => parse_data_page(buffer@) == Ok::<DataPageView, PageError>(page@),
                Err(error) => parse_data_page(buffer@) == Err::<DataPageView, PageError>(error),
            },
    {
        let len: usize = buffer.len();
        if len < DataPage::MIN_SIZE {
            return Err(PageError::BufferTooSmall);
        }
        let num_records: u32 = read_u32(buffer, DataPage::NUM_RECORDS_OFFSET);
        let slot_count: u32 = read_u32(buffer, DataPage::SLOT_ARRAY_LEN_OFFSET);
        if ((len - DataPage::MIN_SIZE) / DataPage::SLOT_ARRAY_VALUE_SIZE) < slot_count as usize {
            return Err(PageError::BufferTooSmall);
        }
        let count: usize = slot_count as usize;
        let mut slot_array: Vec<u32> = Vec::new();
        let mut current_offset: usize = DataPage::SLOT_ARRAY_FIRST_VALUE_OFFSET;
        let mut i: usize = 0;
        while i < count
            invariant
                i <= count,
                8 + 4 * count <= len,
                len == buffer@.len(),
                current_offset == slot_offset(i as nat),
                slot_array@ == slots_in(buffer@, i as nat),
            decreases count - i,
        {
            let slot: u32 = read_u32(buffer, current_offset);
            slot_array.push(slot);
            current_offset += DataPage::SLOT_ARRAY_VALUE_SIZE;
            i += 1;
            assert(slot_array@ =~= slots_in(buffer@, i as nat));
        }
        Ok(DataPage { num_records, slot_array })
    }
}

impl MySerialize for DataPage {
    open spec fn encoded_size(&self) -> nat {
        self@.encoded_size()
    }

    open spec fn refusal(&self, buffer_len: nat) -> Option<PageError> {
        self@.refusal(buffer_len)
    }

    open spec fn image(&self, buffer: Seq<u8>) -> Seq<u8> {
        self@.image(buffer)
    }

    fn serialize(&self, buffer: &mut [u8]) -> (written: Result<usize, PageError>) {
        let len: usize = buffer.len();
        let size: usize = match self.checked_size() {
            Some(size) => size,
            None => {
                return Err(PageError::BufferTooSmall);
            },
        };
        if len < size {
            return Err(PageError::BufferTooSmall);
        }
        let slot_count: usize = self.slot_array.len();
        if slot_count > u32::MAX as usize {
            return Err(PageError::CountOverflow);
        }
        write_u32(buffer, DataPage::NUM_RECORDS_OFFSET, self.num_records);
        write_u32(buffer, DataPage::SLOT_ARRAY_LEN_OFFSET, slot_count as u32);
        let ghost with_count: Seq<u8> = buffer@;
        let mut current_offset: usize = DataPage::SLOT_ARRAY_FIRST_VALUE_OFFSET;
        let mut i: usize = 0;
        while i < slot_count
            invariant
                i <= slot_count,
                slot_count == self.slot_array@.len(),
                buffer@.len() == old(buffer)@.len(),
                size <= buffer@.len(),
                size == 8 + 4 * slot_count,
                current_offset == slot_offset(i as nat),
                buffer@ == with_slots(with_count, self.slot_array@, i as nat),
            decreases slot_count - i,
        {
            write_u32(buffer, current_offset, self.slot_array[i]);
            current_offset += DataPage::SLOT_ARRAY_VALUE_SIZE;
            i += 1;
        }
        Ok(size)
    }
}

} // verus!
