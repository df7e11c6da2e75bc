//! A model of the file behind a manager: what its bytes are once the page
//! writes that the manager asks for have been performed.
//!
//! The model is a byte string. A write behind the end of the file fills the
//! gap with zeros, as a seek behind the end does.

use vstd::prelude::*;
use crate::bytes::{bytes_at, lemma_be_limits, lemma_value_after_write};
use crate::manager::{
    allocation_refusal, allocation_writes, blank_page, initial_page, lemma_initial_page,
    page_after_allocation, total_pages_in,
};

verus! {

/// The file `file` after `data` was written at byte `offset`.
pub open spec fn written(file: Seq<u8>, offset: nat, data: Seq<u8>) -> Seq<u8> {
    let len: nat = if file.len() >= offset + data.len() {
        file.len()
    } else {
        offset + data.len()
    };
    Seq::new(
        len,
        |i: int|
            if offset <= i < offset + data.len() {
                data[i - offset]
            } else if i < file.len() {
                file[i]
            } else {
                0u8
            },
    )
}

/// The file `file` after the page writes `writes` were performed in order,
/// each at byte `page_id * page_size`.
pub open spec fn pages_written(file: Seq<u8>, page_size: nat, writes: Seq<(u64, Seq<u8>)>) -> Seq<
    u8,
>
    decreases writes.len(),
{
    if writes.len() == 0 {
        file
    } else {
        written(
            pages_written(file, page_size, writes.drop_last()),
            writes.last().0 as nat * page_size,
            writes.last().1,
        )
    }
}

/// Page `page_id` of the file `file`.
pub open spec fn page_of(file: Seq<u8>, page_size: nat, page_id: nat) -> Seq<u8> {
    file.subrange((page_id * page_size) as int, (page_id * page_size + page_size) as int)
}

/// A new file: an empty file after its metadata page was written.
pub open spec fn new_file(page_size: u32) -> Seq<u8> {
    pages_written(Seq::empty(), page_size as nat, seq![(0u64, initial_page(page_size))])
}

/// The file `file` after one allocation that found the metadata page as the
/// file holds it.
pub open spec fn file_after_allocation(file: Seq<u8>, page_size: nat) -> Seq<u8> {
    pages_written(file, page_size, allocation_writes(page_of(file, page_size, 0), page_size))
}

/// A new file after `count` allocations.
pub open spec fn file_after_allocations(page_size: u32, count: nat) -> Seq<u8>
    decreases count,
{
    if count == 0 {
        new_file(page_size)
    } else {
        file_after_allocation(
            file_after_allocations(page_size, (count - 1) as nat),
            page_size as nat,
        )
    }
}

/// A new file is its metadata page.
pub proof fn lemma_new_file(page_size: u32)
    requires
        page_size >= 64,
    ensures
        new_file(page_size) == initial_page(page_size),
        new_file(page_size).len() == page_size,
        page_of(new_file(page_size), page_size as nat, 0) == initial_page(page_size),
{
    let page = initial_page(page_size);
    lemma_initial_page(page_size);
    let writes = seq![(0u64, page)];
    assert(writes.drop_last() =~= Seq::<(u64, Seq<u8>)>::empty());
    assert(pages_written(Seq::empty(), page_size as nat, writes.drop_last()) == Seq::<u8>::empty());
    assert(0 * (page_size as nat) == 0) by (nonlinear_arith);
    assert(written(Seq::empty(), 0, page) =~= page);
    assert(new_file(page_size) == page);
    assert(0 * (page_size as nat) + (page_size as nat) == page_size as nat) by (nonlinear_arith);
    assert(page_of(page, page_size as nat, 0) =~= page);
}

/// One allocation on a file of whole pages whose metadata page records
/// `total` pages: the file then records `total + 1` pages and ends behind
/// page `total + 1`, and nothing but the number of pages and the new page has
/// changed.
pub proof fn lemma_file_after_allocation(file: Seq<u8>, page_size: nat, total: nat)
    requires
        page_size >= 64,
        file.len() >= page_size,
        file.len() <= (total + 1) * page_size,
        total_pages_in(page_of(file, page_size, 0)) == total,
        total + 1 <= u64::MAX,
    ensures
        allocation_refusal(page_of(file, page_size, 0)) is None,
        file_after_allocation(file, page_size).len() == (total + 2) * page_size,
        total_pages_in(page_of(file_after_allocation(file, page_size), page_size, 0)) == total + 1,
        page_of(file_after_allocation(file, page_size), page_size, total + 1) == blank_page(
            page_size,
        ),
{
    let metadata = page_of(file, page_size, 0);
    let new_id: nat = total + 1;
    let new_metadata = page_after_allocation(metadata);
    let blank = blank_page(page_size);
    let writes = allocation_writes(metadata, page_size);
    lemma_be_limits();
    assert(0 * page_size == 0) by (nonlinear_arith);
    assert(0 * page_size + page_size == page_size) by (nonlinear_arith);
    assert(metadata.len() == page_size);
    lemma_value_after_write(metadata, 56, new_id, 8);
    assert(new_metadata.len() == page_size);
    assert(writes.drop_last() =~= seq![(0u64, new_metadata)]);
    assert(writes.drop_last().drop_last() =~= Seq::<(u64, Seq<u8>)>::empty());
    assert(pages_written(file, page_size, writes.drop_last().drop_last()) == file);
    let first = written(file, 0, new_metadata);
    assert(pages_written(file, page_size, writes.drop_last()) == first);
    assert(first.len() == file.len());
    let at: nat = new_id * page_size;
    assert(at == (total + 1) * page_size);
    assert((total + 2) * page_size == at + page_size && at >= page_size) by (nonlinear_arith)
        requires
            at == (total + 1) * page_size,
            page_size >= 64,
    ;
    assert(writes.last() == (new_id as u64, blank));
    let after = written(first, at, blank);
    assert(file_after_allocation(file, page_size) == after);
    assert(after.len() == at + page_size);
    assert(page_of(after, page_size, 0) =~= new_metadata);
    assert(bytes_at(new_metadata, 56, 8) == new_metadata.subrange(56, 64));
    assert(page_of(after, page_size, new_id) =~= blank);
}

/// The allocation invariant: after `count` allocations on a new file, each of
/// which found the metadata page as the file held it, the metadata page
/// records `count + 1` pages. The new file is one page long; after the first
/// allocation the file is `count + 2` pages long, because the identifier
/// that an allocation gives out is one more than the number of pages
/// recorded, so that page 1 is never given out.
pub proof fn lemma_allocations(page_size: u32, count: nat)
    requires
        page_size >= 64,
        count + 1 <= u64::MAX,
    ensures
        total_pages_in(page_of(file_after_allocations(page_size, count), page_size as nat, 0))
            == count + 1,
        file_after_allocations(page_size, count).len() == if count == 0 {
            page_size as int
        } else {
            (count + 2) * page_size
        },
    decreases count,
{
    if count == 0 {
        lemma_new_file(page_size);
        lemma_initial_page(page_size);
    } else {
        let before = file_after_allocations(page_size, (count - 1) as nat);
        lemma_allocations(page_size, (count - 1) as nat);
        assert(before.len() >= page_size && before.len() <= (count + 1) * page_size)
            by (nonlinear_arith)
            requires
                before.len() == if count - 1 == 0 {
                    page_size as int
                } else {
                    ((count - 1) + 2) * page_size
                },
                count >= 1,
                page_size >= 64,
        ;
        lemma_file_after_allocation(before, page_size as nat, count);
    }
}

} // verus!
