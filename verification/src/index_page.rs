//! Index pages: the nodes of the B+Tree.
//!
//! The body of an index page holds, in this order: the leaf flag (1 byte),
//! the pointer to the next leaf (8 bytes at offset 8), the number of keys
//! (4 bytes at offset 16), the keys, the number of child pointers (4 bytes)
//! and the child pointers (8 bytes each). Every key is aligned as a field of
//! its own length would be, the count of the child pointers to 4 bytes and
//! the first child pointer to 8.

use vstd::prelude::*;
use crate::bytes::{
    be_bytes, be_value, bytes_at, lemma_be_limits, lemma_overwrite, lemma_value_after_write,
    number_at, overwrite, write_bytes, write_u32, write_u64, write_u8,
};
use crate::error::PageError;
use crate::layout::{
    align_up, alignment_of_size, lemma_padding_to, padding_needed_from_size, padding_to,
};
use crate::serialize::MySerialize;

verus! {

/// Distance from the start of one key to the start of the next: the length
/// of a key, moved up to the alignment of the keys.
pub open spec fn key_stride(key_size: nat) -> nat {
    align_up(key_size, alignment_of_size(key_size))
}

/// Offset of the first key: the end of the key count, moved up to the
/// alignment of the keys.
pub open spec fn first_key_offset(key_size: nat) -> nat {
    align_up(20, alignment_of_size(key_size))
}

/// Offset of key `index`.
pub open spec fn key_offset(key_size: nat, index: nat) -> nat {
    first_key_offset(key_size) + index * key_stride(key_size)
}

/// First byte behind the last of `key_count` keys; without keys, the end of
/// the key count.
pub open spec fn keys_end(key_size: nat, key_count: nat) -> nat {
    if key_count == 0 {
        20
    } else {
        key_offset(key_size, (key_count - 1) as nat) + key_size
    }
}

/// Offset of the number of child pointers: the end of the keys, moved up to
/// 4 bytes.
pub open spec fn child_count_offset(key_size: nat, key_count: nat) -> nat {
    align_up(keys_end(key_size, key_count), 4)
}

/// Offset of the first child pointer: the end of their count, moved up to 8
/// bytes.
pub open spec fn first_child_offset(key_size: nat, key_count: nat) -> nat {
    align_up(child_count_offset(key_size, key_count) + 4, 8)
}

/// Offset of child pointer `index`.
pub open spec fn child_offset(key_size: nat, key_count: nat, index: nat) -> nat {
    first_child_offset(key_size, key_count) + 8 * index
}

/// Length of the body of an index page with `key_count` keys of `key_size`
/// bytes and `child_count` child pointers. Nothing is padded behind the last
/// child pointer.
pub open spec fn index_page_size(key_size: nat, key_count: nat, child_count: nat) -> nat {
    child_offset(key_size, key_count, child_count)
}

/// `buffer` with the first `count` of `keys` written, each at its offset.
pub open spec fn with_keys(buffer: Seq<u8>, keys: Seq<Seq<u8>>, key_size: nat, count: nat) -> Seq<
    u8,
>
    decreases count,
{
    if count == 0 {
        buffer
    } else {
        overwrite(
            with_keys(buffer, keys, key_size, (count - 1) as nat),
            key_offset(key_size, (count - 1) as nat) as int,
            keys[count - 1],
        )
    }
}

/// `buffer` with the first `count` of `children` written big-endian, 8 bytes
/// each, from offset `first` on.
pub open spec fn with_children(buffer: Seq<u8>, children: Seq<u64>, first: nat, count: nat) -> Seq<
    u8,
>
    decreases count,
{
    if count == 0 {
        buffer
    } else {
        overwrite(
            with_children(buffer, children, first, (count - 1) as nat),
            first + 8 * (count - 1),
            be_bytes(children[count - 1] as nat, 8),
        )
    }
}

/// The keys follow the padding rule one after the other: the first key lies
/// where the end of the key count is moved up to the alignment of the keys,
/// each later key where the end of its predecessor is, and every key lies at
/// a multiple of that alignment.
pub proof fn lemma_key_offsets(key_size: nat, index: nat)
    ensures
        key_offset(key_size, index) == align_up(
            keys_end(key_size, index),
            alignment_of_size(key_size),
        ),
        key_offset(key_size, index) % alignment_of_size(key_size) == 0,
        keys_end(key_size, index) <= key_offset(key_size, index),
        keys_end(key_size, index + 1) == key_offset(key_size, index) + key_size,
    decreases index,
{
    let alignment: nat = alignment_of_size(key_size);
    let stride: nat = key_stride(key_size);
    lemma_padding_to(20, alignment);
    lemma_padding_to(key_size, alignment);
    if index > 0 {
        let before: nat = key_offset(key_size, (index - 1) as nat);
        lemma_key_offsets(key_size, (index - 1) as nat);
        assert(key_offset(key_size, index) == before + stride) by (nonlinear_arith)
            requires
                key_offset(key_size, index) == first_key_offset(key_size) + index * stride,
                before == first_key_offset(key_size) + (index - 1) * stride,
        ;
        lemma_padding_to(before + key_size, alignment);
        vstd::arithmetic::div_mod::lemma_mod_adds(before as int, key_size as int, alignment as int);
        vstd::arithmetic::div_mod::lemma_mod_adds(before as int, stride as int, alignment as int);
        assert((before + key_size) % alignment == key_size % alignment);
    } else {
        assert(key_offset(key_size, 0) == first_key_offset(key_size)) by (nonlinear_arith)
            requires
                key_offset(key_size, 0) == first_key_offset(key_size) + 0 * stride,
        ;
    }
}

/// The end of the keys never moves down as keys are added.
pub proof fn lemma_keys_end_ordered(key_size: nat, fewer: nat, more: nat)
    requires
        fewer <= more,
    ensures
        keys_end(key_size, fewer) <= keys_end(key_size, more),
    decreases more - fewer,
{
    if fewer < more {
        lemma_keys_end_ordered(key_size, fewer, (more - 1) as nat);
        lemma_key_offsets(key_size, (more - 1) as nat);
    }
}

/// Writing keys changes neither the length of the buffer nor the bytes before
/// the first key or behind the last one, and leaves each key where it was
/// put.
pub proof fn lemma_with_keys(buffer: Seq<u8>, keys: Seq<Seq<u8>>, key_size: nat, count: nat)
    requires
        count <= keys.len(),
        forall|i: int| 0 <= i < count ==> (#[trigger] keys[i]).len() == key_size,
        keys_end(key_size, count) <= buffer.len(),
    ensures
        with_keys(buffer, keys, key_size, count).len() == buffer.len(),
        forall|from: int, to: int|
            0 <= from <= to <= buffer.len() && (to <= 20 || keys_end(key_size, count) <= from)
                ==> #[trigger] with_keys(buffer, keys, key_size, count).subrange(from, to)
                == buffer.subrange(from, to),
        forall|i: int|
            0 <= i < count ==> #[trigger] with_keys(buffer, keys, key_size, count).subrange(
                key_offset(key_size, i as nat) as int,
                (key_offset(key_size, i as nat) + key_size) as int,
            ) == keys[i],
    decreases count,
{
    if count > 0 {
        let before: nat = (count - 1) as nat;
        let at: int = key_offset(key_size, before) as int;
        let inner: Seq<u8> = with_keys(buffer, keys, key_size, before);
        let outer: Seq<u8> = with_keys(buffer, keys, key_size, count);
        lemma_key_offsets(key_size, before);
        lemma_keys_end_ordered(key_size, before, count);
        lemma_with_keys(buffer, keys, key_size, before);
        lemma_overwrite(inner, at, keys[count - 1]);
        assert forall|from: int, to: int|
            0 <= from <= to <= buffer.len() && (to <= 20 || keys_end(key_size, count)
                <= from) implies #[trigger] outer.subrange(from, to) == buffer.subrange(
            from,
            to,
        ) by {
            assert(outer.subrange(from, to) == inner.subrange(from, to));
        }
        assert forall|i: int| 0 <= i < count implies #[trigger] outer.subrange(
            key_offset(key_size, i as nat) as int,
            (key_offset(key_size, i as nat) + key_size) as int,
        ) == keys[i] by {
            if i < before {
                lemma_key_offsets(key_size, i as nat);
                lemma_keys_end_ordered(key_size, (i + 1) as nat, before);
                assert(outer.subrange(
                    key_offset(key_size, i as nat) as int,
                    (key_offset(key_size, i as nat) + key_size) as int,
                ) == inner.subrange(
                    key_offset(key_size, i as nat) as int,
                    (key_offset(key_size, i as nat) + key_size) as int,
                ));
            }
        }
    } else {
        assert forall|from: int, to: int| 0 <= from <= to <= buffer.len() implies #[trigger] buffer.subrange(
            from,
            to,
        ) == buffer.subrange(from, to) by {}
    }
}

/// Writing child pointers changes neither the length of the buffer nor the
/// bytes before the first pointer, and each pointer reads back as it was
/// written.
pub proof fn lemma_with_children(buffer: Seq<u8>, children: Seq<u64>, first: nat, count: nat)
    requires
        count <= children.len(),
        first + 8 * count <= buffer.len(),
    ensures
        with_children(buffer, children, first, count).len() == buffer.len(),
        forall|from: int, to: int|
            0 <= from <= to <= first ==> #[trigger] with_children(
                buffer,
                children,
                first,
                count,
            ).subrange(from, to) == buffer.subrange(from, to),
        forall|i: int|
            0 <= i < count ==> be_value(
                #[trigger] with_children(buffer, children, first, count).subrange(
                    first + 8 * i,
                    first + 8 * i + 8,
                ),
            ) == children[i],
    decreases count,
{
    if count > 0 {
        let before: nat = (count - 1) as nat;
        let at: int = (first + 8 * before) as int;
        let inner: Seq<u8> = with_children(buffer, children, first, before);
        let outer: Seq<u8> = with_children(buffer, children, first, count);
        lemma_be_limits();
        lemma_with_children(buffer, children, first, before);
        lemma_value_after_write(inner, at, children[count - 1] as nat, 8);
        assert forall|from: int, to: int| 0 <= from <= to <= first implies #[trigger] outer.subrange(
            from,
            to,
        ) == buffer.subrange(from, to) by {
            assert(outer.subrange(from, to) == inner.subrange(from, to));
        }
        assert forall|i: int| 0 <= i < count implies be_value(
            #[trigger] outer.subrange(first + 8 * i, first + 8 * i + 8),
        ) == children[i] by {
            if i < before {
                assert(outer.subrange(first + 8 * i, first + 8 * i + 8) == inner.subrange(
                    first + 8 * i,
                    first + 8 * i + 8,
                ));
            }
        }
    }
}

/// A B+Tree node: its keys, and the pages below it or, in a leaf, beside it.
#[derive(Debug)]
pub struct IndexPage {
    /// Whether the node is a leaf.
    pub is_leaf: bool,
    /// Next leaf to the right; read only where `is_leaf` holds.
    pub next_leaf: u64,
    /// The keys, in order. All keys of one page have the same length.
    pub keys: Vec<Vec<u8>>,
    /// Page identifiers of the children.
    pub child_pointers: Vec<u64>,
}

/// What an index page holds, as plain values.
pub struct IndexPageView {
    pub is_leaf: bool,
    pub next_leaf: u64,
    pub keys: Seq<Seq<u8>>,
    pub child_pointers: Seq<u64>,
}

impl View for IndexPage {
    type V = IndexPageView;

    open spec fn view(&self) -> IndexPageView {
        IndexPageView {
            is_leaf: self.is_leaf,
            next_leaf: self.next_leaf,
            keys: Seq::new(self.keys@.len(), |i: int| self.keys@[i]@),
            child_pointers: self.child_pointers@,
        }
    }
}

impl IndexPageView {
    /// Length of the first key; 0 where there is no key.
    pub open spec fn key_size(self) -> nat {
        if self.keys.len() == 0 {
            0
        } else {
            self.keys[0].len()
        }
    }

    /// All keys have the length of the first.
    pub open spec fn uniform_keys(self) -> bool {
        forall|i: int| 0 <= i < self.keys.len() ==> (#[trigger] self.keys[i]).len() == self.key_size()
    }

    /// Length of the serialised body; the length of the keys is taken from
    /// the first key.
    pub open spec fn encoded_size(self) -> nat {
        index_page_size(self.key_size(), self.keys.len(), self.child_pointers.len())
    }

    /// The error with which a buffer of `buffer_len` bytes is refused, if it
    /// is refused: a buffer shorter than the body first, then keys of
    /// different lengths, then a count that its 4-byte field cannot hold.
    pub open spec fn refusal(self, buffer_len: nat) -> Option<PageError> {
        if buffer_len < self.encoded_size() {
            Some(PageError::BufferTooSmall)
        } else if !self.uniform_keys() {
            Some(PageError::KeySizeMismatch)
        } else if self.keys.len() > u32::MAX || self.child_pointers.len() > u32::MAX {
            Some(PageError::CountOverflow)
        } else {
            None
        }
    }

    /// What a buffer that held `buffer` holds once the page is written: the
    /// leaf flag, the next leaf and the number of keys at their offsets, each
    /// key at its own, then the number of child pointers and the child
    /// pointers; every padding byte keeps what the buffer held.
    pub open spec fn image(self, buffer: Seq<u8>) -> Seq<u8> {
        let key_size = self.key_size();
        let key_count = self.keys.len();
        let child_count = self.child_pointers.len();
        let flag: nat = if self.is_leaf {
            1
        } else {
            0
        };
        let with_flag = overwrite(buffer, 0, be_bytes(flag, 1));
        let with_next_leaf = overwrite(with_flag, 8, be_bytes(self.next_leaf as nat, 8));
        let with_key_count = overwrite(with_next_leaf, 16, be_bytes(key_count, 4));
        let with_all_keys = with_keys(with_key_count, self.keys, key_size, key_count);
        let with_child_count = overwrite(
            with_all_keys,
            child_count_offset(key_size, key_count) as int,
            be_bytes(child_count, 4),
        );
        with_children(
            with_child_count,
            self.child_pointers,
            first_child_offset(key_size, key_count),
            child_count,
        )
    }
}

impl IndexPage {
    /// Offset of the leaf flag in the body.
    pub const IS_LEAF_OFFSET: usize = 0;

    /// Width of the leaf flag in bytes.
    pub const IS_LEAF_SIZE: usize = 1;

    /// Offset of the pointer to the next leaf.
    pub const NEXT_LEAF_OFFSET: usize = 8;

    /// Width of the pointer to the next leaf in bytes.
    pub const NEXT_LEAF_SIZE: usize = 8;

    /// Offset of the number of keys.
    pub const KEYS_LEN_OFFSET: usize = 16;

    /// Width of the number of keys in bytes.
    pub const KEYS_LEN_SIZE: usize = 4;

    /// End of the number of keys: where the first key lies, but for its padding.
    pub const KEYS_FIRST_VALUE_OFFSET_WITHOUT_PADDING: usize = 20;

    /// Width of the number of child pointers in bytes.
    pub const CHILD_POINTERS_LEN_SIZE: usize = 4;

    /// Width of one child pointer in bytes.
    pub const CHILD_POINTERS_VALUE_SIZE: usize = 8;

    /// Length of the first key, `None` where there is no key.
    pub fn key_value_size(&self) -> (size: Option<usize>)
        ensures
            size == if self@.keys.len() == 0 {
                None
            } else {
                Some(self@.key_size() as usize)
            },
            self@.key_size() <= usize::MAX,
    {
        if self.keys.len() == 0 {
            None
        } else {
            Some(self.keys[0].len())
        }
    }

    /// An index page without keys and children.
    pub fn new(is_leaf: bool) -> (page: IndexPage)
        ensures
            page@ == (IndexPageView {
                is_leaf,
                next_leaf: 0,
                keys: Seq::empty(),
                child_pointers: Seq::empty(),
            }),
    {
        let page = IndexPage { is_leaf, next_leaf: 0, keys: Vec::new(), child_pointers: Vec::new() };
        assert(page@.keys =~= Seq::<Seq<u8>>::empty());
        page
    }

    /// Length of the serialised body, with every padding that `serialize`
    /// inserts and none behind the last child pointer. The length of the keys
    /// is taken from the first key.
    pub fn calc_size(&self) -> (size: usize)
        requires
            self.encoded_size() <= usize::MAX,
        ensures
            size == self.encoded_size(),
    {
        match self.checked_calc_size() {
            Some(size) => size,
            None => vstd::pervasive::unreached(),
        }
    }

    /// `calc_size` for every page: `None` where the length is not a `usize`.
    pub fn checked_calc_size(&self) -> (size: Option<usize>)
        ensures
            match size {
                Some(size) => size == self.encoded_size(),
                None => self.encoded_size() > usize::MAX,
            },
    {
        let key_count: usize = self.keys.len();
        let child_count: usize = self.child_pointers.len();
        let ghost key_size: nat = self@.key_size();
        let ghost end: nat = keys_end(key_size, key_count as nat);
        let end_of_keys: usize = match self.key_value_size() {
            None => IndexPage::KEYS_FIRST_VALUE_OFFSET_WITHOUT_PADDING,
            Some(size_of_key) => {
                let padding_to_first_key: usize = padding_needed_from_size(
                    IndexPage::KEYS_FIRST_VALUE_OFFSET_WITHOUT_PADDING,
                    size_of_key,
                );
                let padding_between_keys: usize = padding_needed_from_size(size_of_key, size_of_key);
                proof {
                    let between: nat = padding_to(key_size, alignment_of_size(key_size));
                    let first: nat = padding_to(20, alignment_of_size(key_size));
                    assert(end == 20 + first + key_size * key_count + between * (key_count - 1)
                        && key_size * key_count >= 0 && between * (key_count - 1) >= 0)
                        by (nonlinear_arith)
                        requires
                            key_count >= 1,
                            end == 20 + first + (key_count - 1) * (key_size + between) + key_size,
                    ;
                }
                let total_size_of_keys: usize = size_of_key.checked_mul(key_count)?;
                let total_padding_between_keys: usize = padding_between_keys.checked_mul(
                    key_count - 1,
                )?;
                let first_key: usize = IndexPage::KEYS_FIRST_VALUE_OFFSET_WITHOUT_PADDING + padding_to_first_key;
                first_key.checked_add(total_size_of_keys)?.checked_add(total_padding_between_keys)?
            },
        };
        assert(end_of_keys == end);
        let offset_of_child_count: usize = end_of_keys.checked_add(
            padding_needed_from_size(end_of_keys, IndexPage::CHILD_POINTERS_LEN_SIZE),
        )?;
        let offset_after_child_count: usize = offset_of_child_count.checked_add(
            IndexPage::CHILD_POINTERS_LEN_SIZE,
        )?;
        let offset_of_first_child: usize = offset_after_child_count.checked_add(
            padding_needed_from_size(offset_after_child_count, IndexPage::CHILD_POINTERS_VALUE_SIZE),
        )?;
        let size_of_child_pointers: usize = IndexPage::CHILD_POINTERS_VALUE_SIZE.checked_mul(child_count)?;
        offset_of_first_child.checked_add(size_of_child_pointers)
    }
}

impl MySerialize for IndexPage {
    open spec fn encoded_size(&self) -> nat {
        self@.encoded_size()
    }

    open spec fn refusal(&self, buffer_len: nat) -> Option<PageError> {
        self@.refusal(buffer_len)
    }

    open spec fn image(&self, buffer: Seq<u8>) -> Seq<u8> {
        self@.image(buffer)
    }

    fn serialize(&self, buffer: &mut [u8]) -> (written: Result<usize, PageError>) {
        let len: usize = buffer.len();
        let size: usize = match self.checked_calc_size() {
            Some(size) => size,
            None => {
                return Err(PageError::BufferTooSmall);
            },
        };
        if len < size {
            return Err(PageError::BufferTooSmall);
        }
        let key_count: usize = self.keys.len();
        let child_count: usize = self.child_pointers.len();
        let key_size: usize = match self.key_value_size() {
            Some(key_size) => key_size,
            None => 0,
        };
        let mut checked: usize = 0;
        while checked < key_count
            invariant
                checked <= key_count,
                key_count == self.keys@.len(),
                key_size == self@.key_size(),
                buffer@ == old(buffer)@,
                size == self.encoded_size(),
                size <= buffer@.len(),
                forall|i: int|
                    0 <= i < checked ==> (#[trigger] self@.keys[i]).len() == self@.key_size(),
            decreases key_count - checked,
        {
            if self.keys[checked].len() != key_size {
                assert(self@.keys[checked as int].len() != self@.key_size());
                return Err(PageError::KeySizeMismatch);
            }
            checked += 1;
        }
        if key_count > u32::MAX as usize || child_count > u32::MAX as usize {
            return Err(PageError::CountOverflow);
        }
        let ghost keys: Seq<Seq<u8>> = self@.keys;
        let ghost children: Seq<u64> = self.child_pointers@;
        proof {
            lemma_keys_end_ordered(key_size as nat, 0, key_count as nat);
        }

        write_u8(
            buffer,
            IndexPage::IS_LEAF_OFFSET,
            if self.is_leaf {
                1
            } else {
                0
            },
        );
        write_u64(buffer, IndexPage::NEXT_LEAF_OFFSET, self.next_leaf);
        write_u32(buffer, IndexPage::KEYS_LEN_OFFSET, key_count as u32);
        let ghost with_key_count: Seq<u8> = buffer@;

        let mut current_key_offset: usize = IndexPage::KEYS_FIRST_VALUE_OFFSET_WITHOUT_PADDING;
        let mut written_keys: usize = 0;
        while written_keys < key_count
            invariant
                written_keys <= key_count,
                key_count == self.keys@.len(),
                key_size == self@.key_size(),
                self@.uniform_keys(),
                keys == self@.keys,
                buffer@.len() == old(buffer)@.len(),
                size <= buffer@.len(),
                size == self.encoded_size(),
                current_key_offset == keys_end(key_size as nat, written_keys as nat),
                buffer@ == with_keys(with_key_count, keys, key_size as nat, written_keys as nat),
            decreases key_count - written_keys,
        {
            proof {
                lemma_key_offsets(key_size as nat, written_keys as nat);
                lemma_keys_end_ordered(key_size as nat, (written_keys + 1) as nat, key_count as nat);
                assert(self.keys@[written_keys as int]@ == keys[written_keys as int]);
            }
            current_key_offset += padding_needed_from_size(current_key_offset, key_size);
            write_bytes(buffer, current_key_offset, self.keys[written_keys].as_slice());
            current_key_offset += key_size;
            written_keys += 1;
        }

        current_key_offset += padding_needed_from_size(
            current_key_offset,
            IndexPage::CHILD_POINTERS_LEN_SIZE,
        );
        write_u32(buffer, current_key_offset, child_count as u32);
        let ghost with_child_count: Seq<u8> = buffer@;
        let mut current_child_pointer_offset: usize = current_key_offset + IndexPage::CHILD_POINTERS_LEN_SIZE;
        current_child_pointer_offset += padding_needed_from_size(
            current_child_pointer_offset,
            IndexPage::CHILD_POINTERS_VALUE_SIZE,
        );
        let ghost first_child: nat = current_child_pointer_offset as nat;
        let mut written_children: usize = 0;
        while written_children < child_count
            invariant
                written_children <= child_count,
                child_count == self.child_pointers@.len(),
                children == self.child_pointers@,
                buffer@.len() == old(buffer)@.len(),
                size <= buffer@.len(),
                size == first_child + 8 * child_count,
                current_child_pointer_offset == first_child + 8 * written_children,
                buffer@ == with_children(
                    with_child_count,
                    children,
                    first_child,
                    written_children as nat,
                ),
            decreases child_count - written_children,
        {
            write_u64(buffer, current_child_pointer_offset, self.child_pointers[written_children]);
            current_child_pointer_offset += IndexPage::CHILD_POINTERS_VALUE_SIZE;
            written_children += 1;
        }
        Ok(size)
    }
}

/// Layout of a serialised index page. A page whose keys all have one length
/// and whose counts fit their 4-byte fields is accepted by every buffer of at
/// least `calc_size()` bytes, and what `serialize` leaves there reads back
/// field by field: the leaf flag at 0, the next leaf at 8, the number of keys
/// at 16, key `i` at `key_offset(key_size, i)`, the number of child pointers
/// at `child_count_offset(..)` and child pointer `j` at `child_offset(.., j)`.
/// `lemma_key_offsets` says where those offsets lie.
pub proof fn lemma_index_page_layout(page: IndexPageView, buffer: Seq<u8>)
    requires
        page.uniform_keys(),
        page.keys.len() <= u32::MAX,
        page.child_pointers.len() <= u32::MAX,
        buffer.len() >= page.encoded_size(),
    ensures
        page.refusal(buffer.len()) is None,
        page.image(buffer).len() == buffer.len(),
        number_at(page.image(buffer), 0, 1) == if page.is_leaf {
            1nat
        } else {
            0nat
        },
        number_at(page.image(buffer), 8, 8) == page.next_leaf,
        number_at(page.image(buffer), 16, 4) == page.keys.len(),
        forall|i: int|
            0 <= i < page.keys.len() ==> #[trigger] bytes_at(
                page.image(buffer),
                key_offset(page.key_size(), i as nat),
                page.key_size(),
            ) == page.keys[i],
        number_at(
            page.image(buffer),
            child_count_offset(page.key_size(), page.keys.len()),
            4,
        ) == page.child_pointers.len(),
        forall|j: int|
            0 <= j < page.child_pointers.len() ==> #[trigger] number_at(
                page.image(buffer),
                child_offset(page.key_size(), page.keys.len(), j as nat),
                8,
            ) == page.child_pointers[j],
{
    let key_size = page.key_size();
    let key_count = page.keys.len();
    let child_count = page.child_pointers.len();
    let keys = page.keys;
    let children = page.child_pointers;
    let flag: nat = if page.is_leaf {
        1
    } else {
        0
    };
    let count_at: nat = child_count_offset(key_size, key_count);
    let first_child: nat = first_child_offset(key_size, key_count);
    let with_flag = overwrite(buffer, 0, be_bytes(flag, 1));
    let with_next_leaf = overwrite(with_flag, 8, be_bytes(page.next_leaf as nat, 8));
    let with_key_count = overwrite(with_next_leaf, 16, be_bytes(key_count, 4));
    let with_all_keys = with_keys(with_key_count, keys, key_size, key_count);
    let with_child_count = overwrite(with_all_keys, count_at as int, be_bytes(child_count, 4));
    let image = with_children(with_child_count, children, first_child, child_count);
    assert(image == page.image(buffer));

    lemma_be_limits();
    lemma_keys_end_ordered(key_size, 0, key_count);
    lemma_value_after_write(buffer, 0, flag, 1);
    lemma_value_after_write(with_flag, 8, page.next_leaf as nat, 8);
    lemma_value_after_write(with_next_leaf, 16, key_count, 4);
    lemma_with_keys(with_key_count, keys, key_size, key_count);
    lemma_value_after_write(with_all_keys, count_at as int, child_count, 4);
    lemma_with_children(with_child_count, children, first_child, child_count);

    assert(image.subrange(0, 1) == with_flag.subrange(0, 1)) by {
        assert(with_next_leaf.subrange(0, 1) == with_flag.subrange(0, 1));
        assert(with_key_count.subrange(0, 1) == with_next_leaf.subrange(0, 1));
        assert(with_all_keys.subrange(0, 1) == with_key_count.subrange(0, 1));
        assert(with_child_count.subrange(0, 1) == with_all_keys.subrange(0, 1));
        assert(image.subrange(0, 1) == with_child_count.subrange(0, 1));
    }
    assert(image.subrange(8, 16) == with_next_leaf.subrange(8, 16)) by {
        assert(with_key_count.subrange(8, 16) == with_next_leaf.subrange(8, 16));
        assert(with_all_keys.subrange(8, 16) == with_key_count.subrange(8, 16));
        assert(with_child_count.subrange(8, 16) == with_all_keys.subrange(8, 16));
        assert(image.subrange(8, 16) == with_child_count.subrange(8, 16));
    }
    assert(image.subrange(16, 20) == with_key_count.subrange(16, 20)) by {
        assert(with_all_keys.subrange(16, 20) == with_key_count.subrange(16, 20));
        assert(with_child_count.subrange(16, 20) == with_all_keys.subrange(16, 20));
        assert(image.subrange(16, 20) == with_child_count.subrange(16, 20));
    }
    assert(image.subrange(count_at as int, (count_at + 4) as int) == with_child_count.subrange(
        count_at as int,
        (count_at + 4) as int,
    ));
    assert forall|j: int| 0 <= j < child_count implies #[trigger] number_at(
        image,
        child_offset(key_size, key_count, j as nat),
        8,
    ) == children[j] by {
        assert(bytes_at(image, child_offset(key_size, key_count, j as nat), 8) == image.subrange(
            first_child + 8 * j,
            first_child + 8 * j + 8,
        ));
    }
    assert forall|i: int| 0 <= i < key_count implies #[trigger] bytes_at(
        image,
        key_offset(key_size, i as nat),
        key_size,
    ) == page.keys[i] by {
        let from: int = key_offset(key_size, i as nat) as int;
        let to: int = (key_offset(key_size, i as nat) + key_size) as int;
        lemma_key_offsets(key_size, i as nat);
        lemma_keys_end_ordered(key_size, (i + 1) as nat, key_count);
        assert(with_all_keys.subrange(from, to) == keys[i]);
        assert(with_child_count.subrange(from, to) == with_all_keys.subrange(from, to));
        assert(image.subrange(from, to) == with_child_count.subrange(from, to));
    }
}

} // verus!
