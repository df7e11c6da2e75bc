//! Big-endian integers inside byte buffers.
//!
//! Every multi-byte integer of the page format is stored most significant
//! byte first, so that the raw bytes of two values compare as the values do.

use vstd::prelude::*;

verus! {

/// `256` to the power `width`: the first number that `width` bytes cannot hold.
pub open spec fn be_limit(width: nat) -> nat
    decreases width,
{
    if width == 0 {
        1
    } else {
        256 * be_limit((width - 1) as nat)
    }
}

/// The `width` low-order base-256 digits of `value`, most significant first.
pub open spec fn be_bytes(value: nat, width: nat) -> Seq<u8>
    decreases width,
{
    if width == 0 {
        Seq::empty()
    } else {
        be_bytes(value / 256, (width - 1) as nat).push((value % 256) as u8)
    }
}

/// The number that `bytes` spells when read most significant byte first.
pub open spec fn be_value(bytes: Seq<u8>) -> nat
    decreases bytes.len(),
{
    if bytes.len() == 0 {
        0
    } else {
        be_value(bytes.drop_last()) * 256 + bytes.last() as nat
    }
}

/// `buffer` with the bytes from index `at` on replaced by `bytes`; the length
/// of `buffer` does not change, and what would fall behind its end is dropped.
pub open spec fn overwrite(buffer: Seq<u8>, at: int, bytes: Seq<u8>) -> Seq<u8> {
    Seq::new(
        buffer.len(),
        |i: int|
            if at <= i < at + bytes.len() {
                bytes[i - at]
            } else {
                buffer[i]
            },
    )
}

/// The `width` bytes of `buffer` from index `at` on.
pub open spec fn bytes_at(buffer: Seq<u8>, at: nat, width: nat) -> Seq<u8> {
    buffer.subrange(at as int, (at + width) as int)
}

/// The big-endian number in the `width` bytes of `buffer` from index `at` on.
pub open spec fn number_at(buffer: Seq<u8>, at: nat, width: nat) -> nat {
    be_value(bytes_at(buffer, at, width))
}

/// The limits of the widths that the format uses.
pub proof fn lemma_be_limits()
    ensures
        be_limit(0) == 1,
        be_limit(1) == 0x100,
        be_limit(2) == 0x1_0000,
        be_limit(3) == 0x100_0000,
        be_limit(4) == 0x1_0000_0000,
        be_limit(5) == 0x100_0000_0000,
        be_limit(6) == 0x1_0000_0000_0000,
        be_limit(7) == 0x100_0000_0000_0000,
        be_limit(8) == 0x1_0000_0000_0000_0000,
{
    reveal_with_fuel(be_limit, 10);
}

/// The limit of a width is never 0.
pub proof fn lemma_be_limit_positive(width: nat)
    ensures
        be_limit(width) > 0,
    decreases width,
{
    if width > 0 {
        lemma_be_limit_positive((width - 1) as nat);
    }
}

/// An encoding is as long as its width.
pub proof fn lemma_be_bytes_len(value: nat, width: nat)
    ensures
        be_bytes(value, width).len() == width,
    decreases width,
{
    if width > 0 {
        lemma_be_bytes_len(value / 256, (width - 1) as nat);
    }
}

/// Digit `index` of the encoding is `value` shifted down by the digits behind
/// it, modulo 256.
pub proof fn lemma_be_bytes_index(value: nat, width: nat, index: int)
    requires
        0 <= index < width,
    ensures
        be_bytes(value, width).len() == width,
        be_bytes(value, width)[index] as nat == (value / be_limit((width - 1 - index) as nat))
            % 256,
    decreases width,
{
    lemma_be_bytes_len(value, width);
    lemma_be_bytes_len(value / 256, (width - 1) as nat);
    let digits: Seq<u8> = be_bytes(value, width);
    let head: Seq<u8> = be_bytes(value / 256, (width - 1) as nat);
    assert(digits == head.push((value % 256) as u8));
    if index == width - 1 {
        assert(be_limit(0) == 1);
        assert(digits[index] == (value % 256) as u8);
        assert(value / 1 == value);
    } else {
        assert(digits[index] == head[index]);
        let rest: nat = (width - 2 - index) as nat;
        lemma_be_bytes_index(value / 256, (width - 1) as nat, index);
        lemma_be_limit_positive(rest);
        vstd::arithmetic::div_mod::lemma_div_denominator(
            value as int,
            256,
            be_limit(rest) as int,
        );
        assert(be_limit((width - 1 - index) as nat) == 256 * be_limit(rest));
    }
}

/// A byte string spells a number below the limit of its length.
pub proof fn lemma_be_value_bound(bytes: Seq<u8>)
    ensures
        be_value(bytes) < be_limit(bytes.len()),
    decreases bytes.len(),
{
    if bytes.len() > 0 {
        lemma_be_value_bound(bytes.drop_last());
    }
}

/// Decoding what was encoded gives the value back, when the width can hold it.
pub proof fn lemma_be_value_of_bytes(value: nat, width: nat)
    requires
        value < be_limit(width),
    ensures
        be_bytes(value, width).len() == width,
        be_value(be_bytes(value, width)) == value,
    decreases width,
{
    lemma_be_bytes_len(value, width);
    if width > 0 {
        let head: Seq<u8> = be_bytes(value / 256, (width - 1) as nat);
        lemma_be_value_of_bytes(value / 256, (width - 1) as nat);
        assert(head.push((value % 256) as u8).drop_last() =~= head);
    }
}

/// Encoding what was decoded gives the bytes back.
pub proof fn lemma_be_bytes_of_value(bytes: Seq<u8>)
    ensures
        be_bytes(be_value(bytes), bytes.len()) == bytes,
    decreases bytes.len(),
{
    if bytes.len() > 0 {
        lemma_be_bytes_of_value(bytes.drop_last());
        assert(bytes.drop_last().push(bytes.last()) =~= bytes);
    } else {
        assert(bytes =~= Seq::<u8>::empty());
    }
}

/// What an overwritten buffer holds: the new bytes where they were put, the
/// old ones elsewhere.
pub proof fn lemma_overwrite(buffer: Seq<u8>, at: int, bytes: Seq<u8>)
    requires
        0 <= at,
        at + bytes.len() <= buffer.len(),
    ensures
        overwrite(buffer, at, bytes).len() == buffer.len(),
        overwrite(buffer, at, bytes).subrange(at, at + bytes.len()) == bytes,
        forall|from: int, to: int|
            0 <= from <= to <= buffer.len() && (to <= at || at + bytes.len() <= from)
                ==> #[trigger] overwrite(buffer, at, bytes).subrange(from, to)
                == buffer.subrange(from, to),
{
    let after: Seq<u8> = overwrite(buffer, at, bytes);
    assert(after.subrange(at, at + bytes.len()) =~= bytes);
    assert forall|from: int, to: int|
        0 <= from <= to <= buffer.len() && (to <= at || at + bytes.len() <= from)
        implies #[trigger] after.subrange(from, to) == buffer.subrange(from, to) by {
        assert(after.subrange(from, to) =~= buffer.subrange(from, to));
    }
}

/// A number written into a buffer reads back as itself when the width can
/// hold it, and the bytes around it stay as they were.
pub proof fn lemma_value_after_write(buffer: Seq<u8>, at: int, value: nat, width: nat)
    requires
        0 <= at,
        at + width <= buffer.len(),
        value < be_limit(width),
    ensures
        overwrite(buffer, at, be_bytes(value, width)).len() == buffer.len(),
        be_value(overwrite(buffer, at, be_bytes(value, width)).subrange(at, at + width)) == value,
        forall|from: int, to: int|
            0 <= from <= to <= buffer.len() && (to <= at || at + width <= from)
                ==> #[trigger] overwrite(buffer, at, be_bytes(value, width)).subrange(from, to)
                == buffer.subrange(from, to),
{
    lemma_be_value_of_bytes(value, width);
    lemma_overwrite(buffer, at, be_bytes(value, width));
}

/// Stores the `width` low-order bytes of `value` at `buffer[at..at + width]`,
/// most significant first.
pub fn write_be(buffer: &mut [u8], at: usize, value: u64, width: usize)
    requires
        width <= 8,
        at + width <= old(buffer)@.len(),
    ensures
        final(buffer)@ == overwrite(old(buffer)@, at as int, be_bytes(value as nat, width as nat)),
{
    let ghost digits: Seq<u8> = be_bytes(value as nat, width as nat);
    let len: usize = buffer.len();
    let mut rest: u64 = value;
    let mut i: usize = width;
    proof {
        lemma_be_bytes_len(value as nat, width as nat);
        assert(be_limit(0) == 1);
        assert(value as nat / 1 == value as nat);
    }
    while i > 0
        invariant
            i <= width <= 8,
            at + width <= len,
            len == buffer@.len(),
            buffer@.len() == old(buffer)@.len(),
            digits == be_bytes(value as nat, width as nat),
            digits.len() == width,
            rest as nat == value as nat / be_limit((width - i) as nat),
            forall|j: int|
                0 <= j < buffer@.len() ==> buffer@[j] == if at + i <= j < at + width {
                    digits[j - at]
                } else {
                    old(buffer)@[j]
                },
        decreases i,
    {
        i -= 1;
        proof {
            let behind: nat = (width - 1 - i) as nat;
            lemma_be_bytes_index(value as nat, width as nat, i as int);
            lemma_be_limit_positive(behind);
            vstd::arithmetic::div_mod::lemma_div_denominator(
                value as int,
                be_limit(behind) as int,
                256,
            );
            assert(be_limit((width - i) as nat) == 256 * be_limit(behind));
            assert(be_limit(behind) * 256 == 256 * be_limit(behind)) by (nonlinear_arith);
        }
        buffer[at + i] = (rest % 256) as u8;
        rest = rest / 256;
    }
    assert(buffer@ =~= overwrite(old(buffer)@, at as int, digits));
}

/// Reads the `width` bytes at `buffer[at..at + width]` as one number, most
/// significant byte first.
pub fn read_be(buffer: &[u8], at: usize, width: usize) -> (value: u64)
    requires
        width <= 8,
        at + width <= buffer@.len(),
    ensures
        value as nat == be_value(buffer@.subrange(at as int, at + width)),
{
    let len: usize = buffer.len();
    let mut value: u64 = 0;
    let mut i: usize = 0;
    while i < width
        invariant
            i <= width <= 8,
            at + width <= len,
            len == buffer@.len(),
            value as nat == be_value(buffer@.subrange(at as int, at + i)),
        decreases width - i,
    {
        proof {
            let seen: Seq<u8> = buffer@.subrange(at as int, at + i);
            let next: Seq<u8> = buffer@.subrange(at as int, at + i + 1);
            lemma_be_value_bound(seen);
            lemma_be_limits();
            assert(next.drop_last() =~= seen);
            assert(next.last() == buffer@[at + i]);
        }
        value = value * 256 + buffer[at + i] as u64;
        i += 1;
    }
    value
}

/// Copies `bytes` to `buffer[at..at + bytes.len()]`.
pub fn write_bytes(buffer: &mut [u8], at: usize, bytes: &[u8])
    requires
        at + bytes@.len() <= old(buffer)@.len(),
    ensures
        final(buffer)@ == overwrite(old(buffer)@, at as int, bytes@),
{
    let len: usize = buffer.len();
    let count: usize = bytes.len();
    let mut i: usize = 0;
    while i < count
        invariant
            i <= count,
            count == bytes@.len(),
            at + count <= len,
            len == buffer@.len(),
            buffer@.len() == old(buffer)@.len(),
            forall|j: int|
                0 <= j < buffer@.len() ==> buffer@[j] == if at <= j < at + i {
                    bytes@[j - at]
                } else {
                    old(buffer)@[j]
                },
        decreases count - i,
    {
        buffer[at + i] = bytes[i];
        i += 1;
    }
    assert(buffer@ =~= overwrite(old(buffer)@, at as int, bytes@));
}

/// Stores `value` at `buffer[at..at + 8]`, big-endian.
pub fn write_u64(buffer: &mut [u8], at: usize, value: u64)
    requires
        at + 8 <= old(buffer)@.len(),
    ensures
        final(buffer)@ == overwrite(old(buffer)@, at as int, be_bytes(value as nat, 8)),
{
    write_be(buffer, at, value, 8);
}

/// Stores `value` at `buffer[at..at + 4]`, big-endian.
pub fn write_u32(buffer: &mut [u8], at: usize, value: u32)
    requires
        at + 4 <= old(buffer)@.len(),
    ensures
        final(buffer)@ == overwrite(old(buffer)@, at as int, be_bytes(value as nat, 4)),
{
    write_be(buffer, at, value as u64, 4);
}

/// Stores `value` at `buffer[at]`.
pub fn write_u8(buffer: &mut [u8], at: usize, value: u8)
    requires
        at < old(buffer)@.len(),
    ensures
        final(buffer)@ == overwrite(old(buffer)@, at as int, be_bytes(value as nat, 1)),
{
    write_be(buffer, at, value as u64, 1);
}

/// Reads the big-endian number at `buffer[at..at + 8]`.
pub fn read_u64(buffer: &[u8], at: usize) -> (value: u64)
    requires
        at + 8 <= buffer@.len(),
    ensures
        value as nat == be_value(buffer@.subrange(at as int, at + 8)),
{
    read_be(buffer, at, 8)
}

/// Reads the big-endian number at `buffer[at..at + 4]`.
pub fn read_u32(buffer: &[u8], at: usize) -> (value: u32)
    requires
        at + 4 <= buffer@.len(),
    ensures
        value as nat == be_value(buffer@.subrange(at as int, at + 4)),
{
    proof {
        lemma_be_value_bound(buffer@.subrange(at as int, at + 4));
        lemma_be_limits();
    }
    read_be(buffer, at, 4) as u32
}

/// Reads the byte at `buffer[at]`.
pub fn read_u8(buffer: &[u8], at: usize) -> (value: u8)
    requires
        at < buffer@.len(),
    ensures
        value as nat == be_value(buffer@.subrange(at as int, at + 1)),
{
    proof {
        lemma_be_value_bound(buffer@.subrange(at as int, at + 1));
        lemma_be_limits();
    }
    read_be(buffer, at, 1) as u8
}

} // verus!
