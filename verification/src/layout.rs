//! The layout engine: where the fixed-width fields of a record lie.
//!
//! A record is a list of fields in declaration order. A fixed-width field
//! (a primitive or an enumeration) gets a byte width, an offset that honours
//! its alignment, and the span between the two. Fields of variable length
//! may only follow the fixed ones, and are laid out by the page codecs.

use vstd::prelude::*;

verus! {

/// Alignment, in bytes, of a field that is `size` bytes wide: a field of 1, 2,
/// 4 or 8 bytes is aligned to its own size, widths in between round up, and
/// nothing is aligned more strictly than 16 bytes.
pub open spec fn alignment_of_size(size: nat) -> nat {
    if size <= 1 {
        1
    } else if size == 2 {
        2
    } else if size <= 4 {
        4
    } else if size <= 8 {
        8
    } else {
        16
    }
}

/// Number of bytes to skip at `offset` so that the next byte is a multiple of
/// `alignment`.
pub open spec fn padding_to(offset: nat, alignment: nat) -> nat
    recommends
        alignment > 0,
{
    ((alignment - offset % alignment) % (alignment as int)) as nat
}

/// `offset` moved up to the next multiple of `alignment`.
pub open spec fn align_up(offset: nat, alignment: nat) -> nat
    recommends
        alignment > 0,
{
    offset + padding_to(offset, alignment)
}

/// `padding_to` without the outer remainder: nothing when `offset` is aligned,
/// else what is missing to the next multiple; the result is below `alignment`
/// and leads to a multiple of it.
pub proof fn lemma_padding_to(offset: nat, alignment: nat)
    requires
        alignment > 0,
    ensures
        padding_to(offset, alignment) == if offset % alignment == 0 {
            0
        } else {
            alignment - offset % alignment
        },
        padding_to(offset, alignment) < alignment,
        align_up(offset, alignment) % alignment == 0,
        offset % alignment == 0 ==> align_up(offset, alignment) == offset,
{
    let a: int = alignment as int;
    let r: int = (offset % alignment) as int;
    vstd::arithmetic::div_mod::lemma_mod_bound(offset as int, a);
    if r == 0 {
        vstd::arithmetic::div_mod::lemma_mod_self_0(a);
    } else {
        vstd::arithmetic::div_mod::lemma_small_mod((a - r) as nat, alignment);
        vstd::arithmetic::div_mod::lemma_fundamental_div_mod(offset as int, a);
        let q: int = offset as int / a;
        assert(offset + (a - r) == a * (q + 1)) by (nonlinear_arith)
            requires
                offset == a * q + r,
        ;
        vstd::arithmetic::div_mod::lemma_mod_multiples_basic(q + 1, a);
        assert(a * (q + 1) == (q + 1) * a) by (nonlinear_arith);
    }
}

/// Padding that turns a remainder modulo `alignment` into a full step.
pub fn gen_padding(alignment: usize, remainder: usize) -> (padding: usize)
    requires
        remainder <= alignment,
    ensures
        padding == if remainder == 0 { 0 } else { alignment - remainder },
{
    if remainder == 0 {
        0
    } else {
        alignment - remainder
    }
}

/// Alignment of a field that is `size` bytes wide.
pub fn alignment_for_size(size: usize) -> (alignment: usize)
    ensures
        alignment == alignment_of_size(size as nat),
{
    if size <= 1 {
        1
    } else if size == 2 {
        2
    } else if size <= 4 {
        4
    } else if size <= 8 {
        8
    } else {
        16
    }
}

/// Padding needed at `offset` before a field that is `next_size` bytes wide.
pub fn padding_needed_from_size(offset: usize, next_size: usize) -> (padding: usize)
    ensures
        padding == padding_to(offset as nat, alignment_of_size(next_size as nat)),
        padding < alignment_of_size(next_size as nat),
        (offset + padding) % (alignment_of_size(next_size as nat) as int) == 0,
{
    let alignment: usize = alignment_for_size(next_size);
    let remainder: usize = offset % alignment;
    proof {
        lemma_padding_to(offset as nat, alignment as nat);
    }
    gen_padding(alignment, remainder)
}

/// Padding needed at `offset` before a value of type `T`, by the alignment
/// that the platform gives `T`.
pub fn padding_needed_from_type<T>(offset: usize) -> (padding: usize)
    ensures
        padding == padding_to(offset as nat, vstd::layout::align_of::<T>()),
{
    vstd::layout::layout_for_type_is_valid::<T>();
    let alignment: usize = core::mem::align_of::<T>();
    let remainder: usize = offset % alignment;
    proof {
        lemma_padding_to(offset as nat, alignment as nat);
    }
    gen_padding(alignment, remainder)
}

/// A primitive type that a record field may have.
#[derive(Clone, Copy, Debug, PartialEq, Eq, Structural)]
pub enum Primitive {
    U8,
    U16,
    U32,
    U64,
    U128,
    Usize,
    I8,
    I16,
    I32,
    I64,
    I128,
    Isize,
    Float32,
    Float64,
    Bool,
    Char,
}

impl Primitive {
    /// Width of the primitive in bytes.
    pub open spec fn width(self) -> nat {
        match self {
            Primitive::U8 | Primitive::I8 | Primitive::Bool => 1,
            Primitive::U16 | Primitive::I16 => 2,
            Primitive::U32 | Primitive::I32 | Primitive::Float32 | Primitive::Char => 4,
            Primitive::U64 | Primitive::I64 | Primitive::Float64 => 8,
            Primitive::U128 | Primitive::I128 => 16,
            Primitive::Usize | Primitive::Isize => vstd::layout::size_of::<usize>(),
        }
    }

    /// Width of the primitive in bytes.
    pub fn size(self) -> (size: usize)
        ensures
            size == self.width(),
    {
        match self {
            Primitive::U8 | Primitive::I8 | Primitive::Bool => 1,
            Primitive::U16 | Primitive::I16 => 2,
            Primitive::U32 | Primitive::I32 | Primitive::Float32 | Primitive::Char => 4,
            Primitive::U64 | Primitive::I64 | Primitive::Float64 => 8,
            Primitive::U128 | Primitive::I128 => 16,
            Primitive::Usize | Primitive::Isize => core::mem::size_of::<usize>(),
        }
    }
}

/// The type of one record field, as far as its layout goes.
#[derive(Clone, Copy, Debug, PartialEq, Eq, Structural)]
pub enum FieldType {
    /// A primitive number, boolean or character.
    Primitive(Primitive),
    /// An enumeration without substructure, stored in `width` bytes.
    Enumeration { width: usize },
    /// A field of variable length, or one with structure of its own.
    Complex,
}

impl FieldType {
    /// Whether the field has a fixed width, and with it an offset and a span.
    pub open spec fn is_fixed(self) -> bool {
        !(self is Complex)
    }

    /// Width of a fixed-width field in bytes; a complex field has none.
    pub open spec fn width(self) -> nat {
        match self {
            FieldType::Primitive(primitive) => primitive.width(),
            FieldType::Enumeration { width } => width as nat,
            FieldType::Complex => 0,
        }
    }

    /// Width of a fixed-width field in bytes, `None` for a complex field.
    pub fn size(&self) -> (size: Option<usize>)
        ensures
            size == if self.is_fixed() {
                Some(self.width() as usize)
            } else {
                None
            },
            self.is_fixed() ==> self.width() <= usize::MAX,
    {
        match self {
            FieldType::Primitive(primitive) => Some(primitive.size()),
            FieldType::Enumeration { width } => Some(*width),
            FieldType::Complex => None,
        }
    }
}

/// Whether a field is a primitive or an enumeration, the two kinds that the
/// engine lays out.
pub fn is_primitive_or_enum_type(ty: &FieldType) -> (fixed: bool)
    ensures
        fixed == ty.is_fixed(),
{
    match ty {
        FieldType::Primitive(_) => true,
        FieldType::Enumeration { .. } => true,
        FieldType::Complex => false,
    }
}

/// Offset of field `index` in a record whose fixed-width fields are
/// `widths` bytes wide, in declaration order: the first field lies at 0, and
/// each later one at the end of its predecessor, moved up to its own
/// alignment.
pub open spec fn field_offset(widths: Seq<nat>, index: int) -> nat
    decreases index,
{
    if index <= 0 {
        0
    } else {
        align_up(
            field_offset(widths, index - 1) + widths[index - 1],
            alignment_of_size(widths[index]),
        )
    }
}

/// First byte behind field `index`.
pub open spec fn field_end(widths: Seq<nat>, index: int) -> nat {
    field_offset(widths, index) + widths[index]
}

/// First byte behind the first `count` fields; 0 when there is none.
pub open spec fn fields_end(widths: Seq<nat>, count: int) -> nat {
    if count <= 0 {
        0
    } else {
        field_end(widths, count - 1)
    }
}

/// Strictest alignment among the first `count` fields; 1 when there is none.
pub open spec fn record_alignment(widths: Seq<nat>, count: int) -> nat
    decreases count,
{
    if count <= 0 {
        1
    } else {
        let before: nat = record_alignment(widths, count - 1);
        let own: nat = alignment_of_size(widths[count - 1]);
        if own > before {
            own
        } else {
            before
        }
    }
}

/// Padded size of a record of fixed-width fields: the end of its last field,
/// moved up to the strictest alignment among the fields.
pub open spec fn record_size(widths: Seq<nat>) -> nat {
    align_up(fields_end(widths, widths.len() as int), record_alignment(widths, widths.len() as int))
}

/// Number of fixed-width fields at the head of `fields` is `count`.
pub open spec fn fixed_prefix(fields: Seq<FieldType>, count: int) -> bool {
    &&& 0 <= count <= fields.len()
    &&& forall|i: int| 0 <= i < count ==> (#[trigger] fields[i]).is_fixed()
    &&& count < fields.len() ==> !fields[count].is_fixed()
}

/// No fixed-width field stands behind a complex one.
pub open spec fn well_ordered(fields: Seq<FieldType>) -> bool {
    forall|i: int, j: int|
        0 <= i < j < fields.len() && !(#[trigger] fields[i]).is_fixed() ==> !(
        #[trigger] fields[j]).is_fixed()
}

/// Field `index` is the first fixed-width field that stands behind a complex
/// one.
pub open spec fn first_misplaced(fields: Seq<FieldType>, index: int) -> bool {
    &&& 0 < index < fields.len()
    &&& fields[index].is_fixed()
    &&& exists|i: int| 0 <= i < index && !(#[trigger] fields[i]).is_fixed()
    &&& well_ordered(fields.take(index))
}

/// Widths of the first `count` fields.
pub open spec fn widths_of(fields: Seq<FieldType>, count: int) -> Seq<nat> {
    Seq::new(count as nat, |i: int| fields[i].width())
}

/// Bytes that a layout of `fields` has to address: the padded size where all
/// fields are fixed, else the end of the last fixed field.
pub open spec fn layout_extent(fields: Seq<FieldType>, count: int) -> nat {
    if count == fields.len() {
        record_size(widths_of(fields, count))
    } else {
        fields_end(widths_of(fields, count), count)
    }
}

/// Size and place of one fixed-width field.
#[derive(Clone, Copy, Debug, PartialEq, Eq, Structural)]
pub struct FieldLayout {
    /// Width of the field in bytes.
    pub size: usize,
    /// Offset of its first byte in the record.
    pub offset: usize,
}

impl FieldLayout {
    /// The half-open byte range that the field occupies.
    pub fn span(&self) -> (span: core::ops::Range<usize>)
        requires
            self.offset + self.size <= usize::MAX,
        ensures
            span.start == self.offset,
            span.end == self.offset + self.size,
    {
        self.offset..self.offset + self.size
    }
}

/// Why a record cannot be laid out.
#[derive(Clone, Copy, Debug, PartialEq, Eq, Structural)]
pub enum LayoutError {
    /// The field at `index` is a primitive or an enumeration, but stands
    /// behind a complex field, where no offset can be known.
    PrimitiveAfterComplex { index: usize },
    /// The record does not fit the address space.
    TooLarge,
}

/// The layout of a record: one entry for each fixed-width field at its head.
#[derive(Debug)]
pub struct StructLayout {
    /// Size and offset of each fixed-width field, in declaration order.
    pub fields: Vec<FieldLayout>,
    /// Padded size of the whole record; `None` when it has a complex field.
    pub size: Option<usize>,
    /// Number of fixed-width fields.
    pub field_count: usize,
}

impl StructLayout {
    /// The layout is the one that the alignment rules give `fields`.
    pub open spec fn describes(self, fields: Seq<FieldType>) -> bool {
        let count: int = self.field_count as int;
        let widths: Seq<nat> = widths_of(fields, count);
        &&& fixed_prefix(fields, count)
        &&& self.fields@.len() == count
        &&& forall|i: int|
            0 <= i < count ==> (#[trigger] self.fields@[i]).size == widths[i] && self.fields@[i].offset
                == field_offset(widths, i)
        &&& self.size == if count == fields.len() {
            Some(record_size(widths) as usize)
        } else {
            None
        }
        &&& layout_extent(fields, count) <= usize::MAX
    }
}

/// Each field ends where the next one starts or before, and the offsets
/// never decrease.
pub proof fn lemma_offsets_ordered(widths: Seq<nat>, i: int, j: int)
    requires
        0 <= i <= j < widths.len(),
    ensures
        field_offset(widths, i) <= field_offset(widths, j),
        i < j ==> field_end(widths, i) <= field_offset(widths, j),
    decreases j - i,
{
    if i < j {
        lemma_offsets_ordered(widths, i, j - 1);
    }
}

/// Each field lies at a multiple of its alignment.
pub proof fn lemma_offsets_aligned(widths: Seq<nat>, index: int)
    requires
        0 <= index < widths.len(),
    ensures
        field_offset(widths, index) % alignment_of_size(widths[index]) == 0,
{
    if index > 0 {
        lemma_padding_to(
            field_offset(widths, index - 1) + widths[index - 1],
            alignment_of_size(widths[index]),
        );
    }
}

/// The alignment law: for any sequence of field widths, the offsets never
/// decrease from one field to the next, and each offset is a multiple of its
/// field's alignment.
pub proof fn lemma_alignment_law(widths: Seq<nat>)
    ensures
        forall|i: int, j: int|
            0 <= i <= j < widths.len() ==> field_offset(widths, i) <= field_offset(widths, j),
        forall|i: int|
            0 <= i < widths.len() ==> #[trigger] field_offset(widths, i) % alignment_of_size(
                widths[i],
            ) == 0,
{
    assert forall|i: int, j: int| 0 <= i <= j < widths.len() implies field_offset(widths, i)
        <= field_offset(widths, j) by {
        lemma_offsets_ordered(widths, i, j);
    }
    assert forall|i: int| 0 <= i < widths.len() implies #[trigger] field_offset(widths, i)
        % alignment_of_size(widths[i]) == 0 by {
        lemma_offsets_aligned(widths, i);
    }
}

/// The widths in `sizes`, as numbers without a bound.
pub open spec fn as_widths(sizes: Seq<usize>) -> Seq<nat> {
    Seq::new(sizes.len(), |i: int| sizes[i] as nat)
}

/// The strictest alignment of a record is one of 1, 2, 4, 8 and 16.
pub proof fn lemma_record_alignment(widths: Seq<nat>, count: int)
    ensures
        record_alignment(widths, count) == 1 || record_alignment(widths, count) == 2
            || record_alignment(widths, count) == 4 || record_alignment(widths, count) == 8
            || record_alignment(widths, count) == 16,
    decreases count,
{
    if count > 0 {
        lemma_record_alignment(widths, count - 1);
    }
}

/// The end of the fields never moves down as fields are added.
pub proof fn lemma_fields_end_ordered(widths: Seq<nat>, i: int, j: int)
    requires
        0 <= i <= j <= widths.len(),
    ensures
        fields_end(widths, i) <= fields_end(widths, j),
{
    if 0 < i && i < j {
        lemma_offsets_ordered(widths, i - 1, j - 1);
    }
}

/// Offsets of the fields of a record whose fields are `sizes` bytes wide, in
/// declaration order; `None` when a field would end behind the last address.
pub fn field_offsets(sizes: &Vec<usize>) -> (offsets: Option<Vec<usize>>)
    ensures
        match offsets {
            Some(offsets) => {
                &&& offsets@.len() == sizes@.len()
                &&& forall|i: int|
                    0 <= i < sizes@.len() ==> #[trigger] offsets@[i] == field_offset(
                        as_widths(sizes@),
                        i,
                    )
                &&& fields_end(as_widths(sizes@), sizes@.len() as int) <= usize::MAX
            },
            None => fields_end(as_widths(sizes@), sizes@.len() as int) > usize::MAX,
        },
{
    let ghost widths: Seq<nat> = as_widths(sizes@);
    let count: usize = sizes.len();
    let mut offsets: Vec<usize> = Vec::new();
    let mut end: usize = 0;
    let mut k: usize = 0;
    while k < count
        invariant
            k <= count,
            count == sizes@.len(),
            widths == as_widths(sizes@),
            offsets@.len() == k,
            forall|i: int| 0 <= i < k ==> #[trigger] offsets@[i] == field_offset(widths, i),
            end == fields_end(widths, k as int),
        decreases count - k,
    {
        let size: usize = sizes[k];
        let padding: usize = padding_needed_from_size(end, size);
        proof {
            lemma_fields_end_ordered(widths, k + 1, count as int);
            assert(field_offset(widths, k as int) == end + padding) by {
                if k > 0 {
                    assert(fields_end(widths, k as int) == field_offset(widths, k - 1)
                        + widths[k - 1]);
                } else {
                    lemma_padding_to(0, alignment_of_size(size as nat));
                }
            }
            assert(fields_end(widths, k + 1) == end + padding + size);
        }
        let offset: usize = match end.checked_add(padding) {
            Some(offset) => offset,
            None => {
                return None;
            },
        };
        let next_end: usize = match offset.checked_add(size) {
            Some(next_end) => next_end,
            None => {
                return None;
            },
        };
        offsets.push(offset);
        end = next_end;
        k += 1;
    }
    Some(offsets)
}

/// Padded size of a record whose fields are all of fixed width, `sizes` bytes
/// each; `None` when the size is not a `usize`.
pub fn padded_size(sizes: &Vec<usize>) -> (size: Option<usize>)
    ensures
        match size {
            Some(size) => size == record_size(as_widths(sizes@)),
            None => record_size(as_widths(sizes@)) > usize::MAX,
        },
{
    let ghost widths: Seq<nat> = as_widths(sizes@);
    let count: usize = sizes.len();
    let offsets: Vec<usize> = match field_offsets(sizes) {
        Some(offsets) => offsets,
        None => {
            proof {
                lemma_record_alignment(widths, count as int);
                lemma_padding_to(
                    fields_end(widths, count as int),
                    record_alignment(widths, count as int),
                );
            }
            return None;
        },
    };
    let mut alignment: usize = 1;
    let mut k: usize = 0;
    while k < count
        invariant
            k <= count,
            count == sizes@.len(),
            widths == as_widths(sizes@),
            alignment == record_alignment(widths, k as int),
        decreases count - k,
    {
        let own: usize = alignment_for_size(sizes[k]);
        if own > alignment {
            alignment = own;
        }
        k += 1;
    }
    let end: usize = if count == 0 {
        0
    } else {
        offsets[count - 1] + sizes[count - 1]
    };
    proof {
        lemma_record_alignment(widths, count as int);
        lemma_padding_to(end as nat, alignment as nat);
    }
    let padding: usize = gen_padding(alignment, end % alignment);
    end.checked_add(padding)
}

/// Lays out a record whose fields have the types `fields`, in declaration
/// order. The fixed-width fields at the head of the record get a size and an
/// offset each; the padded size of the record is known only when no field is
/// complex. A fixed-width field behind a complex one is an error, and the
/// first such field is named.
pub fn generate_impl(fields: &Vec<FieldType>) -> (result: Result<StructLayout, LayoutError>)
    ensures
        match result {
            Ok(layout) => well_ordered(fields@) && layout.describes(fields@),
            Err(LayoutError::PrimitiveAfterComplex { index }) => first_misplaced(
                fields@,
                index as int,
            ),
            Err(LayoutError::TooLarge) => well_ordered(fields@) && exists|count: int|
                fixed_prefix(fields@, count) && layout_extent(fields@, count) > usize::MAX,
        },
{
    let len: usize = fields.len();
    let mut sizes: Vec<usize> = Vec::new();
    let mut found_complex: bool = false;
    let mut i: usize = 0;
    while i < len
        invariant
            i <= len,
            len == fields@.len(),
            well_ordered(fields@.take(i as int)),
            found_complex <==> exists|c: int| 0 <= c < i && !(#[trigger] fields@[c]).is_fixed(),
            fixed_prefix(fields@.take(i as int), sizes@.len() as int),
            as_widths(sizes@) == widths_of(fields@, sizes@.len() as int),
        decreases len - i,
    {
        let ghost seen: Seq<FieldType> = fields@.take(i as int);
        let ghost next: Seq<FieldType> = fields@.take(i + 1);
        match fields[i].size() {
            None => {
                found_complex = true;
            },
            Some(size) => {
                if found_complex {
                    return Err(LayoutError::PrimitiveAfterComplex { index: i });
                }
                proof {
                    assert(sizes@.len() == i) by {
                        if sizes@.len() < i {
                            assert(!seen[sizes@.len() as int].is_fixed());
                        }
                    }
                    assert forall|j: int| 0 <= j <= i implies as_widths(sizes@.push(size))[j]
                        == widths_of(fields@, i + 1)[j] by {
                        if j < i {
                            assert(as_widths(sizes@)[j] == widths_of(fields@, i as int)[j]);
                        }
                    }
                    assert(as_widths(sizes@.push(size)) =~= widths_of(fields@, i + 1));
                }
                sizes.push(size);
            },
        }
        proof {
            assert forall|a: int, b: int|
                0 <= a < b < next.len() && !(#[trigger] next[a]).is_fixed() implies !(
            #[trigger] next[b]).is_fixed() by {
                if b < i {
                    assert(!seen[a].is_fixed());
                    assert(!seen[b].is_fixed());
                }
            }
            assert forall|a: int| 0 <= a < sizes@.len() implies (#[trigger] next[a]).is_fixed() by {
                if a < i {
                    assert(seen[a].is_fixed());
                }
            }
            if sizes@.len() < next.len() && sizes@.len() < i {
                assert(!seen[sizes@.len() as int].is_fixed());
            }
        }
        i += 1;
    }
    assert(fields@.take(len as int) =~= fields@);
    let count: usize = sizes.len();
    let ghost widths: Seq<nat> = as_widths(sizes@);
    let offsets: Vec<usize> = match field_offsets(&sizes) {
        Some(offsets) => offsets,
        None => {
            proof {
                if count == len {
                    lemma_record_alignment(widths, count as int);
                    lemma_padding_to(
                        fields_end(widths, count as int),
                        record_alignment(widths, count as int),
                    );
                }
                assert(layout_extent(fields@, count as int) > usize::MAX);
            }
            return Err(LayoutError::TooLarge);
        },
    };
    let size: Option<usize> = if count == len {
        match padded_size(&sizes) {
            Some(size) => Some(size),
            None => {
                return Err(LayoutError::TooLarge);
            },
        }
    } else {
        None
    };
    let mut laid_out: Vec<FieldLayout> = Vec::new();
    let mut k: usize = 0;
    while k < count
        invariant
            k <= count,
            count == sizes@.len(),
            count == offsets@.len(),
            laid_out@.len() == k,
            forall|j: int|
                0 <= j < k ==> (#[trigger] laid_out@[j]).size == sizes@[j] && laid_out@[j].offset
                    == offsets@[j],
        decreases count - k,
    {
        laid_out.push(FieldLayout { size: sizes[k], offset: offsets[k] });
        k += 1;
    }
    Ok(StructLayout { fields: laid_out, size, field_count: count })
}

/// Derives the layout of a record from the types of its fields.
pub fn derive_struct_layout(fields: &Vec<FieldType>) -> (result: Result<StructLayout, LayoutError>)
    ensures
        match result {
            Ok(layout) => well_ordered(fields@) && layout.describes(fields@),
            Err(LayoutError::PrimitiveAfterComplex { index }) => first_misplaced(
                fields@,
                index as int,
            ),
            Err(LayoutError::TooLarge) => well_ordered(fields@) && exists|count: int|
                fixed_prefix(fields@, count) && layout_extent(fields@, count) > usize::MAX,
        },
{
    generate_impl(fields)
}

} // verus!
