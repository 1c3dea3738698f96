//! The values that unwinding a target's call stack produces: stack frames
//! with their variables, each a tree shaped like the variable's type.
use vstd::prelude::*;

use rust_debug::evaluate::evaluate;

use crate::text::{
    byte_list, copied, decimal, digit_value, hexadecimal, is_number_text, number_read,
    right_aligned, signed_decimal,
};

verus! {

/// The number that `data` holds, least significant byte first.
pub open spec fn little_endian(data: Seq<u8>) -> nat
    decreases data.len(),
{
    if data.len() == 0 {
        0
    } else {
        data[0] as nat + 256 * little_endian(data.drop_first())
    }
}

/// How many numbers `len` bytes can tell apart.
pub open spec fn byte_range(len: nat) -> nat
    decreases len,
{
    if len == 0 {
        1
    } else {
        256 * byte_range((len - 1) as nat)
    }
}

/// The number that `data` holds in two's complement, least significant byte
/// first.
pub open spec fn signed_little_endian(data: Seq<u8>) -> int {
    let n = little_endian(data);
    let range = byte_range(data.len());
    if 2 * n >= range {
        n - range
    } else {
        n as int
    }
}

/// The `size` lowest bytes of `n`, least significant first.
pub open spec fn lowest_bytes(n: nat, size: nat) -> Seq<u8>
    decreases size,
{
    if size == 0 {
        Seq::empty()
    } else {
        seq![(n % 256) as u8] + lowest_bytes(n / 256, (size - 1) as nat)
    }
}

/// A value of a base type as DWARF describes it.
#[derive(Debug)]
pub enum RawValue {
    /// A value of the DWARF stack that has no type.
    Generic(u64),
    /// The encoding (`DW_ATE`) and the bytes, least significant first.
    Encoded { encoding: u8, data: Vec<u8> },
}

/// The DWARF encoding of an address.
pub const ENCODING_ADDRESS: u8 = 1;

/// The DWARF encoding of a truth value.
pub const ENCODING_BOOLEAN: u8 = 2;

/// The DWARF encoding of a floating point number.
pub const ENCODING_FLOAT: u8 = 4;

/// The DWARF encoding of a signed number.
pub const ENCODING_SIGNED: u8 = 5;

/// The DWARF encoding of an unsigned number.
pub const ENCODING_UNSIGNED: u8 = 7;

/// How a floating point number, given by its bytes, is written.
pub uninterp spec fn float_text(data: Seq<u8>) -> Seq<char>;

impl RawValue {
    /// The encoding and the number of bytes are those of a base type.
    pub open spec fn valid(self) -> bool {
        match self {
            RawValue::Generic(_) => true,
            RawValue::Encoded { encoding, data } => {
                let size = data@.len();
                ||| encoding == ENCODING_ADDRESS && size == 4
                ||| encoding == ENCODING_BOOLEAN && (size == 1 || size == 2 || size == 4)
                ||| encoding == ENCODING_FLOAT && (size == 4 || size == 8)
                ||| (encoding == ENCODING_SIGNED || encoding == ENCODING_UNSIGNED) && (size == 1
                    || size == 2 || size == 4 || size == 8)
            },
        }
    }

    /// The value is a floating point number.
    pub open spec fn is_float(self) -> bool {
        self matches RawValue::Encoded { encoding, .. } && encoding == ENCODING_FLOAT
    }

    /// How the value is written.
    pub open spec fn text(self) -> Seq<char> {
        match self {
            RawValue::Generic(n) => decimal(n as nat),
            RawValue::Encoded { encoding, data } => if encoding == ENCODING_ADDRESS {
                "'Address' "@ + right_aligned(
                    "0x"@ + hexadecimal(little_endian(data@)),
                    10,
                )
            } else if encoding == ENCODING_BOOLEAN {
                if little_endian(data@) == 1 {
                    "true"@
                } else {
                    "false"@
                }
            } else if encoding == ENCODING_SIGNED {
                signed_decimal(signed_little_endian(data@))
            } else if encoding == ENCODING_UNSIGNED {
                decimal(little_endian(data@))
            } else {
                float_text(data@)
            },
        }
    }

    /// The name of the value's type.
    pub open spec fn name_of_type(self) -> Seq<char> {
        match self {
            RawValue::Generic(_) => "<unknown>"@,
            RawValue::Encoded { encoding, data } => {
                let size = data@.len();
                if encoding == ENCODING_ADDRESS {
                    "<32 bit address>"@
                } else if encoding == ENCODING_BOOLEAN {
                    "bool"@
                } else if encoding == ENCODING_SIGNED {
                    if size == 1 {
                        "i8"@
                    } else if size == 2 {
                        "i16"@
                    } else if size == 4 {
                        "i32"@
                    } else {
                        "i64"@
                    }
                } else if encoding == ENCODING_UNSIGNED {
                    if size == 1 {
                        "u8"@
                    } else if size == 2 {
                        "u16"@
                    } else if size == 4 {
                        "u32"@
                    } else {
                        "u64"@
                    }
                } else if size == 4 {
                    "f32"@
                } else {
                    "f63"@
                }
            },
        }
    }
}

/// Calls the `Display` formatting of `rust_debug`'s `BaseTypeValue`, on the
/// value that its `parse_base_type` makes of the encoding and the bytes, or on
/// its generic value. Claimed: whole numbers are written in base ten, truth
/// values as words, addresses in base sixteen aligned to ten columns; the text
/// of a floating point number depends on its bytes alone.
#[verifier::external_body]
pub(crate) fn base_type_text(value: &RawValue) -> (text: String)
    requires
        value.valid(),
    ensures
        text@ == value.text(),
        value.is_float() ==> text@ == float_text(value->data@),
{
    let outside = match value {
        RawValue::Generic(n) => evaluate::BaseTypeValue::Generic(*n),
        RawValue::Encoded { encoding, data } => {
            evaluate::BaseTypeValue::parse_base_type(data.clone(), gimli::DwAte(*encoding)).unwrap()
        },
    };
    format!("{}", outside)
}

/// Calls `get_type` of `rust_debug`'s `BaseTypeValue`, on the value that its
/// `parse_base_type` makes of the encoding and the bytes, or on its generic
/// value. Claimed: the name that `get_type` has for each base type, among them
/// `f63` for an eight byte floating point number.
#[verifier::external_body]
pub(crate) fn base_type_name(value: &RawValue) -> (name: String)
    requires
        value.valid(),
    ensures
        name@ == value.name_of_type(),
{
    let outside = match value {
        RawValue::Generic(n) => evaluate::BaseTypeValue::Generic(*n),
        RawValue::Encoded { encoding, data } => {
            evaluate::BaseTypeValue::parse_base_type(data.clone(), gimli::DwAte(*encoding)).unwrap()
        },
    };
    outside.get_type()
}

/// The value of a base type.
#[derive(Debug, Clone, Copy)]
pub enum BaseTypeValue {
    /// A value that has no type.
    Generic(u64),
    Address32(u32),
    Bool(bool),
    U8(u8),
    U16(u16),
    U32(u32),
    U64(u64),
    I8(i8),
    I16(i16),
    I32(i32),
    I64(i64),
    /// The bits of a four byte floating point number.
    F32(u32),
    /// The bits of an eight byte floating point number.
    F64(u64),
}

impl BaseTypeValue {
    /// How the value is written.
    pub open spec fn text(self) -> Seq<char> {
        match self {
            BaseTypeValue::Generic(n) => decimal(n as nat),
            BaseTypeValue::Address32(n) => "'Address' "@ + right_aligned(
                "0x"@ + hexadecimal(n as nat),
                10,
            ),
            BaseTypeValue::Bool(b) => if b {
                "true"@
            } else {
                "false"@
            },
            BaseTypeValue::U8(n) => decimal(n as nat),
            BaseTypeValue::U16(n) => decimal(n as nat),
            BaseTypeValue::U32(n) => decimal(n as nat),
            BaseTypeValue::U64(n) => decimal(n as nat),
            BaseTypeValue::I8(n) => signed_decimal(n as int),
            BaseTypeValue::I16(n) => signed_decimal(n as int),
            BaseTypeValue::I32(n) => signed_decimal(n as int),
            BaseTypeValue::I64(n) => signed_decimal(n as int),
            BaseTypeValue::F32(bits) => float_text(lowest_bytes(bits as nat, 4)),
            BaseTypeValue::F64(bits) => float_text(lowest_bytes(bits as nat, 8)),
        }
    }

    /// The name of the value's type.
    pub open spec fn name_of_type(self) -> Seq<char> {
        match self {
            BaseTypeValue::Generic(_) => "<unknown>"@,
            BaseTypeValue::Address32(_) => "<32 bit address>"@,
            BaseTypeValue::Bool(_) => "bool"@,
            BaseTypeValue::U8(_) => "u8"@,
            BaseTypeValue::U16(_) => "u16"@,
            BaseTypeValue::U32(_) => "u32"@,
            BaseTypeValue::U64(_) => "u64"@,
            BaseTypeValue::I8(_) => "i8"@,
            BaseTypeValue::I16(_) => "i16"@,
            BaseTypeValue::I32(_) => "i32"@,
            BaseTypeValue::I64(_) => "i64"@,
            BaseTypeValue::F32(_) => "f32"@,
            BaseTypeValue::F64(_) => "f63"@,
        }
    }

    /// The value read as an unsigned number, where it can be.
    pub open spec fn unsigned(self) -> Option<u64> {
        match self {
            BaseTypeValue::Generic(n) => Some(n),
            BaseTypeValue::U8(n) => Some(n as u64),
            BaseTypeValue::U16(n) => Some(n as u64),
            BaseTypeValue::U32(n) => Some(n as u64),
            BaseTypeValue::U64(n) => Some(n),
            _ => None,
        }
    }
}

/// How the bytes of a value without a type are written.
pub open spec fn bytes_text(bytes: Seq<u8>) -> Seq<char> {
    "EndianSlice { slice: ["@ + byte_list(bytes) + "], endian: LittleEndian }"@
}

/// Calls the `Debug` formatting of `gimli`'s `EndianSlice` over the bytes, in
/// little-endian order. Claimed: the name of the slice's type and of its two
/// fields, with the bytes as decimal numbers and the name of the byte order.
#[verifier::external_body]
pub(crate) fn endian_slice_text(bytes: &Vec<u8>) -> (text: String)
    ensures
        text@ == bytes_text(bytes@),
{
    format!("{:?}", gimli::EndianSlice::new(bytes, gimli::LittleEndian))
}

/// A location in the source code.
#[derive(Debug)]
pub struct SourceInformation {
    pub directory: Option<String>,
    pub file: Option<String>,
    pub line: Option<u64>,
    pub column: Option<u64>,
}

impl Clone for SourceInformation {
    fn clone(&self) -> (copy: Self)
        ensures
            copy == *self,
    {
        SourceInformation {
            directory: copied(&self.directory),
            file: copied(&self.file),
            line: self.line,
            column: self.column,
        }
    }
}

/// A call frame: the register values that it preserves and the machine code
/// that it covers.
#[derive(Debug, Clone, Copy)]
pub struct CallFrame {
    pub id: u64,
    pub registers: [Option<u32>; 16],
    pub code_location: u64,
    pub cfa: Option<u32>,
    pub start_address: u64,
    pub end_address: u64,
}

/// A value in the shape of its type.
#[derive(Debug)]
pub enum EvaluatorValue {
    /// A value of a base type.
    Value(BaseTypeValue),
    /// A pointer, with what it points to.
    PointerTypeValue(Box<PointerTypeValue>),
    /// One variant of an enum with data.
    VariantValue(Box<VariantValue>),
    /// The variants of an enum with data.
    VariantPartValue(Box<VariantPartValue>),
    /// The bounds of an array.
    SubrangeTypeValue(SubrangeTypeValue),
    /// Bytes without a type.
    Bytes(Vec<u8>),
    /// An array.
    Array(Box<ArrayTypeValue>),
    /// A struct.
    Struct(Box<StructureTypeValue>),
    /// An enum without data.
    Enum(Box<EnumerationTypeValue>),
    /// A union.
    Union(Box<UnionTypeValue>),
    /// A field.
    Member(Box<MemberValue>),
    /// The value was optimized away.
    OptimizedOut,
    /// The value has no location at the current code location.
    LocationOutOfRange,
    /// The value takes no space.
    ZeroSize,
}

#[derive(Debug)]
pub struct PointerTypeValue {
    pub name: Option<String>,
    pub value: EvaluatorValue,
}

#[derive(Debug)]
pub struct MemberValue {
    pub name: Option<String>,
    pub value: EvaluatorValue,
}

#[derive(Debug)]
pub struct VariantValue {
    pub discr_value: Option<u64>,
    pub child: MemberValue,
}

#[derive(Debug)]
pub struct VariantPartValue {
    pub variant: Option<MemberValue>,
    pub variants: Vec<VariantValue>,
}

#[derive(Debug)]
pub struct SubrangeTypeValue {
    pub count: Option<u64>,
    pub base_type_value: Option<BaseTypeValue>,
}

#[derive(Debug)]
pub struct ArrayTypeValue {
    pub subrange_type_value: SubrangeTypeValue,
    pub values: Vec<EvaluatorValue>,
}

#[derive(Debug)]
pub struct StructureTypeValue {
    pub name: String,
    pub members: Vec<EvaluatorValue>,
}

#[derive(Debug)]
pub struct EnumeratorValue {
    pub name: Option<String>,
    pub const_value: u64,
}

#[derive(Debug)]
pub struct EnumerationTypeValue {
    pub name: String,
    pub variant: EvaluatorValue,
    pub enumerators: Vec<EnumeratorValue>,
}

#[derive(Debug)]
pub struct UnionTypeValue {
    pub name: String,
    pub members: Vec<EvaluatorValue>,
}

/// A variable of a stack frame with its value.
#[derive(Debug)]
pub struct EvaluatedVariable {
    pub name: Option<String>,
    pub value: EvaluatorValue,
    pub source: Option<SourceInformation>,
}

/// A frame of the unwound call stack.
#[derive(Debug)]
pub struct UnwoundFrame {
    pub call_frame: CallFrame,
    pub name: String,
    pub source: SourceInformation,
    pub variables: Vec<EvaluatedVariable>,
}

impl EvaluatorValue {
    /// The value can be written: the variant of each enum without data is an
    /// unsigned number.
    pub open spec fn renderable(self) -> bool
        decreases self,
    {
        match self {
            EvaluatorValue::Value(_) => true,
            EvaluatorValue::PointerTypeValue(p) => p.value.renderable(),
            EvaluatorValue::VariantValue(v) => v.child.value.renderable(),
            EvaluatorValue::VariantPartValue(v) => {
                &&& v.variant matches Some(m) ==> m.value.renderable()
                &&& forall|i: int|
                    0 <= i < v.variants@.len() ==> (
                    #[trigger] v.variants@[i]).child.value.renderable()
            },
            EvaluatorValue::SubrangeTypeValue(_) => true,
            EvaluatorValue::Array(a) => forall|i: int|
                0 <= i < a.values@.len() ==> (#[trigger] a.values@[i]).renderable(),
            EvaluatorValue::Struct(s) => forall|i: int|
                0 <= i < s.members@.len() ==> (#[trigger] s.members@[i]).renderable(),
            EvaluatorValue::Enum(e) => e.variant matches EvaluatorValue::Value(b) && b.unsigned()
                is Some,
            EvaluatorValue::Union(u) => forall|i: int|
                0 <= i < u.members@.len() ==> (#[trigger] u.members@[i]).renderable(),
            EvaluatorValue::Member(m) => m.value.renderable(),
            EvaluatorValue::Bytes(_) => true,
            EvaluatorValue::OptimizedOut => true,
            EvaluatorValue::LocationOutOfRange => true,
            EvaluatorValue::ZeroSize => true,
        }
    }
}

impl UnwoundFrame {
    /// All variables of the frame can be written.
    pub open spec fn renderable(self) -> bool {
        forall|i: int|
            0 <= i < self.variables@.len() ==> (#[trigger] self.variables@[i]).value.renderable()
    }
}

proof fn lemma_lowest_bytes(n: nat, size: nat)
    requires
        n < byte_range(size),
    ensures
        lowest_bytes(n, size).len() == size,
        little_endian(lowest_bytes(n, size)) == n,
    decreases size,
{
    if size > 0 {
        lemma_lowest_bytes(n / 256, (size - 1) as nat);
        assert(lowest_bytes(n, size).drop_first() =~= lowest_bytes(n / 256, (size - 1) as nat));
    }
}

/// The `size` lowest bytes of `n`, least significant first.
fn bytes_of(n: u64, size: usize) -> (data: Vec<u8>)
    ensures
        data@ == lowest_bytes(n as nat, size as nat),
{
    let mut data: Vec<u8> = vec![];
    let mut rest: u64 = n;
    let mut i: usize = 0;
    while i < size
        invariant
            i <= size,
            data@ + lowest_bytes(rest as nat, (size - i) as nat) == lowest_bytes(
                n as nat,
                size as nat,
            ),
        decreases size - i,
    {
        let ghost before = data@;
        let ghost ahead = lowest_bytes((rest / 256) as nat, (size - i - 1) as nat);
        assert(lowest_bytes(rest as nat, (size - i) as nat) =~= seq![(rest % 256) as u8] + ahead);
        data.push((rest % 256) as u8);
        rest = rest / 256;
        i = i + 1;
        assert(data@ + ahead =~= before + (seq![data@.last()] + ahead));
    }
    assert(data@ + lowest_bytes(rest as nat, 0) =~= data@);
    data
}

impl BaseTypeValue {
    /// The value as DWARF describes it.
    fn to_raw(&self) -> (raw: RawValue)
        ensures
            raw.valid(),
            raw.text() == self.text(),
            raw.name_of_type() == self.name_of_type(),
    {
        proof {
            reveal_with_fuel(byte_range, 9);
        }
        let (encoding, n, size): (u8, u64, usize) = match *self {
            BaseTypeValue::Generic(n) => return RawValue::Generic(n),
            BaseTypeValue::Address32(n) => (ENCODING_ADDRESS, n as u64, 4),
            BaseTypeValue::Bool(b) => (
                ENCODING_BOOLEAN,
                if b {
                    1
                } else {
                    0
                },
                1,
            ),
            BaseTypeValue::U8(n) => (ENCODING_UNSIGNED, n as u64, 1),
            BaseTypeValue::U16(n) => (ENCODING_UNSIGNED, n as u64, 2),
            BaseTypeValue::U32(n) => (ENCODING_UNSIGNED, n as u64, 4),
            BaseTypeValue::U64(n) => (ENCODING_UNSIGNED, n, 8),
            BaseTypeValue::I8(n) => (ENCODING_SIGNED, twos_complement(n as i64, 1), 1),
            BaseTypeValue::I16(n) => (ENCODING_SIGNED, twos_complement(n as i64, 2), 2),
            BaseTypeValue::I32(n) => (ENCODING_SIGNED, twos_complement(n as i64, 4), 4),
            BaseTypeValue::I64(n) => (ENCODING_SIGNED, twos_complement(n, 8), 8),
            BaseTypeValue::F32(bits) => (ENCODING_FLOAT, bits as u64, 4),
            BaseTypeValue::F64(bits) => (ENCODING_FLOAT, bits, 8),
        };
        proof {
            lemma_lowest_bytes(n as nat, size as nat);
        }
        RawValue::Encoded { encoding, data: bytes_of(n, size) }
    }

    /// How the value is written.
    pub fn to_text(&self) -> (text: String)
        ensures
            text@ == self.text(),
    {
        base_type_text(&self.to_raw())
    }

    /// The name of the value's type.
    pub fn get_type(&self) -> (name: String)
        ensures
            name@ == self.name_of_type(),
    {
        base_type_name(&self.to_raw())
    }

    /// The value read as an unsigned number, where it can be.
    pub fn get_udata(&self) -> (n: Option<u64>)
        ensures
            n == self.unsigned(),
    {
        match *self {
            BaseTypeValue::Generic(n) => Some(n),
            BaseTypeValue::U8(n) => Some(n as u64),
            BaseTypeValue::U16(n) => Some(n as u64),
            BaseTypeValue::U32(n) => Some(n as u64),
            BaseTypeValue::U64(n) => Some(n),
            _ => None,
        }
    }
}

/// `n` in two's complement of `size` bytes.
fn twos_complement(n: i64, size: usize) -> (m: u64)
    requires
        size == 1 || size == 2 || size == 4 || size == 8,
        -byte_range(size as nat) <= 2 * n < byte_range(size as nat),
    ensures
        m == (if n < 0 {
            n + byte_range(size as nat)
        } else {
            n as int
        }),
{
    proof {
        reveal_with_fuel(byte_range, 9);
    }
    let range: i128 = if size == 1 {
        0x100
    } else if size == 2 {
        0x1_0000
    } else if size == 4 {
        0x1_0000_0000
    } else {
        0x1_0000_0000_0000_0000
    };
    if n < 0 {
        (n as i128 + range) as u64
    } else {
        n as u64
    }
}

fn all_renderable(values: &Vec<EvaluatorValue>) -> (yes: bool)
    ensures
        yes == (forall|i: int| 0 <= i < values@.len() ==> (#[trigger] values@[i]).renderable()),
    decreases values,
{
    let mut i: usize = 0;
    while i < values.len()
        invariant
            i <= values@.len(),
            forall|j: int| 0 <= j < i ==> (#[trigger] values@[j]).renderable(),
        decreases values@.len() - i,
    {
        if !values[i].is_renderable() {
            return false;
        }
        i = i + 1;
    }
    true
}

fn all_variants_renderable(variants: &Vec<VariantValue>) -> (yes: bool)
    ensures
        yes == (forall|i: int|
            0 <= i < variants@.len() ==> (#[trigger] variants@[i]).child.value.renderable()),
    decreases variants,
{
    let mut i: usize = 0;
    while i < variants.len()
        invariant
            i <= variants@.len(),
            forall|j: int| 0 <= j < i ==> (#[trigger] variants@[j]).child.value.renderable(),
        decreases variants@.len() - i,
    {
        if !variants[i].child.value.is_renderable() {
            return false;
        }
        i = i + 1;
    }
    true
}

impl EvaluatorValue {
    /// Whether the value can be written.
    pub fn is_renderable(&self) -> (yes: bool)
        ensures
            yes == self.renderable(),
        decreases self,
    {
        match self {
            EvaluatorValue::Value(_) => true,
            EvaluatorValue::PointerTypeValue(p) => p.value.is_renderable(),
            EvaluatorValue::VariantValue(v) => v.child.value.is_renderable(),
            EvaluatorValue::VariantPartValue(v) => {
                let chosen = match &v.variant {
                    Some(m) => m.value.is_renderable(),
                    None => true,
                };
                chosen && all_variants_renderable(&v.variants)
            },
            EvaluatorValue::SubrangeTypeValue(_) => true,
            EvaluatorValue::Array(a) => all_renderable(&a.values),
            EvaluatorValue::Struct(s) => all_renderable(&s.members),
            EvaluatorValue::Enum(e) => match &e.variant {
                EvaluatorValue::Value(b) => b.get_udata().is_some(),
                _ => false,
            },
            EvaluatorValue::Union(u) => all_renderable(&u.members),
            EvaluatorValue::Member(m) => m.value.is_renderable(),
            EvaluatorValue::Bytes(_) => true,
            EvaluatorValue::OptimizedOut => true,
            EvaluatorValue::LocationOutOfRange => true,
            EvaluatorValue::ZeroSize => true,
        }
    }
}

impl UnwoundFrame {
    /// Whether all variables of the frame can be written.
    pub fn is_renderable(&self) -> (yes: bool)
        ensures
            yes == self.renderable(),
    {
        let mut i: usize = 0;
        while i < self.variables.len()
            invariant
                i <= self.variables@.len(),
                forall|j: int| 0 <= j < i ==> (#[trigger] self.variables@[j]).value.renderable(),
            decreases self.variables@.len() - i,
        {
            if !self.variables[i].value.is_renderable() {
                return false;
            }
            i = i + 1;
        }
        true
    }
}

/// Whole numbers are written in base ten, with a minus sign where they are
/// negative, and truth values as words.
pub proof fn law_numbers_are_written_in_base_ten(b: BaseTypeValue)
    ensures
        match b {
            BaseTypeValue::Generic(n) => b.text() == decimal(n as nat),
            BaseTypeValue::U8(n) => b.text() == decimal(n as nat),
            BaseTypeValue::U16(n) => b.text() == decimal(n as nat),
            BaseTypeValue::U32(n) => b.text() == decimal(n as nat),
            BaseTypeValue::U64(n) => b.text() == decimal(n as nat),
            BaseTypeValue::I8(n) => b.text() == signed_decimal(n as int),
            BaseTypeValue::I16(n) => b.text() == signed_decimal(n as int),
            BaseTypeValue::I32(n) => b.text() == signed_decimal(n as int),
            BaseTypeValue::I64(n) => b.text() == signed_decimal(n as int),
            BaseTypeValue::Bool(true) => b.text() == "true"@,
            BaseTypeValue::Bool(false) => b.text() == "false"@,
            _ => true,
        },
{
}

/// An address is written in base sixteen behind its mark, in ten columns.
pub proof fn law_addresses_are_written_in_base_sixteen(address: u32, digits: Seq<char>)
    requires
        is_number_text(digits, 16),
        number_read(digits, 16) == address,
    ensures
        BaseTypeValue::Address32(address).text() == "'Address' "@ + right_aligned(
            "0x"@ + digits,
            10,
        ),
{
    lemma_same_number_same_text(digits, address as nat);
}

/// There is one way to write a number in base sixteen.
proof fn lemma_same_number_same_text(digits: Seq<char>, n: nat)
    requires
        is_number_text(digits, 16),
        number_read(digits, 16) == n,
    ensures
        digits == hexadecimal(n),
    decreases digits.len(),
{
    let front = digits.drop_last();
    let last = digit_value(digits.last());
    assert(digits =~= front.push(digits.last()));
    assert(0 <= digit_value(digits[digits.len() - 1]) < 16);
    if front.len() == 0 {
        assert(number_read(front, 16) == 0);
        assert(digits =~= hexadecimal(n));
    } else {
        assert forall|i: int| 0 <= i < front.len() implies 0 <= digit_value(
            #[trigger] front[i],
        ) < 16 by {
            assert(front[i] == digits[i]);
        }
        assert(front[0] == digits[0]);
        lemma_number_is_positive(front);
        let m = number_read(front, 16);
        assert(n == m * 16 + last);
        assert(n / 16 == m && n % 16 == last);
        lemma_same_number_same_text(front, m as nat);
        assert(digits =~= hexadecimal(n));
    }
}

/// A number that does not start with a zero is none.
proof fn lemma_number_is_positive(digits: Seq<char>)
    requires
        digits.len() > 0,
        forall|i: int| 0 <= i < digits.len() ==> 0 <= digit_value(#[trigger] digits[i]) < 16,
        digits[0] != '0',
    ensures
        number_read(digits, 16) > 0,
    decreases digits.len(),
{
    let front = digits.drop_last();
    assert(0 <= digit_value(digits[digits.len() - 1]));
    if front.len() == 0 {
        assert(number_read(front, 16) == 0);
        assert(digit_value(digits[0]) >= 0);
    } else {
        assert forall|i: int| 0 <= i < front.len() implies 0 <= digit_value(
            #[trigger] front[i],
        ) < 16 by {
            assert(front[i] == digits[i]);
        }
        assert(front[0] == digits[0]);
        lemma_number_is_positive(front);
    }
}

/// A floating point number is written as the text for its bytes: byte number `i`
/// is what is left of its bits, behind `i` bytes, in eight bits.
pub proof fn law_floats_are_written_by_their_bytes(short: u32, long: u64, data: Seq<u8>)
    ensures
        data.len() == 4 && (forall|i: int|
            0 <= i < 4 ==> #[trigger] data[i] == (short as nat / byte_range(i as nat)) % 256)
            ==> BaseTypeValue::F32(short).text() == float_text(data),
        data.len() == 8 && (forall|i: int|
            0 <= i < 8 ==> #[trigger] data[i] == (long as nat / byte_range(i as nat)) % 256)
            ==> BaseTypeValue::F64(long).text() == float_text(data),
{
    lemma_byte_at(short as nat, 4);
    lemma_byte_at(long as nat, 8);
    if data.len() == 4 && (forall|i: int|
        0 <= i < 4 ==> #[trigger] data[i] == (short as nat / byte_range(i as nat)) % 256) {
        assert(data =~= lowest_bytes(short as nat, 4));
    }
    if data.len() == 8 && (forall|i: int|
        0 <= i < 8 ==> #[trigger] data[i] == (long as nat / byte_range(i as nat)) % 256) {
        assert(data =~= lowest_bytes(long as nat, 8));
    }
}

/// Each byte of a number.
proof fn lemma_byte_at(n: nat, size: nat)
    ensures
        lowest_bytes(n, size).len() == size,
        forall|i: int|
            0 <= i < size ==> #[trigger] lowest_bytes(n, size)[i] == (n / byte_range(i as nat))
                % 256,
    decreases size,
{
    if size > 0 {
        let rest = lowest_bytes(n / 256, (size - 1) as nat);
        lemma_byte_at(n / 256, (size - 1) as nat);
        assert forall|i: int| 0 <= i < size implies #[trigger] lowest_bytes(n, size)[i] == (n
            / byte_range(i as nat)) % 256 by {
            if i > 0 {
                assert(lowest_bytes(n, size)[i] == rest[i - 1]);
                lemma_byte_range_is_positive((i - 1) as nat);
                vstd::arithmetic::div_mod::lemma_div_denominator(
                    n as int,
                    256,
                    byte_range((i - 1) as nat) as int,
                );
                assert(byte_range(i as nat) == 256 * byte_range((i - 1) as nat));
                assert(rest[i - 1] == ((n / 256) / byte_range((i - 1) as nat)) % 256);
            } else {
                assert(byte_range(0) == 1);
                assert(n / 1 == n);
            }
        }
    }
}

proof fn lemma_byte_range_is_positive(len: nat)
    ensures
        byte_range(len) > 0,
    decreases len,
{
    if len > 0 {
        lemma_byte_range_is_positive((len - 1) as nat);
    }
}

/// The types of numbers are called by whether they have a sign or a point and by
/// how many bits they have, but for the point number of eight bytes; the other
/// types have names of their own.
pub proof fn law_types_are_called_by_sign_and_size(b: BaseTypeValue)
    ensures
        match b {
            BaseTypeValue::U8(_) => b.name_of_type() == seq!['u'] + decimal(8),
            BaseTypeValue::U16(_) => b.name_of_type() == seq!['u'] + decimal(16),
            BaseTypeValue::U32(_) => b.name_of_type() == seq!['u'] + decimal(32),
            BaseTypeValue::U64(_) => b.name_of_type() == seq!['u'] + decimal(64),
            BaseTypeValue::I8(_) => b.name_of_type() == seq!['i'] + decimal(8),
            BaseTypeValue::I16(_) => b.name_of_type() == seq!['i'] + decimal(16),
            BaseTypeValue::I32(_) => b.name_of_type() == seq!['i'] + decimal(32),
            BaseTypeValue::I64(_) => b.name_of_type() == seq!['i'] + decimal(64),
            BaseTypeValue::Bool(_) => b.name_of_type() == "bool"@,
            BaseTypeValue::F32(_) => b.name_of_type() == seq!['f'] + decimal(32),
            BaseTypeValue::F64(_) => b.name_of_type() == "f63"@,
            BaseTypeValue::Address32(_) => b.name_of_type() == "<"@ + decimal(32)
                + " bit address>"@,
            BaseTypeValue::Generic(_) => b.name_of_type() == "<unknown>"@,
        },
{
    reveal_with_fuel(decimal, 3);
    reveal_strlit("u8");
    reveal_strlit("u16");
    reveal_strlit("u32");
    reveal_strlit("u64");
    reveal_strlit("i8");
    reveal_strlit("i16");
    reveal_strlit("i32");
    reveal_strlit("i64");
    assert("u8"@ =~= seq!['u'] + decimal(8));
    assert("u16"@ =~= seq!['u'] + decimal(16));
    assert("u32"@ =~= seq!['u'] + decimal(32));
    assert("u64"@ =~= seq!['u'] + decimal(64));
    assert("i8"@ =~= seq!['i'] + decimal(8));
    assert("i16"@ =~= seq!['i'] + decimal(16));
    assert("i32"@ =~= seq!['i'] + decimal(32));
    assert("i64"@ =~= seq!['i'] + decimal(64));
    reveal_strlit("f32");
    reveal_strlit("<");
    reveal_strlit(" bit address>");
    reveal_strlit("<32 bit address>");
    assert("f32"@ =~= seq!['f'] + decimal(32));
    assert("<32 bit address>"@ =~= "<"@ + decimal(32) + " bit address>"@);
}

/// An unsigned number, and a value that has no type, reads as itself; the others
/// do not read as unsigned numbers, whatever they hold.
pub proof fn law_unsigned_numbers_read_as_themselves(b: BaseTypeValue)
    ensures
        match b {
            BaseTypeValue::Generic(n) => b.unsigned() == Some(n),
            BaseTypeValue::U64(n) => b.unsigned() == Some(n),
            BaseTypeValue::U32(n) => b.unsigned() matches Some(number) && number == n,
            BaseTypeValue::U16(n) => b.unsigned() matches Some(number) && number == n,
            BaseTypeValue::U8(n) => b.unsigned() matches Some(number) && number == n,
            _ => b.unsigned() is None,
        },
{
}

} // verus!
