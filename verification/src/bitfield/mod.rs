//! Packed structs: the bytes that hold their fields, and the decisions
//! behind the code that is generated for a struct and for an enum that
//! serves as one of its fields.

pub mod bits;
pub mod field;
pub mod four_bytes;
pub mod specifier;
pub mod widths;

pub use bits::{create_bit_masks, create_value_bits, create_value_from_le_bytes};
pub use four_bytes::MyFourBytes;
pub use specifier::Specifier;
pub use widths::{
    B0, B1, B2, B3, B4, B5, B6, B7, B8, B9, B10, B11, B12, B13, B14, B15, B16, B17, B18, B19,
    B20, B21, B22, B23, B24, B25, B26, B27, B28, B29, B30, B31, B32, B33, B34, B35, B36, B37,
    B38, B39, B40, B41, B42, B43, B44, B45, B46, B47, B48, B49, B50, B51, B52, B53, B54, B55,
    B56, B57, B58, B59, B60, B61, B62, B63, B64,
};

use crate::syntax::{named_fields, Attribute, Data, DeriveInput, Field, Meta};
use crate::text::{concat2, decimal, is_word, to_decimal};
use vstd::arithmetic::power2::{lemma_pow2_strictly_increases, lemma_pow2_unfold, pow2};
use vstd::prelude::*;
use vstd::string::StringExecFns;

verus! {

/// Whether an attribute is `bits = value`.
pub open spec fn bits_pair(attr: Attribute) -> bool {
    match attr.meta {
        Meta::NameValue(pair) => match pair.path {
            Some(name) => name@ == "bits"@,
            None => false,
        },
        _ => false,
    }
}

/// Whether `i` is the first attribute of the form `bits = value`.
pub open spec fn first_bits_pair(attrs: Seq<Attribute>, i: int) -> bool {
    &&& 0 <= i < attrs.len()
    &&& bits_pair(attrs[i])
    &&& forall|j: int| 0 <= j < i ==> !bits_pair(#[trigger] attrs[j])
}

/// The place of the attribute that states the width of a field: the first
/// of the form `bits = value`.
pub fn bits_attribute(attrs: &Vec<Attribute>) -> (found: Option<usize>)
    ensures
        match found {
            Some(i) => first_bits_pair(attrs@, i as int),
            None => forall|i: int| 0 <= i < attrs.len() ==> !bits_pair(#[trigger] attrs[i]),
        },
{
    let mut i: usize = 0;
    while i < attrs.len()
        invariant
            i <= attrs.len(),
            forall|j: int| 0 <= j < i ==> !bits_pair(#[trigger] attrs[j]),
        decreases attrs.len() - i,
    {
        match &attrs[i].meta {
            Meta::NameValue(pair) => match &pair.path {
                Some(name) => {
                    if is_word(name, "bits") {
                        return Some(i);
                    }
                },
                None => {},
            },
            _ => {},
        }
        i += 1;
    }
    None
}

/// The getter and the setter of a named field.
pub struct Accessor {
    /// The place of the field among the fields of the struct. Its offset is
    /// the sum of the widths of the fields behind it.
    pub field: usize,
    pub getter: String,
    pub setter: String,
}

/// A stated width that is held against the width of the field's type.
#[derive(Clone, Copy, Debug, PartialEq, Eq, Structural)]
pub struct WidthCheck {
    /// The place of the field among the fields of the struct.
    pub field: usize,
    /// The place of the attribute among the attributes of the field.
    pub attr: usize,
}

/// What is generated for a struct.
pub struct BitfieldPlan {
    /// The accessors of the named fields, in the order of the fields.
    pub accessors: Vec<Accessor>,
    /// The stated widths, in the order of the fields.
    pub checks: Vec<WidthCheck>,
}

/// Whether `checks` holds a check for each of the first `n` fields that
/// states its width, in the order of the fields.
pub open spec fn width_checks(fields: Seq<Field>, n: int, checks: Seq<WidthCheck>) -> bool
    decreases n,
{
    if n <= 0 {
        checks.len() == 0
    } else if exists|a: int| #[trigger] first_bits_pair(fields[n - 1].attrs@, a) {
        &&& checks.len() > 0
        &&& checks.last().field == n - 1
        &&& first_bits_pair(fields[n - 1].attrs@, checks.last().attr as int)
        &&& width_checks(fields, n - 1, checks.drop_last())
    } else {
        width_checks(fields, n - 1, checks)
    }
}

/// Plans the accessors and the checks of a packed struct.
///
/// Each field with a name gets a getter and a setter, named after it with
/// `get_` and `set_` before the name.
pub fn bitfield(fields: &Vec<Field>) -> (plan: BitfieldPlan)
    ensures
        ({
            let named = named_fields(fields@, fields.len() as int);
            &&& plan.accessors.len() == named.len()
            &&& forall|k: int|
                0 <= k < named.len() ==> {
                    let accessor = #[trigger] plan.accessors[k];
                    &&& accessor.field == named[k]
                    &&& accessor.getter@ == "get_"@ + fields[named[k]].ident.unwrap()@
                    &&& accessor.setter@ == "set_"@ + fields[named[k]].ident.unwrap()@
                }
        }),
        width_checks(fields@, fields.len() as int, plan.checks@),
{
    let mut accessors: Vec<Accessor> = Vec::new();
    let mut checks: Vec<WidthCheck> = Vec::new();
    let mut i: usize = 0;
    while i < fields.len()
        invariant
            i <= fields.len(),
            accessors.len() == named_fields(fields@, i as int).len(),
            forall|k: int|
                0 <= k < accessors.len() ==> {
                    let accessor = #[trigger] accessors[k];
                    let at = named_fields(fields@, i as int)[k];
                    &&& accessor.field == at
                    &&& accessor.getter@ == "get_"@ + fields[at].ident.unwrap()@
                    &&& accessor.setter@ == "set_"@ + fields[at].ident.unwrap()@
                },
            width_checks(fields@, i as int, checks@),
        decreases fields.len() - i,
    {
        match &fields[i].ident {
            Some(ident) => {
                accessors.push(
                    Accessor {
                        field: i,
                        getter: concat2("get_", ident.as_str()),
                        setter: concat2("set_", ident.as_str()),
                    },
                );
            },
            None => {},
        }
        let ghost before = checks@;
        match bits_attribute(&fields[i].attrs) {
            Some(attr) => {
                checks.push(WidthCheck { field: i, attr });
                assert(checks@.drop_last() =~= before);
            },
            None => {},
        }
        i += 1;
    }
    BitfieldPlan { accessors, checks }
}

/// The sum of the widths from place `from` on.
pub open spec fn widths_from(widths: Seq<usize>, from: int) -> int
    decreases widths.len() - from,
{
    if from < 0 || from >= widths.len() {
        0
    } else {
        widths[from] + widths_from(widths, from + 1)
    }
}

/// The offset of field `i`: the sum of the widths of the fields behind it.
/// The first field lies highest.
pub fn field_offset(widths: &Vec<usize>, i: usize) -> (offset: usize)
    requires
        i < widths.len(),
        widths_from(widths@, 0) <= usize::MAX,
    ensures
        offset == widths_from(widths@, i + 1),
{
    let mut offset: usize = 0;
    let mut k: usize = widths.len();
    proof {
        lemma_widths_grow(widths@, 0, i + 1);
    }
    while k > i + 1
        invariant
            i + 1 <= k <= widths.len(),
            offset == widths_from(widths@, k as int),
            widths_from(widths@, i + 1) <= usize::MAX,
        decreases k,
    {
        k -= 1;
        proof {
            lemma_widths_grow(widths@, i + 1, k as int);
        }
        offset = offset + widths[k];
    }
    offset
}

proof fn lemma_widths_grow(widths: Seq<usize>, a: int, b: int)
    requires
        0 <= a <= b <= widths.len(),
    ensures
        0 <= widths_from(widths, b) <= widths_from(widths, a),
    decreases widths.len() - a,
{
    if a < b {
        lemma_widths_grow(widths, a + 1, b);
    } else {
        lemma_widths_nonnegative(widths, b);
    }
}

proof fn lemma_widths_nonnegative(widths: Seq<usize>, a: int)
    ensures
        0 <= widths_from(widths, a),
    decreases widths.len() - a,
{
    if 0 <= a < widths.len() {
        lemma_widths_nonnegative(widths, a + 1);
    }
}

/// Why a struct cannot be packed.
#[derive(Clone, Copy, Debug, PartialEq, Eq, Structural)]
pub enum LayoutError {
    /// The widths add up to more than a `usize` holds.
    TooWide,
    /// The widths do not add up to whole bytes. It holds what is left over
    /// of the last byte.
    NotMultipleOfEight(usize),
}

/// The number of bytes that the fields take, where they fill whole bytes.
pub fn data_len(widths: &Vec<usize>) -> (len: Result<usize, LayoutError>)
    ensures
        match len {
            Ok(bytes) => widths_from(widths@, 0) == 8 * bytes,
            Err(LayoutError::TooWide) => widths_from(widths@, 0) > usize::MAX,
            Err(LayoutError::NotMultipleOfEight(rest)) => widths_from(widths@, 0) <= usize::MAX
                && rest == widths_from(widths@, 0) % 8 && rest != 0,
        },
{
    let mut total: usize = 0;
    let mut k: usize = widths.len();
    while k > 0
        invariant
            k <= widths.len(),
            total == widths_from(widths@, k as int),
        decreases k,
    {
        k -= 1;
        match total.checked_add(widths[k]) {
            Some(sum) => {
                total = sum;
            },
            None => {
                proof {
                    lemma_widths_grow(widths@, 0, k as int);
                }
                return Err(LayoutError::TooWide);
            },
        }
    }
    if total % 8 == 0 {
        Ok(total / 8)
    } else {
        Err(LayoutError::NotMultipleOfEight(total % 8))
    }
}

/// The exponent of `n` where `n` is a power of two.
pub fn exact_log2(n: usize) -> (bits: Option<u32>)
    ensures
        match bits {
            Some(k) => n == pow2(k as nat),
            None => forall|k: nat| n != pow2(k),
        },
{
    let mut p: usize = 1;
    let mut k: u32 = 0;
    proof {
        vstd::arithmetic::power2::lemma2_to64();
    }
    while p < n && p <= usize::MAX / 2
        invariant
            1 <= p,
            p == pow2(k as nat),
            k < usize::BITS,
            forall|j: nat| j < k ==> pow2(j) < n,
        decreases usize::BITS - k,
    {
        proof {
            lemma_pow2_unfold((k + 1) as nat);
            assert forall|j: nat| j < k + 1 implies pow2(j) < n by {
                if j >= k {
                    assert(j == k);
                }
            }
            if k + 1 >= usize::BITS {
                let width = usize::BITS as nat;
                vstd::arithmetic::power2::lemma2_to64();
                assert(pow2(width) > usize::MAX);
                if k + 1 > width {
                    lemma_pow2_strictly_increases(width, (k + 1) as nat);
                }
            }
        }
        p = p * 2;
        k = k + 1;
    }
    if p == n {
        Some(k)
    } else {
        proof {
            assert forall|j: nat| n != pow2(j) by {
                if j < k {
                } else if j == k {
                } else {
                    lemma_pow2_unfold((k + 1) as nat);
                    if j > k + 1 {
                        lemma_pow2_strictly_increases((k + 1) as nat, j);
                    }
                }
            }
        }
        None
    }
}

/// Why no specifier is generated.
pub struct Refusal {
    pub message: String,
}

/// What is generated for an enum.
pub struct SpecifierPlan {
    /// The width of the field.
    pub bits: u32,
    /// The name of the width type that the enum takes its width from.
    pub width_name: String,
}

/// Plans the specifier of an enum.
///
/// The number of variants must be a power of two. Its exponent is the
/// width, and the width type is named `B` with the width behind it.
pub fn derive_bitfield_specifier(input: &DeriveInput) -> (result: Result<SpecifierPlan, Refusal>)
    ensures
        match result {
            Ok(plan) => input.data is Enum && input.data->Enum_0.len() == pow2(plan.bits as nat)
                && plan.width_name@ == "B"@ + decimal(plan.bits as nat),
            Err(refusal) => if input.data is Enum {
                (forall|k: nat| input.data->Enum_0.len() != pow2(k)) && refusal.message@
                    == "BitfieldSpecifier expected a number of variants which is a power of 2"@
            } else {
                refusal.message@ == "BitfieldSpecifier can only use for enum"@
            },
        },
{
    match &input.data {
        Data::Enum(variants) => match exact_log2(variants.len()) {
            Some(bits) => {
                let digits = to_decimal(bits as usize);
                Ok(SpecifierPlan { bits, width_name: concat2("B", digits.as_str()) })
            },
            None => Err(
                Refusal {
                    message: String::from_str(
                        "BitfieldSpecifier expected a number of variants which is a power of 2",
                    ),
                },
            ),
        },
        _ => Err(Refusal { message: String::from_str("BitfieldSpecifier can only use for enum") }),
    }
}

/// Whether every discriminant of an enum fits the width of its field.
pub fn discriminants_fit(discriminants: &Vec<usize>, bits: u32) -> (fit: bool)
    requires
        bits < usize::BITS,
    ensures
        fit <==> forall|i: int|
            0 <= i < discriminants.len() ==> (#[trigger] discriminants[i]) < pow2(bits as nat),
{
    let mut max: usize = 0;
    let mut i: usize = 0;
    while i < discriminants.len()
        invariant
            i <= discriminants.len(),
            forall|j: int| 0 <= j < i ==> (#[trigger] discriminants[j]) <= max,
            i == 0 ==> max == 0,
            i > 0 ==> exists|j: int| 0 <= j < i && (#[trigger] discriminants[j]) == max,
        decreases discriminants.len() - i,
    {
        if max < discriminants[i] {
            max = discriminants[i];
        }
        i += 1;
    }
    proof {
        vstd::bits::lemma_usize_pow2_no_overflow(bits as nat);
        vstd::bits::lemma_usize_shl_is_mul(1, bits as usize);
    }
    let limit: usize = 1usize << (bits as usize);
    max < limit
}

} // verus!
