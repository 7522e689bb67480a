//! Block properties: how the property table describes them, and the
//! enumeration of variants each one stands for.

use vstd::prelude::*;
use crate::text::{
    copy_strings, decimal, decimal_text, distinct, first_match, lemma_first_match, same_text,
    texts,
};

verus! {

/// Why a conversion between properties, indices and state ids was refused.
#[derive(Clone, Copy, Debug, PartialEq, Eq, Structural)]
pub enum CodecError {
    /// The block is not one of the blocks the property group was made for.
    BlockNotHandled,
    /// The index is not below the number of variants or tuples.
    IndexOutOfRange,
    /// The state id is not one of the block's states.
    StateOutOfRange,
    /// The values are not one valid variant for each property of the group.
    InvalidValues,
    /// No property of the group has the given name.
    UnknownKey,
    /// The property has no variant with the given text.
    UnknownValue,
}

/// The kind of a property in the property table.
#[derive(Debug)]
pub enum GeneratedPropertyType {
    Boolean,
    Int { min: u8, max: u8 },
    Enum { values: Vec<String> },
}

/// A row of the property table.
#[derive(Debug)]
pub struct GeneratedProperty {
    pub hash_key: i32,
    pub enum_name: String,
    pub serialized_name: String,
    pub property_type: GeneratedPropertyType,
}

/// A property with its variants spelled out.
#[derive(Debug)]
pub struct Property {
    pub enum_name: String,
    pub serialized_name: String,
    pub values: Vec<String>,
}

/// The two variants of a boolean property: `true` comes first.
pub open spec fn boolean_values() -> Seq<Seq<char>> {
    seq!["true"@, "false"@]
}

/// The variant of an integer property that stands for `n`.
pub open spec fn number_variant(n: nat) -> Seq<char> {
    seq!['L'] + decimal(n)
}

/// The variants of an integer property over `min..=max`, in rising order.
pub open spec fn number_values(min: u8, max: u8) -> Seq<Seq<char>> {
    Seq::new(
        if min <= max {
            (max - min + 1) as nat
        } else {
            0nat
        },
        |i: int| number_variant((min + i) as nat),
    )
}

/// The name under which an integer property over `min..=max` is known.
pub open spec fn number_enum_name(min: u8, max: u8) -> Seq<char> {
    "integer_"@ + decimal(min as nat) + "_to_"@ + decimal(max as nat)
}

impl GeneratedProperty {
    /// The name under which the property's variants are known.
    pub open spec fn spec_enum_name(&self) -> Seq<char> {
        match self.property_type {
            GeneratedPropertyType::Boolean => "boolean"@,
            GeneratedPropertyType::Int { min, max } => number_enum_name(min, max),
            GeneratedPropertyType::Enum { .. } => self.enum_name@,
        }
    }

    /// The property's variants, in order.
    pub open spec fn spec_values(&self) -> Seq<Seq<char>> {
        match self.property_type {
            GeneratedPropertyType::Boolean => boolean_values(),
            GeneratedPropertyType::Int { min, max } => number_values(min, max),
            GeneratedPropertyType::Enum { values } => texts(values@),
        }
    }

    /// Spells the property out: its name and its variants.
    pub fn to_property(&self) -> (r: Property)
        ensures
            r.enum_name@ == self.spec_enum_name(),
            r.serialized_name@ == self.serialized_name@,
            texts(r.values@) == self.spec_values(),
    {
        let enum_name = match &self.property_type {
            GeneratedPropertyType::Boolean => String::from_str("boolean"),
            GeneratedPropertyType::Int { min, max } => {
                let mut name = String::from_str("integer_");
                name.append(decimal_text(*min).as_str());
                name.append("_to_");
                name.append(decimal_text(*max).as_str());
                name
            },
            GeneratedPropertyType::Enum { .. } => self.enum_name.clone(),
        };
        let values = match &self.property_type {
            GeneratedPropertyType::Boolean => {
                let mut values: Vec<String> = Vec::new();
                values.push(String::from_str("true"));
                values.push(String::from_str("false"));
                assert(texts(values@) =~= boolean_values());
                values
            },
            GeneratedPropertyType::Int { min, max } => {
                let mut values: Vec<String> = Vec::new();
                let mut i: u16 = *min as u16;
                while i <= *max as u16
                    invariant
                        *min <= i <= *max + 1 || (*min > *max && i == *min),
                        values.len() == if *min <= *max {
                            i - *min
                        } else {
                            0
                        },
                        forall|j: int|
                            0 <= j < values.len() ==> values@[j]@ == number_variant(
                                (*min + j) as nat,
                            ),
                    decreases *max + 1 - i,
                {
                    let mut value = String::from_str("L");
                    proof {
                        reveal_strlit("L");
                        assert("L"@ =~= seq!['L']);
                    }
                    value.append(decimal_text(i as u8).as_str());
                    values.push(value);
                    i += 1;
                }
                assert(texts(values@) =~= number_values(*min, *max));
                values
            },
            GeneratedPropertyType::Enum { values } => copy_strings(values),
        };
        Property { enum_name, serialized_name: self.serialized_name.clone(), values }
    }
}

/// One of the ten decimal digits.
pub open spec fn is_digit(c: char) -> bool {
    c == '0' || c == '1' || c == '2' || c == '3' || c == '4' || c == '5' || c == '6' || c == '7'
        || c == '8' || c == '9'
}

/// The text is an `L` followed by one or more decimal digits: the form of a
/// variant that stands for a number.
pub open spec fn is_number_text(text: Seq<char>) -> bool {
    &&& text.len() >= 2
    &&& text[0] == 'L'
    &&& forall|j: int| 1 <= j < text.len() ==> is_digit(#[trigger] text[j])
}

/// The variants stand for numbers: there is one at least, and each is an
/// `L` followed by decimal digits.
pub open spec fn is_number_values(values: Seq<Seq<char>>) -> bool {
    &&& values.len() >= 1
    &&& forall|i: int| 0 <= i < values.len() ==> is_number_text(#[trigger] values[i])
}

/// The text of variant `i` in a block's serialized form: a variant that
/// stands for a number is written as that number.
pub open spec fn serialized(values: Seq<Seq<char>>, i: int) -> Seq<char> {
    if is_number_values(values) {
        values[i].skip(1)
    } else {
        values[i]
    }
}

/// The serialized texts of all variants, in order.
pub open spec fn serialized_values(values: Seq<Seq<char>>) -> Seq<Seq<char>> {
    Seq::new(values.len(), |i: int| serialized(values, i))
}

/// The first variant with a given serialized text, if there is one.
pub open spec fn variant_of(values: Seq<Seq<char>>, text: Seq<char>) -> Result<u16, CodecError> {
    let i = first_match(serialized_values(values), text);
    if i < values.len() {
        Ok(i as u16)
    } else {
        Err(CodecError::UnknownValue)
    }
}

/// An enumeration of property variants.
#[derive(Debug)]
pub struct PropertyStruct {
    pub name: String,
    pub values: Vec<String>,
}

impl PropertyStruct {
    /// The texts of the variants, in order.
    pub open spec fn variants(&self) -> Seq<Seq<char>> {
        texts(self.values@)
    }

    /// A copy of the enumeration.
    pub fn duplicate(&self) -> (r: PropertyStruct)
        ensures
            r.name@ == self.name@,
            r.variants() == self.variants(),
    {
        PropertyStruct { name: self.name.clone(), values: copy_strings(&self.values) }
    }

    /// The number of variants.
    pub fn variant_count(&self) -> (r: u16)
        requires
            self.values@.len() <= u16::MAX,
        ensures
            r == self.variants().len(),
    {
        self.values.len() as u16
    }

    /// Whether the variants are `true` and `false`, in this order.
    pub fn is_boolean(&self) -> (r: bool)
        ensures
            r == (self.variants() == boolean_values()),
    {
        if self.values.len() != 2 {
            assert(self.variants().len() != boolean_values().len());
            return false;
        }
        let r = same_text(self.values[0].as_str(), "true") && same_text(
            self.values[1].as_str(),
            "false",
        );
        proof {
            if r {
                assert(self.variants() =~= boolean_values());
            } else {
                assert(self.variants()[0] == self.values@[0]@);
                assert(self.variants()[1] == self.values@[1]@);
            }
        }
        r
    }

    /// Whether the variants stand for numbers.
    pub fn is_number_values(&self) -> (r: bool)
        ensures
            r == is_number_values(self.variants()),
    {
        if self.values.len() == 0 {
            return false;
        }
        let mut i: usize = 0;
        while i < self.values.len()
            invariant
                i <= self.values.len(),
                forall|k: int| 0 <= k < i ==> is_number_text(#[trigger] self.variants()[k]),
            decreases self.values.len() - i,
        {
            let value = self.values[i].as_str();
            assert(self.variants()[i as int] == value@);
            let n = value.unicode_len();
            if n < 2 || value.get_char(0) != 'L' {
                return false;
            }
            let mut j: usize = 1;
            while j < n
                invariant
                    1 <= j <= n,
                    n == value@.len(),
                    i < self.values.len(),
                    self.variants()[i as int] == value@,
                    forall|k: int| 1 <= k < j ==> is_digit(#[trigger] value@[k]),
                decreases n - j,
            {
                let c = value.get_char(j);
                let digit = c == '0' || c == '1' || c == '2' || c == '3' || c == '4' || c == '5'
                    || c == '6' || c == '7' || c == '8' || c == '9';
                if !digit {
                    assert(!is_digit(self.variants()[i as int][j as int]));
                    assert(!is_number_text(self.variants()[i as int]));
                    return false;
                }
                j += 1;
            }
            i += 1;
        }
        true
    }

    /// The variant with an index: the index itself.
    pub fn from_index(&self, index: u16) -> (r: u16)
        requires
            index < self.variants().len(),
        ensures
            r == index,
    {
        index
    }

    /// The serialized text of a variant.
    pub fn to_value(&self, index: u16) -> (r: String)
        requires
            index < self.variants().len(),
        ensures
            r@ == serialized(self.variants(), index as int),
    {
        let value = self.values[index as usize].as_str();
        assert(self.variants()[index as int] == value@);
        if self.is_number_values() {
            let n = value.unicode_len();
            let tail = value.substring_char(1, n);
            assert(value@.subrange(1, n as int) =~= value@.skip(1));
            String::from_str(tail)
        } else {
            String::from_str(value)
        }
    }

    /// Whether a variant has a given serialized text.
    pub fn has_value(&self, value: &str) -> (r: bool)
        requires
            self.values@.len() <= u16::MAX,
        ensures
            r == (variant_of(self.variants(), value@) is Ok),
    {
        self.find_value(value).is_ok()
    }

    /// The first variant with a given serialized text.
    pub fn from_value(&self, value: &str) -> (r: u16)
        requires
            self.values@.len() <= u16::MAX,
            variant_of(self.variants(), value@) is Ok,
        ensures
            variant_of(self.variants(), value@) == Ok::<u16, CodecError>(r),
            r < self.variants().len(),
    {
        match self.find_value(value) {
            Ok(i) => i,
            Err(_) => vstd::pervasive::unreached(),
        }
    }

    /// The first variant with a given serialized text, or that there is
    /// none.
    pub(crate) fn find_value(&self, value: &str) -> (r: Result<u16, CodecError>)
        requires
            self.values@.len() <= u16::MAX,
        ensures
            r == variant_of(self.variants(), value@),
            r matches Ok(i) ==> i < self.variants().len(),
    {
        let numbers = self.is_number_values();
        let mut i: usize = 0;
        while i < self.values.len()
            invariant
                i <= self.values.len(),
                self.values@.len() <= u16::MAX,
                numbers == is_number_values(self.variants()),
                forall|j: int| 0 <= j < i ==> serialized(self.variants(), j) != value@,
            decreases self.values.len() - i,
        {
            let candidate = self.values[i].as_str();
            assert(self.variants()[i as int] == candidate@);
            let found = if numbers {
                assert(is_number_text(self.variants()[i as int]));
                let n = candidate.unicode_len();
                let tail = candidate.substring_char(1, n);
                assert(candidate@.subrange(1, n as int) =~= candidate@.skip(1));
                same_text(tail, value)
            } else {
                same_text(candidate, value)
            };
            if found {
                proof {
                    lemma_first_match(serialized_values(self.variants()), value@, i as int);
                }
                return Ok(i as u16);
            }
            i += 1;
        }
        proof {
            lemma_first_match(serialized_values(self.variants()), value@, i as int);
        }
        Err(CodecError::UnknownValue)
    }
}

/// The decimal numeral of a number is one or more decimal digits.
pub proof fn lemma_decimal_digits(n: nat)
    ensures
        decimal(n).len() >= 1,
        forall|j: int| 0 <= j < decimal(n).len() ==> is_digit(#[trigger] decimal(n)[j]),
    decreases n,
{
    if n >= 10 {
        lemma_decimal_digits(n / 10);
    }
}

/// Variants that differ as texts differ as serialized texts.
pub proof fn lemma_serialized_distinct(values: Seq<Seq<char>>)
    requires
        distinct(values),
    ensures
        distinct(serialized_values(values)),
{
    assert forall|i: int, j: int| 0 <= i < j < values.len() implies serialized(values, i)
        != serialized(values, j) by {
        if is_number_values(values) && values[i].skip(1) == values[j].skip(1) {
            assert(is_number_text(values[i]) && is_number_text(values[j]));
            assert(values[i] =~= seq!['L'] + values[i].skip(1));
            assert(values[j] =~= seq!['L'] + values[j].skip(1));
        }
    }
}

/// Where no two variants have the same text, the text written for a variant
/// is read as that variant.
pub proof fn law_text_round_trip(values: Seq<Seq<char>>, i: int)
    requires
        distinct(values),
        0 <= i < values.len() <= u16::MAX,
    ensures
        variant_of(values, serialized(values, i)) == Ok::<u16, CodecError>(i as u16),
{
    lemma_serialized_distinct(values);
    let texts = serialized_values(values);
    assert(texts[i] == serialized(values, i));
    lemma_first_match(texts, texts[i], i);
}

/// The variants of an integer property are written as decimal numerals,
/// whatever its range: the variant at place `i` as the numeral of `min + i`.
pub proof fn law_numbers_serialize_as_decimal(min: u8, max: u8, i: int)
    requires
        min <= max,
        0 <= i <= max - min,
    ensures
        is_number_values(number_values(min, max)),
        serialized(number_values(min, max), i) == decimal((min + i) as nat),
{
    let values = number_values(min, max);
    assert forall|k: int| 0 <= k < values.len() implies is_number_text(#[trigger] values[k]) by {
        let n = (min + k) as nat;
        lemma_decimal_digits(n);
        assert(values[k] == number_variant(n));
        assert forall|j: int| 1 <= j < values[k].len() implies is_digit(
            #[trigger] values[k][j],
        ) by {
            assert(values[k][j] == decimal(n)[j - 1]);
        }
    }
    assert(values[i].skip(1) =~= decimal((min + i) as nat));
}

/// How a property of a group is typed: as a truth value, or as a variant of
/// a named enumeration.
#[derive(Debug)]
pub enum PropertyType {
    Bool,
    Enum { name: String },
}

/// A property of a group: its serialized name and its type.
#[derive(Debug)]
pub struct PropertyVariantMapping {
    pub original_name: String,
    pub property_type: PropertyType,
}

/// The properties that a family of blocks shares, and the blocks of the
/// family by name and id.
#[derive(Debug)]
pub struct PropertyCollectionData {
    pub variant_mappings: Vec<PropertyVariantMapping>,
    pub blocks: Vec<(String, u16)>,
}

impl PropertyCollectionData {
    /// The ids of the family's blocks, in the order they were added.
    pub open spec fn block_ids(&self) -> Seq<u16> {
        Seq::new(self.blocks@.len(), |i: int| self.blocks@[i].1)
    }

    /// Adds a block to the family.
    pub fn add_block(&mut self, block_name: String, block_id: u16)
        ensures
            final(self).blocks@ == old(self).blocks@.push((block_name, block_id)),
            final(self).variant_mappings == old(self).variant_mappings,
    {
        self.blocks.push((block_name, block_id));
    }

    /// A family with the given properties and no block yet.
    pub fn from_mappings(variant_mappings: Vec<PropertyVariantMapping>) -> (r: Self)
        ensures
            r.variant_mappings == variant_mappings,
            r.blocks@.len() == 0,
    {
        Self { variant_mappings, blocks: Vec::new() }
    }

    /// The family's name: that of its first block, followed by `_like`.
    pub fn derive_name(&self) -> (r: String)
        requires
            self.blocks@.len() > 0,
        ensures
            r@ == self.blocks@[0].0@ + crate::names::like_suffix(),
    {
        let mut name = self.blocks[0].0.clone();
        name.append("_like");
        name
    }
}

} // verus!
