//! Names derived from block and property names by case conversion.

use vstd::prelude::*;

verus! {

/// The SHOUTY_SNAKE_CASE form of a text, as `heck` computes it.
pub uninterp spec fn shouty_snake_case(s: Seq<char>) -> Seq<char>;

/// The UpperCamelCase form of a text, as `heck` computes it.
pub uninterp spec fn upper_camel_case(s: Seq<char>) -> Seq<char>;

/// Calls `heck::ToShoutySnakeCase::to_shouty_snake_case` on the text. The
/// result depends on the text alone; the contract gives it its name and
/// claims nothing else of it.
#[verifier::external_body]
fn to_shouty_snake_case(s: &str) -> (r: String)
    ensures
        r@ == shouty_snake_case(s@),
{
    heck::ToShoutySnakeCase::to_shouty_snake_case(s)
}

/// Calls `heck::ToUpperCamelCase::to_upper_camel_case` on the text. The
/// result depends on the text alone; the contract gives it its name and
/// claims nothing else of it.
#[verifier::external_body]
fn to_upper_camel_case(s: &str) -> (r: String)
    ensures
        r@ == upper_camel_case(s@),
{
    heck::ToUpperCamelCase::to_upper_camel_case(s)
}

/// The text a block's name is followed by to name its family of blocks.
pub open spec fn like_suffix() -> Seq<char> {
    "_like"@
}

/// The text a family's name is followed by to name its property group.
pub open spec fn properties_suffix() -> Seq<char> {
    "_properties"@
}

/// Name of the constant that stands for a block.
pub fn const_block_name_from_block_name(block: &str) -> (r: String)
    ensures
        r@ == shouty_snake_case(block@),
{
    to_shouty_snake_case(block)
}

/// Name of the enumeration that stands for a property.
pub fn enum_name_from_property_name(name: &str) -> (r: String)
    ensures
        r@ == upper_camel_case(name@),
{
    to_upper_camel_case(name)
}

/// Name of the instrument of a block state among the instruments.
pub fn instrument_name(instrument: &str) -> (r: String)
    ensures
        r@ == upper_camel_case(instrument@),
{
    to_upper_camel_case(instrument)
}

/// Name of the property group of a family of blocks.
pub fn property_group_name_from_derived_name(name: &str) -> (r: String)
    ensures
        r@ == upper_camel_case(name@ + properties_suffix()),
{
    let mut full = String::from_str(name);
    full.append("_properties");
    to_upper_camel_case(full.as_str())
}

} // verus!
