//! Property groups with named fields, for the families of blocks whose
//! behaviour reads single properties.
//!
//! Each group numbers its values as the catalog's groups do: the fields are
//! the digits of a mixed-radix number, the last declared field the least
//! significant, and a truth value counts 0 for `true` and 1 for `false`.

use vstd::prelude::*;
use crate::block::{OptimizedBlock, OptimizedBlockView};
use crate::codec::{
    decode, decode_index, encode, encode_digits, lemma_decode_encode, lemma_decode_valid,
    lemma_encode_bound, product, valid_digits, valid_layout,
};
use crate::direction::HorizontalFacing;
use crate::group::{pair_texts, refusal};
use crate::property::{
    boolean_values, law_text_round_trip, serialized, variant_of, CodecError, PropertyStruct,
};
use crate::text::{distinct, first_match, lemma_first_match, same_text};

verus! {

/// The digit of a truth value.
pub open spec fn bool_digit(b: bool) -> u16 {
    if b {
        0
    } else {
        1
    }
}

/// The digit of a truth value.
pub fn digit_of(b: bool) -> (r: u16)
    ensures
        r == bool_digit(b),
{
    if b {
        0
    } else {
        1
    }
}

/// The number of values of a group.
pub open spec fn size_of<T: BlockProperties>() -> int {
    product(T::layout())
}

/// The index of a value.
pub open spec fn index_of<T: BlockProperties>(value: &T) -> int {
    encode(T::layout(), value.digits())
}

/// The digits of the value with an index.
pub open spec fn digits_at<T: BlockProperties>(index: u16) -> Result<Seq<u16>, CodecError> {
    if index < size_of::<T>() {
        Ok(decode(T::layout(), index as int))
    } else {
        Err(CodecError::IndexOutOfRange)
    }
}

/// The state id of a value of a block: the id of the block's first state
/// plus the value's index.
pub open spec fn state_id_of<T: BlockProperties>(value: &T, block: OptimizedBlockView) -> Result<
    u16,
    CodecError,
> {
    if !T::family().contains(block.name) {
        Err(CodecError::BlockNotHandled)
    } else if block.states.len() == 0 || block.first_state_id() + index_of(value)
        > block.last_state_id() {
        Err(CodecError::StateOutOfRange)
    } else {
        Ok((block.first_state_id() + index_of(value)) as u16)
    }
}

/// The digits of the value of a block's state.
pub open spec fn digits_of_state<T: BlockProperties>(
    state_id: u16,
    block: OptimizedBlockView,
) -> Result<Seq<u16>, CodecError> {
    if !T::family().contains(block.name) {
        Err(CodecError::BlockNotHandled)
    } else if block.states.len() == 0 || !block.owns_state(state_id as int) {
        Err(CodecError::StateOutOfRange)
    } else {
        digits_at::<T>((state_id - block.first_state_id()) as u16)
    }
}

/// A typed result has the digits, or the error, of a result over digits.
pub open spec fn typed_agrees<T: BlockProperties>(
    r: Result<T, CodecError>,
    s: Result<Seq<u16>, CodecError>,
) -> bool {
    match (r, s) {
        (Ok(v), Ok(d)) => v.digits() == d && v == T::of_digits(d),
        (Err(e), Err(f)) => e == f,
        _ => false,
    }
}

/// The compass direction at a place in the order north, south, west, east;
/// north for a place beyond.
pub open spec fn facing_at(index: u16) -> HorizontalFacing {
    if index == 1 {
        HorizontalFacing::South
    } else if index == 2 {
        HorizontalFacing::West
    } else if index == 3 {
        HorizontalFacing::East
    } else {
        HorizontalFacing::North
    }
}

/// The way of joining at a place in the order unconnected, right, center,
/// left; unconnected for a place beyond.
pub open spec fn side_chain_at(index: u16) -> SideChain {
    if index == 1 {
        SideChain::Right
    } else if index == 2 {
        SideChain::Center
    } else if index == 3 {
        SideChain::Left
    } else {
        SideChain::Unconnected
    }
}

/// A property group with named fields.
pub trait BlockProperties: Sized {
    /// The number of variants of each field, in declaration order.
    spec fn layout() -> Seq<u16>;

    /// The variant index of each field, in declaration order.
    spec fn digits(&self) -> Seq<u16>;

    /// The names of the blocks that have this group.
    spec fn family() -> Seq<Seq<char>>;

    /// The value with the given digits.
    spec fn of_digits(digits: Seq<u16>) -> Self;

    /// Two values with the same digits are the same value.
    proof fn digits_decide(a: &Self, b: &Self)
        requires
            a.digits() == b.digits(),
        ensures
            a == b,
    ;

    fn radices() -> (r: Vec<u16>)
        ensures
            r@ == Self::layout(),
            valid_layout(r@),
    ;

    fn to_digits(&self) -> (r: Vec<u16>)
        ensures
            r@ == self.digits(),
            valid_digits(Self::layout(), r@),
    ;

    fn from_digits(digits: &Vec<u16>) -> (r: Self)
        requires
            valid_digits(Self::layout(), digits@),
        ensures
            r.digits() == digits@,
            r == Self::of_digits(digits@),
    ;

    /// Whether the block has this group.
    fn handles_block(block: &OptimizedBlock) -> (r: bool)
        ensures
            r == Self::family().contains(block.name@),
    ;

    /// The serialized names of the fields, in declaration order.
    spec fn keys() -> Seq<Seq<char>>;

    /// The texts of the variants of each field, in declaration order.
    spec fn variant_texts() -> Seq<Seq<Seq<char>>>;

    /// For each field, in declaration order, its serialized name with the
    /// texts of its variants.
    fn enumerations() -> (r: Vec<PropertyStruct>)
        ensures
            r@.len() == Self::layout().len(),
            Self::keys().len() == Self::layout().len(),
            Self::variant_texts().len() == Self::layout().len(),
            forall|i: int|
                0 <= i < r@.len() ==> (#[trigger] r@[i]).name@ == Self::keys()[i] && r@[i].variants()
                    == Self::variant_texts()[i] && r@[i].values@.len() == Self::layout()[i],
    ;
}

/// Converts a value to its index.
pub fn to_index<T: BlockProperties>(value: &T) -> (r: u16)
    ensures
        r == index_of(value),
        r < size_of::<T>(),
{
    let radices = T::radices();
    let digits = value.to_digits();
    encode_digits(&radices, &digits)
}

/// Converts an index back to the value it stands for.
pub fn from_index<T: BlockProperties>(index: u16) -> (r: T)
    requires
        index < size_of::<T>(),
    ensures
        typed_agrees(Ok(r), digits_at::<T>(index)),
{
    match try_from_index(index) {
        Ok(value) => value,
        Err(_) => vstd::pervasive::unreached(),
    }
}

/// Converts an index back to the value it stands for, or says that there is
/// none.
pub(crate) fn try_from_index<T: BlockProperties>(index: u16) -> (r: Result<T, CodecError>)
    ensures
        typed_agrees(r, digits_at::<T>(index)),
{
    if index as u32 >= value_count::<T>() {
        return Err(CodecError::IndexOutOfRange);
    }
    let digits = decode_index(&T::radices(), index);
    Ok(T::from_digits(&digits))
}

/// The number of values of a group.
pub fn value_count<T: BlockProperties>() -> (r: u32)
    ensures
        r == size_of::<T>(),
{
    match crate::codec::layout_size(&T::radices()) {
        Some(n) => n,
        None => vstd::pervasive::unreached(),
    }
}

/// Why `to_state_id` cannot be called with a value and a block; `None`
/// where it can.
pub fn to_state_id_refused<T: BlockProperties>(value: &T, block: &OptimizedBlock) -> (r: Option<
    CodecError,
>)
    ensures
        r == refusal(state_id_of(value, block@)),
{
    match try_to_state_id(value, block) {
        Ok(_) => None,
        Err(e) => Some(e),
    }
}

/// Converts a value to the id of the block's state that has it. The block
/// has the group, and a state for the value.
pub fn to_state_id<T: BlockProperties>(value: &T, block: &OptimizedBlock) -> (r: u16)
    requires
        state_id_of(value, block@) is Ok,
    ensures
        state_id_of(value, block@) == Ok::<u16, CodecError>(r),
{
    match try_to_state_id(value, block) {
        Ok(id) => id,
        Err(_) => vstd::pervasive::unreached(),
    }
}

/// Converts a value to the id of the block's state that has it, or says why
/// there is none.
pub(crate) fn try_to_state_id<T: BlockProperties>(value: &T, block: &OptimizedBlock) -> (r: Result<
    u16,
    CodecError,
>)
    ensures
        r == state_id_of(value, block@),
{
    if !T::handles_block(block) {
        return Err(CodecError::BlockNotHandled);
    }
    let index = to_index(value);
    let n = block.states.len();
    if n == 0 {
        return Err(CodecError::StateOutOfRange);
    }
    let first = block.states[0].id;
    let last = block.states[n - 1].id;
    if first as u32 + index as u32 > last as u32 {
        return Err(CodecError::StateOutOfRange);
    }
    Ok(first + index)
}

/// Why `from_state_id` cannot be called for a group with a state id and a
/// block; `None` where it can.
pub fn from_state_id_refused<T: BlockProperties>(state_id: u16, block: &OptimizedBlock) -> (r:
    Option<CodecError>)
    ensures
        r == refusal(digits_of_state::<T>(state_id, block@)),
{
    let tried: Result<T, CodecError> = try_from_state_id(state_id, block);
    match tried {
        Ok(_) => None,
        Err(e) => Some(e),
    }
}

/// Converts the id of a block's state to the value the state has. The block
/// has the group, and the state is one of its states.
pub fn from_state_id<T: BlockProperties>(state_id: u16, block: &OptimizedBlock) -> (r: T)
    requires
        digits_of_state::<T>(state_id, block@) is Ok,
    ensures
        typed_agrees(Ok(r), digits_of_state::<T>(state_id, block@)),
{
    match try_from_state_id(state_id, block) {
        Ok(value) => value,
        Err(_) => vstd::pervasive::unreached(),
    }
}

/// Why `default_of` cannot be called for a group with a block; `None` where
/// it can.
pub fn default_refused<T: BlockProperties>(block: &OptimizedBlock) -> (r: Option<CodecError>)
    ensures
        r == refusal(digits_of_state::<T>(block.default_state_id, block@)),
{
    from_state_id_refused::<T>(block.default_state_id, block)
}

/// The value of the block's default state. The block has the group, and its
/// default state is one of its states.
pub fn default_of<T: BlockProperties>(block: &OptimizedBlock) -> (r: T)
    requires
        digits_of_state::<T>(block.default_state_id, block@) is Ok,
    ensures
        typed_agrees(Ok(r), digits_of_state::<T>(block.default_state_id, block@)),
{
    from_state_id(block.default_state_id, block)
}

/// Converts the id of a block's state to the value the state has, or says
/// why there is none.
pub(crate) fn try_from_state_id<T: BlockProperties>(state_id: u16, block: &OptimizedBlock) -> (r:
    Result<T, CodecError>)
    ensures
        typed_agrees(r, digits_of_state::<T>(state_id, block@)),
{
    if !T::handles_block(block) {
        return Err(CodecError::BlockNotHandled);
    }
    let n = block.states.len();
    if n == 0 {
        return Err(CodecError::StateOutOfRange);
    }
    let first = block.states[0].id;
    let last = block.states[n - 1].id;
    if state_id >= first && state_id <= last {
        try_from_index(state_id - first)
    } else {
        Err(CodecError::StateOutOfRange)
    }
}

/// The value of the block's default state, or why there is none.
pub(crate) fn try_default_of<T: BlockProperties>(block: &OptimizedBlock) -> (r: Result<
    T,
    CodecError,
>)
    ensures
        typed_agrees(r, digits_of_state::<T>(block.default_state_id, block@)),
{
    try_from_state_id(block.default_state_id, block)
}

/// The serialized pairs of a value, in declaration order.
pub open spec fn props_of<T: BlockProperties>(value: &T) -> Seq<(Seq<char>, Seq<char>)> {
    Seq::new(
        T::layout().len(),
        |i: int| (T::keys()[i], serialized(T::variant_texts()[i], value.digits()[i] as int)),
    )
}

/// Digits with one field set from its serialized pair.
pub open spec fn digits_with_prop<T: BlockProperties>(
    digits: Seq<u16>,
    key: Seq<char>,
    value: Seq<char>,
) -> Result<Seq<u16>, CodecError> {
    let i = first_match(T::keys(), key);
    if i >= T::keys().len() {
        Err(CodecError::UnknownKey)
    } else {
        match variant_of(T::variant_texts()[i], value) {
            Ok(v) => Ok(digits.update(i, v)),
            Err(e) => Err(e),
        }
    }
}

/// Digits with fields set from serialized pairs, one after the other; the
/// first pair that cannot be set decides the error.
pub open spec fn digits_with_props<T: BlockProperties>(
    digits: Seq<u16>,
    props: Seq<(Seq<char>, Seq<char>)>,
) -> Result<Seq<u16>, CodecError>
    decreases props.len(),
{
    if props.len() == 0 {
        Ok(digits)
    } else {
        match digits_with_props::<T>(digits, props.drop_last()) {
            Ok(d) => digits_with_prop::<T>(d, props.last().0, props.last().1),
            Err(e) => Err(e),
        }
    }
}

/// The digits of the block's default value with fields set from serialized
/// pairs.
pub open spec fn digits_from_props<T: BlockProperties>(
    props: Seq<(Seq<char>, Seq<char>)>,
    block: OptimizedBlockView,
) -> Result<Seq<u16>, CodecError> {
    match digits_of_state::<T>(block.default_state_id, block) {
        Ok(d) => digits_with_props::<T>(d, props),
        Err(e) => Err(e),
    }
}

/// Once a prefix of the pairs cannot be applied, the whole list cannot, and
/// for the same reason.
proof fn lemma_digits_with_props_fail<T: BlockProperties>(
    start: Seq<u16>,
    props: Seq<(Seq<char>, Seq<char>)>,
    k: int,
)
    requires
        0 <= k <= props.len(),
    ensures
        digits_with_props::<T>(start, props.take(k)) is Err ==> digits_with_props::<T>(
            start,
            props,
        ) == digits_with_props::<T>(start, props.take(k)),
    decreases props.len() - k,
{
    if k < props.len() {
        lemma_digits_with_props_fail::<T>(start, props, k + 1);
        assert(props.take(k + 1).drop_last() =~= props.take(k));
    } else {
        assert(props.take(k) =~= props);
    }
}

/// Converts a value to its `(name, value)` pairs, in declaration order.
pub fn to_props<T: BlockProperties>(value: &T) -> (r: Vec<(String, String)>)
    ensures
        r@.len() == props_of(value).len(),
        forall|i: int|
            0 <= i < r@.len() ==> (#[trigger] r@[i]).0@ == props_of(value)[i].0 && r@[i].1@
                == props_of(value)[i].1,
{
    let enumerations = T::enumerations();
    let digits = value.to_digits();
    let mut props: Vec<(String, String)> = Vec::new();
    let mut i: usize = 0;
    while i < enumerations.len()
        invariant
            i <= enumerations.len(),
            enumerations@.len() == T::layout().len(),
            T::keys().len() == T::layout().len(),
            T::variant_texts().len() == T::layout().len(),
            forall|j: int|
                0 <= j < enumerations@.len() ==> (#[trigger] enumerations@[j]).name@
                    == T::keys()[j] && enumerations@[j].variants() == T::variant_texts()[j]
                    && enumerations@[j].values@.len() == T::layout()[j],
            digits@ == value.digits(),
            valid_digits(T::layout(), digits@),
            props@.len() == i,
            forall|j: int|
                0 <= j < i ==> (#[trigger] props@[j]).0@ == props_of(value)[j].0 && props@[j].1@
                    == props_of(value)[j].1,
        decreases enumerations.len() - i,
    {
        let key = enumerations[i].name.clone();
        assert(enumerations@[i as int].variants().len() == enumerations@[i as int].values@.len());
        let text = enumerations[i].to_value(digits[i]);
        props.push((key, text));
        i += 1;
    }
    props
}

/// Why `from_props` cannot be called for a group with pairs and a block;
/// `None` where it can.
pub fn from_props_refused<T: BlockProperties>(props: &Vec<(&str, &str)>, block: &OptimizedBlock) -> (r:
    Option<CodecError>)
    ensures
        r == refusal(digits_from_props::<T>(pair_texts(props@), block@)),
{
    let tried: Result<T, CodecError> = try_from_props(props, block);
    match tried {
        Ok(_) => None,
        Err(e) => Some(e),
    }
}

/// Builds a value from the block's default value and `(name, value)` pairs,
/// which are applied in order. The block has the group, with its default
/// state among its states; every name is that of a field, and every value
/// the text of one of its variants.
pub fn from_props<T: BlockProperties>(props: Vec<(&str, &str)>, block: &OptimizedBlock) -> (r: T)
    requires
        digits_from_props::<T>(pair_texts(props@), block@) is Ok,
    ensures
        typed_agrees(Ok(r), digits_from_props::<T>(pair_texts(props@), block@)),
{
    match try_from_props(&props, block) {
        Ok(value) => value,
        Err(_) => vstd::pervasive::unreached(),
    }
}

/// Builds a value from the block's default value and `(name, value)` pairs,
/// or says why there is none.
pub(crate) fn try_from_props<T: BlockProperties>(props: &Vec<(&str, &str)>, block: &OptimizedBlock) -> (r:
    Result<T, CodecError>)
    ensures
        typed_agrees(r, digits_from_props::<T>(pair_texts(props@), block@)),
{
    let start: T = match try_default_of(block) {
        Ok(start) => start,
        Err(e) => {
            return Err(e);
        },
    };
    let enumerations = T::enumerations();
    let mut digits = start.to_digits();
    let ghost first = digits@;
    let ghost all = pair_texts(props@);
    let mut i: usize = 0;
    while i < props.len()
        invariant
            i <= props.len(),
            all == pair_texts(props@),
            enumerations@.len() == T::layout().len(),
            T::keys().len() == T::layout().len(),
            T::variant_texts().len() == T::layout().len(),
            forall|j: int|
                0 <= j < enumerations@.len() ==> (#[trigger] enumerations@[j]).name@
                    == T::keys()[j] && enumerations@[j].variants() == T::variant_texts()[j]
                    && enumerations@[j].values@.len() == T::layout()[j],
            valid_digits(T::layout(), digits@),
            digits_of_state::<T>(block.default_state_id, block@) == Ok::<Seq<u16>, CodecError>(
                first,
            ),
            digits_with_props::<T>(first, all.take(i as int)) == Ok::<Seq<u16>, CodecError>(
                digits@,
            ),
        decreases props.len() - i,
    {
        let (key, value) = props[i];
        proof {
            assert(all.take(i + 1).drop_last() =~= all.take(i as int));
            assert(all.take(i + 1).last() == (key@, value@));
            lemma_digits_with_props_fail::<T>(first, all, i + 1);
        }
        let mut k: usize = 0;
        while k < enumerations.len() && !same_text(enumerations[k].name.as_str(), key)
            invariant
                k <= enumerations.len(),
                enumerations@.len() == T::keys().len(),
                forall|j: int|
                    0 <= j < enumerations@.len() ==> (#[trigger] enumerations@[j]).name@
                        == T::keys()[j],
                forall|j: int| 0 <= j < k ==> T::keys()[j] != key@,
            decreases enumerations.len() - k,
        {
            k += 1;
        }
        proof {
            lemma_first_match(T::keys(), key@, k as int);
        }
        if k >= enumerations.len() {
            return Err(CodecError::UnknownKey);
        }
        assert(enumerations@[k as int].variants().len() == enumerations@[k as int].values@.len());
        match enumerations[k].find_value(value) {
            Ok(v) => {
                assert(v < enumerations@[k as int].values@.len());
                assert(T::layout()[k as int] == enumerations@[k as int].values@.len());
                digits.set(k, v);
            },
            Err(e) => {
                return Err(e);
            },
        }
        i += 1;
    }
    proof {
        assert(all.take(i as int) =~= all);
    }
    Ok(T::from_digits(&digits))
}

/// Converting a value of a group to a state id of a block and back gives the
/// value, and the state id is one of the block's states.
pub proof fn law_typed_round_trip<T: BlockProperties>(value: &T, block: OptimizedBlockView)
    requires
        valid_layout(T::layout()),
        valid_digits(T::layout(), value.digits()),
        state_id_of(value, block) is Ok,
    ensures
        block.owns_state(state_id_of(value, block)->Ok_0 as int),
        digits_of_state::<T>(state_id_of(value, block)->Ok_0, block) == Ok::<Seq<u16>, CodecError>(
            value.digits(),
        ),
{
    lemma_encode_bound(T::layout(), value.digits());
    lemma_decode_encode(T::layout(), value.digits());
}

/// Each field has a name and as many variant texts as variants; no two
/// fields have the same name, and no two variants of a field the same text.
pub open spec fn unambiguous<T: BlockProperties>() -> bool {
    &&& T::keys().len() == T::layout().len()
    &&& T::variant_texts().len() == T::layout().len()
    &&& distinct(T::keys())
    &&& forall|i: int|
        0 <= i < T::layout().len() ==> (#[trigger] T::variant_texts()[i]).len() == T::layout()[i]
            && distinct(T::variant_texts()[i])
}

/// Setting the first `k` fields from the pairs written for a value puts the
/// value's digits in their places and leaves the others as they were.
proof fn lemma_with_written<T: BlockProperties>(start: Seq<u16>, value: &T, k: int)
    requires
        unambiguous::<T>(),
        valid_digits(T::layout(), value.digits()),
        start.len() == T::layout().len(),
        0 <= k <= T::layout().len(),
    ensures
        digits_with_props::<T>(start, props_of(value).take(k)) == Ok::<Seq<u16>, CodecError>(
            Seq::new(T::layout().len(), |i: int| if i < k { value.digits()[i] } else { start[i] }),
        ),
    decreases k,
{
    let pairs = props_of(value);
    let digits = value.digits();
    let mixed = |n: int|
        Seq::new(T::layout().len(), |i: int| if i < n { digits[i] } else { start[i] });
    if k == 0 {
        assert(pairs.take(0).len() == 0);
        assert(mixed(0) =~= start);
    } else {
        let at = k - 1;
        lemma_with_written::<T>(start, value, at);
        assert(pairs.take(k).drop_last() =~= pairs.take(at));
        assert(pairs.take(k).last() == pairs[at]);
        let variants = T::variant_texts()[at];
        assert(digits[at] < T::layout()[at]);
        assert(digits[at] < variants.len());
        lemma_first_match(T::keys(), T::keys()[at], at);
        law_text_round_trip(variants, digits[at] as int);
        assert(variant_of(variants, pairs[at].1) == Ok::<u16, CodecError>(digits[at]));
        assert(mixed(at).update(at, digits[at]) =~= mixed(k));
    }
}

/// Where no two fields have the same name and no two variants of a field
/// the same text, reading the pairs written for a value gives the value's
/// digits back, whatever the block's default value is.
pub proof fn law_typed_props_round_trip<T: BlockProperties>(value: &T, block: OptimizedBlockView)
    requires
        valid_layout(T::layout()),
        unambiguous::<T>(),
        valid_digits(T::layout(), value.digits()),
        digits_of_state::<T>(block.default_state_id, block) is Ok,
    ensures
        digits_from_props::<T>(props_of(value), block) == Ok::<Seq<u16>, CodecError>(
            value.digits(),
        ),
{
    let start = digits_of_state::<T>(block.default_state_id, block)->Ok_0;
    let pairs = props_of(value);
    let n = T::layout().len() as int;
    lemma_decode_valid(T::layout(), block.default_state_id - block.first_state_id());
    lemma_with_written::<T>(start, value, n);
    assert(pairs.take(n) =~= pairs);
    assert(Seq::new(
        T::layout().len(),
        |i: int| if i < n { value.digits()[i] } else { start[i] },
    ) =~= value.digits());
}

/// For a block that does not have the group, no conversion that takes a
/// block can be called: the condition of each fails, and the test that
/// stands beside it answers `BlockNotHandled`.
pub proof fn law_typed_unhandled<T: BlockProperties>(
    value: &T,
    block: OptimizedBlockView,
    state_id: u16,
    props: Seq<(Seq<char>, Seq<char>)>,
)
    requires
        !T::family().contains(block.name),
    ensures
        state_id_of(value, block) == Err::<u16, CodecError>(CodecError::BlockNotHandled),
        digits_of_state::<T>(state_id, block) == Err::<Seq<u16>, CodecError>(
            CodecError::BlockNotHandled,
        ),
        digits_from_props::<T>(props, block) == Err::<Seq<u16>, CodecError>(
            CodecError::BlockNotHandled,
        ),
{
}

/// The texts of the four compass directions, in the order north, south,
/// west, east.
pub open spec fn facing_texts() -> Seq<Seq<char>> {
    seq!["north"@, "south"@, "west"@, "east"@]
}

/// The texts of the ways a shelf joins its neighbours.
pub open spec fn side_chain_texts() -> Seq<Seq<char>> {
    seq!["unconnected"@, "right"@, "center"@, "left"@]
}

/// The enumeration of a field with the given variants.
fn enumeration(name: &str, texts: Vec<&'static str>) -> (r: PropertyStruct)
    ensures
        r.name@ == name@,
        r.values@.len() == texts@.len(),
        r.variants().len() == texts@.len(),
        forall|i: int| 0 <= i < texts@.len() ==> r.variants()[i] == (#[trigger] texts@[i])@,
{
    let mut values: Vec<String> = Vec::new();
    let mut i: usize = 0;
    while i < texts.len()
        invariant
            i <= texts.len(),
            values@.len() == i,
            forall|j: int| 0 <= j < i ==> (#[trigger] values@[j])@ == texts@[j]@,
        decreases texts.len() - i,
    {
        values.push(String::from_str(texts[i]));
        i += 1;
    }
    PropertyStruct { name: String::from_str(name), values }
}

/// The enumeration of a field that is a truth value.
fn truth(name: &str) -> (r: PropertyStruct)
    ensures
        r.name@ == name@,
        r.values@.len() == 2,
        r.variants() == boolean_values(),
{
    let mut texts: Vec<&'static str> = Vec::new();
    texts.push("true");
    texts.push("false");
    let ghost list = texts@;
    let r = enumeration(name, texts);
    proof {
        assert(r.variants()[0] == list[0]@);
        assert(r.variants()[1] == list[1]@);
        assert(r.variants() =~= boolean_values());
    }
    r
}

/// The enumeration of a field that is a compass direction.
fn compass(name: &str) -> (r: PropertyStruct)
    ensures
        r.name@ == name@,
        r.values@.len() == 4,
        r.variants() == facing_texts(),
{
    let mut texts: Vec<&'static str> = Vec::new();
    texts.push("north");
    texts.push("south");
    texts.push("west");
    texts.push("east");
    let ghost list = texts@;
    let r = enumeration(name, texts);
    proof {
        assert(r.variants()[0] == list[0]@);
        assert(r.variants()[1] == list[1]@);
        assert(r.variants()[2] == list[2]@);
        assert(r.variants()[3] == list[3]@);
        assert(r.variants() =~= facing_texts());
    }
    r
}

/// The properties of a tripwire hook.
#[derive(Clone, Copy, Debug, PartialEq, Eq, Structural)]
pub struct TripwireHookLikeProperties {
    pub facing: HorizontalFacing,
    pub powered: bool,
    pub attached: bool,
}

impl BlockProperties for TripwireHookLikeProperties {
    open spec fn layout() -> Seq<u16> {
        seq![4u16, 2u16, 2u16]
    }

    open spec fn digits(&self) -> Seq<u16> {
        seq![self.facing.spec_index(), bool_digit(self.powered), bool_digit(self.attached)]
    }

    open spec fn family() -> Seq<Seq<char>> {
        seq!["tripwire_hook"@]
    }

    open spec fn of_digits(digits: Seq<u16>) -> Self {
        TripwireHookLikeProperties {
            facing: facing_at(digits[0]),
            powered: digits[1] == 0,
            attached: digits[2] == 0,
        }
    }

    proof fn digits_decide(a: &Self, b: &Self) {
        assert(a.digits()[0] == b.digits()[0]);
        assert(a.digits()[1] == b.digits()[1]);
        assert(a.digits()[2] == b.digits()[2]);
    }

    fn radices() -> (r: Vec<u16>) {
        let mut r: Vec<u16> = Vec::new();
        r.push(4);
        r.push(2);
        r.push(2);
        proof {
            assert(r@ =~= Self::layout());
            lemma_layout_three(4, 2, 2);
        }
        r
    }

    fn to_digits(&self) -> (r: Vec<u16>) {
        let mut r: Vec<u16> = Vec::new();
        r.push(self.facing.to_index());
        r.push(digit_of(self.powered));
        r.push(digit_of(self.attached));
        proof {
            assert(r@ =~= self.digits());
        }
        r
    }

    fn from_digits(digits: &Vec<u16>) -> (r: Self) {
        assert(Self::layout()[0] == 4 && Self::layout()[1] == 2 && Self::layout()[2] == 2);
        let facing = match HorizontalFacing::from_index(digits[0]) {
            Some(f) => f,
            None => HorizontalFacing::North,
        };
        let r = TripwireHookLikeProperties {
            facing,
            powered: digits[1] == 0,
            attached: digits[2] == 0,
        };
        assert(r.digits() =~= digits@);
        r
    }

    open spec fn keys() -> Seq<Seq<char>> {
        seq!["facing"@, "powered"@, "attached"@]
    }

    open spec fn variant_texts() -> Seq<Seq<Seq<char>>> {
        seq![facing_texts(), boolean_values(), boolean_values()]
    }

    fn enumerations() -> (r: Vec<PropertyStruct>) {
        let mut r: Vec<PropertyStruct> = Vec::new();
        r.push(compass("facing"));
        r.push(truth("powered"));
        r.push(truth("attached"));
        assert(Self::layout()[0] == 4 && Self::layout()[1] == 2 && Self::layout()[2] == 2);
        r
    }

    fn handles_block(block: &OptimizedBlock) -> (r: bool) {
        let r = same_text(block.name.as_str(), "tripwire_hook");
        proof {
            if r {
                assert(Self::family()[0] == block.name@);
            }
        }
        r
    }
}

/// The properties of a tripwire.
#[derive(Clone, Copy, Debug, PartialEq, Eq, Structural)]
pub struct TripwireLikeProperties {
    pub attached: bool,
    pub disarmed: bool,
    pub east: bool,
    pub north: bool,
    pub powered: bool,
    pub south: bool,
    pub west: bool,
}

impl BlockProperties for TripwireLikeProperties {
    open spec fn layout() -> Seq<u16> {
        seq![2u16, 2u16, 2u16, 2u16, 2u16, 2u16, 2u16]
    }

    open spec fn digits(&self) -> Seq<u16> {
        seq![
            bool_digit(self.attached),
            bool_digit(self.disarmed),
            bool_digit(self.east),
            bool_digit(self.north),
            bool_digit(self.powered),
            bool_digit(self.south),
            bool_digit(self.west),
        ]
    }

    open spec fn family() -> Seq<Seq<char>> {
        seq!["tripwire"@]
    }

    open spec fn of_digits(digits: Seq<u16>) -> Self {
        TripwireLikeProperties {
            attached: digits[0] == 0,
            disarmed: digits[1] == 0,
            east: digits[2] == 0,
            north: digits[3] == 0,
            powered: digits[4] == 0,
            south: digits[5] == 0,
            west: digits[6] == 0,
        }
    }

    proof fn digits_decide(a: &Self, b: &Self) {
        assert(a.digits()[0] == b.digits()[0]);
        assert(a.digits()[1] == b.digits()[1]);
        assert(a.digits()[2] == b.digits()[2]);
        assert(a.digits()[3] == b.digits()[3]);
        assert(a.digits()[4] == b.digits()[4]);
        assert(a.digits()[5] == b.digits()[5]);
        assert(a.digits()[6] == b.digits()[6]);
    }

    fn radices() -> (r: Vec<u16>) {
        let mut r: Vec<u16> = Vec::new();
        let mut i: usize = 0;
        while i < 7
            invariant
                i <= 7,
                r@.len() == i,
                forall|j: int| 0 <= j < i ==> r@[j] == 2,
            decreases 7 - i,
        {
            r.push(2);
            i += 1;
        }
        proof {
            assert(r@ =~= Self::layout());
            lemma_layout_of_twos(r@, 7);
            assert(r@.take(7) =~= r@);
        }
        r
    }

    fn to_digits(&self) -> (r: Vec<u16>) {
        let mut r: Vec<u16> = Vec::new();
        r.push(digit_of(self.attached));
        r.push(digit_of(self.disarmed));
        r.push(digit_of(self.east));
        r.push(digit_of(self.north));
        r.push(digit_of(self.powered));
        r.push(digit_of(self.south));
        r.push(digit_of(self.west));
        proof {
            assert(r@ =~= self.digits());
        }
        r
    }

    fn from_digits(digits: &Vec<u16>) -> (r: Self) {
        assert(Self::layout().len() == 7);
        let r = TripwireLikeProperties {
            attached: digits[0] == 0,
            disarmed: digits[1] == 0,
            east: digits[2] == 0,
            north: digits[3] == 0,
            powered: digits[4] == 0,
            south: digits[5] == 0,
            west: digits[6] == 0,
        };
        proof {
            assert forall|i: int| 0 <= i < 7 implies r.digits()[i] == digits@[i] by {
                assert(Self::layout()[i] == 2);
            }
            assert(r.digits() =~= digits@);
        }
        r
    }

    open spec fn keys() -> Seq<Seq<char>> {
        seq!["attached"@, "disarmed"@, "east"@, "north"@, "powered"@, "south"@, "west"@]
    }

    open spec fn variant_texts() -> Seq<Seq<Seq<char>>> {
        Seq::new(7, |i: int| boolean_values())
    }

    fn enumerations() -> (r: Vec<PropertyStruct>) {
        let mut r: Vec<PropertyStruct> = Vec::new();
        r.push(truth("attached"));
        r.push(truth("disarmed"));
        r.push(truth("east"));
        r.push(truth("north"));
        r.push(truth("powered"));
        r.push(truth("south"));
        r.push(truth("west"));
        assert forall|i: int| 0 <= i < 7 implies Self::layout()[i] == 2 by {}
        r
    }

    fn handles_block(block: &OptimizedBlock) -> (r: bool) {
        let r = same_text(block.name.as_str(), "tripwire");
        proof {
            if r {
                assert(Self::family()[0] == block.name@);
            }
        }
        r
    }
}

/// How a shelf joins its neighbours in a row.
#[derive(Clone, Copy, Debug, PartialEq, Eq, Structural)]
pub enum SideChain {
    Unconnected,
    Right,
    Center,
    Left,
}

impl SideChain {
    /// The position of the variant in the order unconnected, right, center,
    /// left.
    pub open spec fn spec_index(self) -> u16 {
        match self {
            SideChain::Unconnected => 0,
            SideChain::Right => 1,
            SideChain::Center => 2,
            SideChain::Left => 3,
        }
    }

    /// The position of the variant in the order unconnected, right, center,
    /// left.
    pub fn to_index(&self) -> (r: u16)
        ensures
            r == self.spec_index(),
            r < 4,
    {
        match self {
            SideChain::Unconnected => 0,
            SideChain::Right => 1,
            SideChain::Center => 2,
            SideChain::Left => 3,
        }
    }

    /// The variant at a position in the order unconnected, right, center, left.
    pub fn from_index(index: u16) -> (r: Option<SideChain>)
        ensures
            index < 4 ==> (r matches Some(s) && s.spec_index() == index),
            index >= 4 ==> r is None,
    {
        if index == 0 {
            Some(SideChain::Unconnected)
        } else if index == 1 {
            Some(SideChain::Right)
        } else if index == 2 {
            Some(SideChain::Center)
        } else if index == 3 {
            Some(SideChain::Left)
        } else {
            None
        }
    }
}

/// The properties of a wooden shelf.
#[derive(Clone, Copy, Debug, PartialEq, Eq, Structural)]
pub struct AcaciaShelfLikeProperties {
    pub facing: HorizontalFacing,
    pub powered: bool,
    pub side_chain: SideChain,
    pub waterlogged: bool,
}

/// The names of the wooden shelves.
pub open spec fn shelf_names() -> Seq<Seq<char>> {
    seq![
        "acacia_shelf"@,
        "bamboo_shelf"@,
        "birch_shelf"@,
        "cherry_shelf"@,
        "crimson_shelf"@,
        "dark_oak_shelf"@,
        "jungle_shelf"@,
        "mangrove_shelf"@,
        "oak_shelf"@,
        "pale_oak_shelf"@,
        "spruce_shelf"@,
        "warped_shelf"@,
    ]
}

/// The names of the wooden shelves.
pub fn shelf_name_list() -> (r: Vec<&'static str>)
    ensures
        r@.len() == shelf_names().len(),
        forall|i: int| 0 <= i < r@.len() ==> (#[trigger] r@[i])@ == shelf_names()[i],
{
    let mut r: Vec<&'static str> = Vec::new();
    r.push("acacia_shelf");
    r.push("bamboo_shelf");
    r.push("birch_shelf");
    r.push("cherry_shelf");
    r.push("crimson_shelf");
    r.push("dark_oak_shelf");
    r.push("jungle_shelf");
    r.push("mangrove_shelf");
    r.push("oak_shelf");
    r.push("pale_oak_shelf");
    r.push("spruce_shelf");
    r.push("warped_shelf");
    r
}

impl BlockProperties for AcaciaShelfLikeProperties {
    open spec fn layout() -> Seq<u16> {
        seq![4u16, 2u16, 4u16, 2u16]
    }

    open spec fn digits(&self) -> Seq<u16> {
        seq![
            self.facing.spec_index(),
            bool_digit(self.powered),
            self.side_chain.spec_index(),
            bool_digit(self.waterlogged),
        ]
    }

    open spec fn family() -> Seq<Seq<char>> {
        shelf_names()
    }

    open spec fn of_digits(digits: Seq<u16>) -> Self {
        AcaciaShelfLikeProperties {
            facing: facing_at(digits[0]),
            powered: digits[1] == 0,
            side_chain: side_chain_at(digits[2]),
            waterlogged: digits[3] == 0,
        }
    }

    proof fn digits_decide(a: &Self, b: &Self) {
        assert(a.digits()[0] == b.digits()[0]);
        assert(a.digits()[1] == b.digits()[1]);
        assert(a.digits()[2] == b.digits()[2]);
        assert(a.digits()[3] == b.digits()[3]);
    }

    fn radices() -> (r: Vec<u16>) {
        let mut r: Vec<u16> = Vec::new();
        r.push(4);
        r.push(2);
        r.push(4);
        r.push(2);
        proof {
            assert(r@ =~= Self::layout());
            let three = r@.drop_last();
            assert(three =~= seq![4u16, 2u16, 4u16]);
            lemma_layout_three(4, 2, 4);
            assert(product(r@) == product(three) * 2);
        }
        r
    }

    fn to_digits(&self) -> (r: Vec<u16>) {
        let mut r: Vec<u16> = Vec::new();
        r.push(self.facing.to_index());
        r.push(digit_of(self.powered));
        r.push(self.side_chain.to_index());
        r.push(digit_of(self.waterlogged));
        proof {
            assert(r@ =~= self.digits());
        }
        r
    }

    fn from_digits(digits: &Vec<u16>) -> (r: Self) {
        assert(Self::layout()[0] == 4 && Self::layout()[1] == 2 && Self::layout()[2] == 4
            && Self::layout()[3] == 2);
        let facing = match HorizontalFacing::from_index(digits[0]) {
            Some(f) => f,
            None => HorizontalFacing::North,
        };
        let side_chain = match SideChain::from_index(digits[2]) {
            Some(s) => s,
            None => SideChain::Unconnected,
        };
        let r = AcaciaShelfLikeProperties {
            facing,
            powered: digits[1] == 0,
            side_chain,
            waterlogged: digits[3] == 0,
        };
        assert(r.digits() =~= digits@);
        r
    }

    open spec fn keys() -> Seq<Seq<char>> {
        seq!["facing"@, "powered"@, "side_chain"@, "waterlogged"@]
    }

    open spec fn variant_texts() -> Seq<Seq<Seq<char>>> {
        seq![facing_texts(), boolean_values(), side_chain_texts(), boolean_values()]
    }

    fn enumerations() -> (r: Vec<PropertyStruct>) {
        let mut r: Vec<PropertyStruct> = Vec::new();
        r.push(compass("facing"));
        r.push(truth("powered"));
        let mut texts: Vec<&'static str> = Vec::new();
        texts.push("unconnected");
        texts.push("right");
        texts.push("center");
        texts.push("left");
        let ghost list = texts@;
        let side_chain = enumeration("side_chain", texts);
        proof {
            assert(side_chain.variants()[0] == list[0]@);
            assert(side_chain.variants()[1] == list[1]@);
            assert(side_chain.variants()[2] == list[2]@);
            assert(side_chain.variants()[3] == list[3]@);
            assert(side_chain.variants() =~= side_chain_texts());
        }
        r.push(side_chain);
        r.push(truth("waterlogged"));
        assert(Self::layout()[0] == 4 && Self::layout()[1] == 2 && Self::layout()[2] == 4
            && Self::layout()[3] == 2);
        r
    }

    fn handles_block(block: &OptimizedBlock) -> (r: bool) {
        let names = shelf_name_list();
        let mut i: usize = 0;
        while i < names.len()
            invariant
                i <= names.len(),
                names@.len() == shelf_names().len(),
                forall|j: int| 0 <= j < names@.len() ==> (#[trigger] names@[j])@ == shelf_names()[j],
                forall|j: int| 0 <= j < i ==> shelf_names()[j] != block.name@,
            decreases names.len() - i,
        {
            if same_text(block.name.as_str(), names[i]) {
                assert(shelf_names()[i as int] == block.name@);
                return true;
            }
            i += 1;
        }
        false
    }
}

/// A layout of three properties is valid where its values can be numbered
/// with 16 bits.
proof fn lemma_layout_three(a: u16, b: u16, c: u16)
    requires
        a >= 1,
        b >= 1,
        c >= 1,
        a * b * c <= 65536,
    ensures
        valid_layout(seq![a, b, c]),
        product(seq![a, b, c]) == a * b * c,
{
    let s = seq![a, b, c];
    let s2 = s.drop_last();
    let s1 = s2.drop_last();
    let s0 = s1.drop_last();
    assert(s2 =~= seq![a, b]);
    assert(s1 =~= seq![a]);
    assert(s0 =~= Seq::<u16>::empty());
    assert(product(s0) == 1);
    assert(product(s1) == product(s0) * a);
    assert(product(s2) == product(s1) * b);
    assert(product(s) == product(s2) * c);
    assert(product(s) == a * b * c) by (nonlinear_arith)
        requires
            product(s) == product(s2) * c,
            product(s2) == product(s1) * b,
            product(s1) == 1 * a,
    ;
}

/// The first `n` properties of a layout of truth values have `2^n` values.
proof fn lemma_layout_of_twos(s: Seq<u16>, n: int)
    requires
        0 <= n <= s.len(),
        n <= 7,
        forall|i: int| 0 <= i < s.len() ==> s[i] == 2,
    ensures
        valid_layout(s.take(n)),
        product(s.take(n)) <= 128,
        product(s.take(n)) >= 1,
    decreases n,
{
    if n > 0 {
        lemma_layout_of_twos(s, n - 1);
        assert(s.take(n).drop_last() =~= s.take(n - 1));
        assert(s.take(n).last() == 2);
        assert(product(s.take(n)) == product(s.take(n - 1)) * 2);
        lemma_twos_bound(s, n);
    } else {
        assert(s.take(0) =~= Seq::<u16>::empty());
    }
}

/// The first `n` properties of a layout of truth values have `2^n` values.
proof fn lemma_twos_bound(s: Seq<u16>, n: int)
    requires
        0 <= n <= s.len(),
        n <= 7,
        forall|i: int| 0 <= i < s.len() ==> s[i] == 2,
    ensures
        product(s.take(n)) == vstd::arithmetic::power2::pow2(n as nat),
        product(s.take(n)) <= 128,
    decreases n,
{
    vstd::arithmetic::power2::lemma2_to64();
    if n > 0 {
        lemma_twos_bound(s, n - 1);
        assert(s.take(n).drop_last() =~= s.take(n - 1));
        assert(s.take(n).last() == 2);
        vstd::arithmetic::power2::lemma_pow2_unfold(n as nat);
    } else {
        assert(s.take(0) =~= Seq::<u16>::empty());
    }
}

} // verus!
