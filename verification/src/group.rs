//! Typed property groups: for a family of blocks that share a property
//! list, the conversion between property values, indices, state ids and
//! serialized `(name, value)` pairs.
//!
//! A value of a group is a vector with one variant index per property, in
//! declaration order. For a boolean property the variants are `true` (index
//! 0) and `false` (index 1).

use vstd::prelude::*;
use crate::block::{OptimizedBlock, OptimizedBlockView};
use crate::codec::{
    decode, decode_index, encode, encode_digits, layout_size, lemma_decode_encode,
    lemma_decode_valid, lemma_encode_bound, lemma_encode_decode, product, valid_digits,
    valid_layout,
};
use crate::property::{
    boolean_values, law_text_round_trip, serialized, variant_of, CodecError,
    PropertyCollectionData, PropertyStruct, PropertyType,
};
use crate::text::{distinct, first_match, lemma_first_match, same_text};

verus! {

/// A family of blocks with its properties and, for each property, the
/// enumeration of its variants.
#[derive(Debug)]
pub struct BlockPropertyStruct {
    pub data: PropertyCollectionData,
    /// One enumeration per property of `data`, in declaration order.
    pub variants: Vec<PropertyStruct>,
}

/// An executable result has the view, or the error, of a ghost result.
pub open spec fn agrees<T: View>(r: Result<T, CodecError>, s: Result<T::V, CodecError>) -> bool {
    match (r, s) {
        (Ok(a), Ok(b)) => a@ == b,
        (Err(e), Err(f)) => e == f,
        _ => false,
    }
}

/// Why a conversion is refused; `None` where it gives a result.
pub open spec fn refusal<T>(r: Result<T, CodecError>) -> Option<CodecError> {
    match r {
        Ok(_) => None,
        Err(e) => Some(e),
    }
}

/// Serialized pairs, or an error, have the texts, or the error, of a ghost
/// result.
pub open spec fn agrees_props(
    r: Result<Vec<(String, String)>, CodecError>,
    s: Result<Seq<(Seq<char>, Seq<char>)>, CodecError>,
) -> bool {
    match (r, s) {
        (Ok(a), Ok(b)) => {
            &&& a@.len() == b.len()
            &&& forall|i: int| 0 <= i < b.len() ==> (#[trigger] a@[i]).0@ == b[i].0 && a@[i].1@ == b[i].1
        },
        (Err(e), Err(f)) => e == f,
        _ => false,
    }
}

/// The texts of a list of pairs of texts.
pub open spec fn pair_texts(props: Seq<(&str, &str)>) -> Seq<(Seq<char>, Seq<char>)> {
    Seq::new(props.len(), |i: int| (props[i].0@, props[i].1@))
}

impl BlockPropertyStruct {
    /// The number of variants of each property, in declaration order.
    pub open spec fn radices(&self) -> Seq<u16> {
        Seq::new(self.variants@.len(), |i: int| self.variants@[i].values@.len() as u16)
    }

    /// The serialized names of the properties, in declaration order.
    pub open spec fn keys(&self) -> Seq<Seq<char>> {
        Seq::new(
            self.data.variant_mappings@.len(),
            |i: int| self.data.variant_mappings@[i].original_name@,
        )
    }

    /// Each property has its enumeration, with at least one variant; a
    /// property typed as a truth value has the variants `true` and `false`;
    /// and the tuples of variants can be numbered with 16 bits.
    pub open spec fn well_formed(&self) -> bool {
        &&& self.variants@.len() == self.data.variant_mappings@.len()
        &&& forall|i: int|
            0 <= i < self.variants@.len() ==> 1 <= (#[trigger] self.variants@[i]).values@.len()
                <= u16::MAX
        &&& forall|i: int|
            0 <= i < self.variants@.len() && (
            #[trigger] self.data.variant_mappings@[i]).property_type is Bool
                ==> self.variants@[i].variants() == boolean_values()
        &&& valid_layout(self.radices())
    }

    /// No two properties have the same name, and no two variants of a
    /// property the same text: a pair then names one property and one
    /// variant.
    pub open spec fn unambiguous(&self) -> bool {
        &&& distinct(self.keys())
        &&& forall|i: int|
            0 <= i < self.variants@.len() ==> distinct((#[trigger] self.variants@[i]).variants())
    }

    /// The number of values of the group.
    pub open spec fn size(&self) -> int {
        product(self.radices())
    }

    /// The block is one of the family.
    pub open spec fn handles(&self, block_id: u16) -> bool {
        self.data.block_ids().contains(block_id)
    }

    /// The index of a value.
    pub open spec fn spec_to_index(&self, values: Seq<u16>) -> Result<u16, CodecError> {
        if valid_digits(self.radices(), values) {
            Ok(encode(self.radices(), values) as u16)
        } else {
            Err(CodecError::InvalidValues)
        }
    }

    /// The value with an index.
    pub open spec fn spec_from_index(&self, index: u16) -> Result<Seq<u16>, CodecError> {
        if index < self.size() {
            Ok(decode(self.radices(), index as int))
        } else {
            Err(CodecError::IndexOutOfRange)
        }
    }

    /// The state id of a value of a block: the id of the block's first state
    /// plus the value's index.
    pub open spec fn spec_to_state_id(&self, values: Seq<u16>, block: OptimizedBlockView) -> Result<
        u16,
        CodecError,
    > {
        if !self.handles(block.id) {
            Err(CodecError::BlockNotHandled)
        } else if !valid_digits(self.radices(), values) {
            Err(CodecError::InvalidValues)
        } else if block.states.len() == 0 || block.first_state_id() + encode(
            self.radices(),
            values,
        ) > block.last_state_id() {
            Err(CodecError::StateOutOfRange)
        } else {
            Ok((block.first_state_id() + encode(self.radices(), values)) as u16)
        }
    }

    /// The value of a block's state.
    pub open spec fn spec_from_state_id(&self, state_id: u16, block: OptimizedBlockView) -> Result<
        Seq<u16>,
        CodecError,
    > {
        if !self.handles(block.id) {
            Err(CodecError::BlockNotHandled)
        } else if block.states.len() == 0 || !block.owns_state(state_id as int) {
            Err(CodecError::StateOutOfRange)
        } else {
            self.spec_from_index((state_id - block.first_state_id()) as u16)
        }
    }

    /// The value of a block's default state.
    pub open spec fn spec_default(&self, block: OptimizedBlockView) -> Result<Seq<u16>, CodecError> {
        self.spec_from_state_id(block.default_state_id, block)
    }

    /// The serialized pairs of a value, in declaration order.
    pub open spec fn spec_to_props(&self, values: Seq<u16>) -> Result<
        Seq<(Seq<char>, Seq<char>)>,
        CodecError,
    > {
        if valid_digits(self.radices(), values) {
            Ok(
                Seq::new(
                    values.len(),
                    |i: int|
                        (
                            self.keys()[i],
                            serialized(self.variants@[i].variants(), values[i] as int),
                        ),
                ),
            )
        } else {
            Err(CodecError::InvalidValues)
        }
    }

    /// A value with one property set from its serialized pair.
    pub open spec fn spec_set_prop(&self, values: Seq<u16>, key: Seq<char>, value: Seq<char>) -> Result<
        Seq<u16>,
        CodecError,
    > {
        let i = first_match(self.keys(), key);
        if i >= self.keys().len() {
            Err(CodecError::UnknownKey)
        } else {
            match variant_of(self.variants@[i].variants(), value) {
                Ok(v) => Ok(values.update(i, v)),
                Err(e) => Err(e),
            }
        }
    }

    /// A value with properties set from serialized pairs, one after the
    /// other; the first pair that cannot be set decides the error.
    pub open spec fn spec_set_props(
        &self,
        values: Seq<u16>,
        props: Seq<(Seq<char>, Seq<char>)>,
    ) -> Result<Seq<u16>, CodecError>
        decreases props.len(),
    {
        if props.len() == 0 {
            Ok(values)
        } else {
            match self.spec_set_props(values, props.drop_last()) {
                Ok(v) => self.spec_set_prop(v, props.last().0, props.last().1),
                Err(e) => Err(e),
            }
        }
    }

    /// The block's default value with properties set from serialized pairs.
    pub open spec fn spec_from_props(
        &self,
        props: Seq<(Seq<char>, Seq<char>)>,
        block: OptimizedBlockView,
    ) -> Result<Seq<u16>, CodecError> {
        match self.spec_default(block) {
            Ok(v) => self.spec_set_props(v, props),
            Err(e) => Err(e),
        }
    }

    /// A group of a family and the enumerations of its properties, where
    /// these make a well-formed group.
    pub fn new(data: PropertyCollectionData, variants: Vec<PropertyStruct>) -> (r: Option<Self>)
        ensures
            r is Some <==> (BlockPropertyStruct { data, variants }).well_formed(),
            r matches Some(g) ==> g == (BlockPropertyStruct { data, variants }),
    {
        let group = BlockPropertyStruct { data, variants };
        if group.check() {
            Some(group)
        } else {
            None
        }
    }

    /// Whether the group is well formed.
    pub fn check(&self) -> (r: bool)
        ensures
            r == self.well_formed(),
    {
        if self.variants.len() != self.data.variant_mappings.len() {
            return false;
        }
        let mut radices: Vec<u16> = Vec::new();
        let mut i: usize = 0;
        while i < self.variants.len()
            invariant
                i <= self.variants.len(),
                self.variants@.len() == self.data.variant_mappings@.len(),
                radices@ == self.radices().take(i as int),
                forall|j: int|
                    0 <= j < i ==> 1 <= (#[trigger] self.variants@[j]).values@.len() <= u16::MAX,
                forall|j: int|
                    0 <= j < i && (#[trigger] self.data.variant_mappings@[j]).property_type is Bool
                        ==> self.variants@[j].variants() == boolean_values(),
            decreases self.variants.len() - i,
        {
            let n = self.variants[i].values.len();
            if n == 0 || n > 65535 {
                return false;
            }
            let is_bool = match &self.data.variant_mappings[i].property_type {
                PropertyType::Bool => true,
                PropertyType::Enum { .. } => false,
            };
            if is_bool && !self.variants[i].is_boolean() {
                return false;
            }
            radices.push(n as u16);
            proof {
                assert(self.radices().take(i + 1) =~= self.radices().take(i as int).push(
                    n as u16,
                ));
            }
            i += 1;
        }
        proof {
            assert(self.radices().take(i as int) =~= self.radices());
        }
        layout_size(&radices).is_some()
    }

    /// The number of variants of each property.
    fn radix_list(&self) -> (r: Vec<u16>)
        requires
            self.well_formed(),
        ensures
            r@ == self.radices(),
    {
        let mut radices: Vec<u16> = Vec::new();
        let mut i: usize = 0;
        while i < self.variants.len()
            invariant
                i <= self.variants.len(),
                self.well_formed(),
                radices@ == self.radices().take(i as int),
            decreases self.variants.len() - i,
        {
            let n = self.variants[i].values.len();
            radices.push(n as u16);
            proof {
                assert(self.radices().take(i + 1) =~= self.radices().take(i as int).push(
                    n as u16,
                ));
            }
            i += 1;
        }
        proof {
            assert(self.radices().take(i as int) =~= self.radices());
        }
        radices
    }

    /// Whether a vector holds one valid variant index per property.
    fn check_values(radices: &Vec<u16>, values: &Vec<u16>) -> (r: bool)
        ensures
            r == valid_digits(radices@, values@),
    {
        if values.len() != radices.len() {
            return false;
        }
        let mut i: usize = 0;
        while i < radices.len()
            invariant
                i <= radices.len(),
                values.len() == radices.len(),
                forall|j: int| 0 <= j < i ==> values@[j] < radices@[j],
            decreases radices.len() - i,
        {
            if values[i] >= radices[i] {
                return false;
            }
            i += 1;
        }
        true
    }

    /// The number of values of the group.
    pub fn value_count(&self) -> (r: u32)
        requires
            self.well_formed(),
        ensures
            r == self.size(),
            1 <= r <= crate::codec::MAX_STATES,
    {
        let radices = self.radix_list();
        proof {
            crate::codec::lemma_product_positive(radices@);
        }
        match layout_size(&radices) {
            Some(n) => n,
            None => vstd::pervasive::unreached(),
        }
    }

    /// Whether a vector holds one valid variant index for each property.
    pub fn accepts(&self, values: &Vec<u16>) -> (r: bool)
        requires
            self.well_formed(),
        ensures
            r == valid_digits(self.radices(), values@),
    {
        let radices = self.radix_list();
        Self::check_values(&radices, values)
    }

    /// Converts a value to its index, in `0..N` for a group of `N` values.
    pub fn to_index(&self, values: &Vec<u16>) -> (r: u16)
        requires
            self.well_formed(),
            valid_digits(self.radices(), values@),
        ensures
            self.spec_to_index(values@) == Ok::<u16, CodecError>(r),
            r == encode(self.radices(), values@),
            r < self.size(),
    {
        let radices = self.radix_list();
        encode_digits(&radices, values)
    }

    /// Converts an index back to the value it stands for.
    pub fn from_index(&self, index: u16) -> (r: Vec<u16>)
        requires
            self.well_formed(),
            index < self.size(),
        ensures
            self.spec_from_index(index) == Ok::<Seq<u16>, CodecError>(r@),
            valid_digits(self.radices(), r@),
    {
        let radices = self.radix_list();
        decode_index(&radices, index)
    }

    /// Whether the block with this id is one of the family.
    pub fn handles_block_id(&self, block_id: u16) -> (r: bool)
        ensures
            r == self.handles(block_id),
    {
        let mut i: usize = 0;
        while i < self.data.blocks.len()
            invariant
                i <= self.data.blocks.len(),
                forall|j: int| 0 <= j < i ==> self.data.block_ids()[j] != block_id,
            decreases self.data.blocks.len() - i,
        {
            if self.data.blocks[i].1 == block_id {
                assert(self.data.block_ids()[i as int] == block_id);
                return true;
            }
            i += 1;
        }
        false
    }

    /// Converts a value to the id of the block's state that has it, or
    /// says why there is none.
    pub(crate) fn try_to_state_id(&self, values: &Vec<u16>, block: &OptimizedBlock) -> (r: Result<
        u16,
        CodecError,
    >)
        requires
            self.well_formed(),
        ensures
            r == self.spec_to_state_id(values@, block@),
    {
        if !self.handles_block_id(block.id) {
            return Err(CodecError::BlockNotHandled);
        }
        if !self.accepts(values) {
            return Err(CodecError::InvalidValues);
        }
        let index = self.to_index(values);
        let n = block.states.len();
        if n == 0 {
            return Err(CodecError::StateOutOfRange);
        }
        let first = block.states[0].id;
        let last = block.states[n - 1].id;
        if first as u32 + index as u32 > last as u32 {
            return Err(CodecError::StateOutOfRange);
        }
        Ok(first + index)
    }

    /// Converts the id of a block's state to the value the state has, or
    /// says why there is none.
    pub(crate) fn try_from_state_id(&self, state_id: u16, block: &OptimizedBlock) -> (r: Result<
        Vec<u16>,
        CodecError,
    >)
        requires
            self.well_formed(),
        ensures
            agrees(r, self.spec_from_state_id(state_id, block@)),
            r matches Ok(v) ==> valid_digits(self.radices(), v@),
    {
        if !self.handles_block_id(block.id) {
            return Err(CodecError::BlockNotHandled);
        }
        let n = block.states.len();
        if n == 0 {
            return Err(CodecError::StateOutOfRange);
        }
        let first = block.states[0].id;
        let last = block.states[n - 1].id;
        if state_id >= first && state_id <= last {
            let index = state_id - first;
            if index as u32 >= self.value_count() {
                return Err(CodecError::IndexOutOfRange);
            }
            Ok(self.from_index(index))
        } else {
            Err(CodecError::StateOutOfRange)
        }
    }

    /// Why `to_state_id` cannot be called with a value and a block; `None`
    /// where it can.
    pub fn to_state_id_refused(&self, values: &Vec<u16>, block: &OptimizedBlock) -> (r: Option<
        CodecError,
    >)
        requires
            self.well_formed(),
        ensures
            r == refusal(self.spec_to_state_id(values@, block@)),
    {
        match self.try_to_state_id(values, block) {
            Ok(_) => None,
            Err(e) => Some(e),
        }
    }

    /// Converts a value to the id of the block's state that has it. The
    /// block is one of the family, and has a state for the value.
    pub fn to_state_id(&self, values: &Vec<u16>, block: &OptimizedBlock) -> (r: u16)
        requires
            self.well_formed(),
            self.spec_to_state_id(values@, block@) is Ok,
        ensures
            self.spec_to_state_id(values@, block@) == Ok::<u16, CodecError>(r),
    {
        match self.try_to_state_id(values, block) {
            Ok(id) => id,
            Err(_) => vstd::pervasive::unreached(),
        }
    }

    /// Why `from_state_id` cannot be called with a state id and a block;
    /// `None` where it can.
    pub fn from_state_id_refused(&self, state_id: u16, block: &OptimizedBlock) -> (r: Option<
        CodecError,
    >)
        requires
            self.well_formed(),
        ensures
            r == refusal(self.spec_from_state_id(state_id, block@)),
    {
        match self.try_from_state_id(state_id, block) {
            Ok(_) => None,
            Err(e) => Some(e),
        }
    }

    /// Converts the id of a block's state to the value the state has. The
    /// block is one of the family, and the state is one of its states.
    pub fn from_state_id(&self, state_id: u16, block: &OptimizedBlock) -> (r: Vec<u16>)
        requires
            self.well_formed(),
            self.spec_from_state_id(state_id, block@) is Ok,
        ensures
            self.spec_from_state_id(state_id, block@) == Ok::<Seq<u16>, CodecError>(r@),
            valid_digits(self.radices(), r@),
    {
        match self.try_from_state_id(state_id, block) {
            Ok(values) => values,
            Err(_) => vstd::pervasive::unreached(),
        }
    }

    /// Why `default` cannot be called with a block; `None` where it can.
    pub fn default_refused(&self, block: &OptimizedBlock) -> (r: Option<CodecError>)
        requires
            self.well_formed(),
        ensures
            r == refusal(self.spec_default(block@)),
    {
        self.from_state_id_refused(block.default_state_id, block)
    }

    /// The value of the block's default state. The block is one of the
    /// family, and its default state is one of its states.
    pub fn default(&self, block: &OptimizedBlock) -> (r: Vec<u16>)
        requires
            self.well_formed(),
            self.spec_default(block@) is Ok,
        ensures
            self.spec_default(block@) == Ok::<Seq<u16>, CodecError>(r@),
            valid_digits(self.radices(), r@),
    {
        self.from_state_id(block.default_state_id, block)
    }

    /// Converts a value to its `(name, value)` pairs, in declaration order.
    pub fn to_props(&self, values: &Vec<u16>) -> (r: Vec<(String, String)>)
        requires
            self.well_formed(),
            valid_digits(self.radices(), values@),
        ensures
            agrees_props(Ok(r), self.spec_to_props(values@)),
    {
        let mut props: Vec<(String, String)> = Vec::new();
        let mut i: usize = 0;
        while i < values.len()
            invariant
                i <= values.len(),
                self.well_formed(),
                valid_digits(self.radices(), values@),
                props.len() == i,
                forall|j: int|
                    0 <= j < i ==> (#[trigger] props@[j]).0@ == self.keys()[j] && props@[j].1@
                        == serialized(self.variants@[j].variants(), values@[j] as int),
            decreases values.len() - i,
        {
            let key = self.data.variant_mappings[i].original_name.clone();
            assert(self.radices()[i as int] == self.variants@[i as int].values@.len());
            assert(self.variants@[i as int].variants().len()
                == self.variants@[i as int].values@.len());
            let value = self.variants[i].to_value(values[i]);
            props.push((key, value));
            i += 1;
        }
        props
    }

    /// Position of the property with a serialized name.
    fn key_index(&self, key: &str) -> (r: usize)
        ensures
            r == first_match(self.keys(), key@),
            r <= self.data.variant_mappings@.len(),
    {
        let mut i: usize = 0;
        while i < self.data.variant_mappings.len()
            invariant
                i <= self.data.variant_mappings.len(),
                forall|j: int| 0 <= j < i ==> self.keys()[j] != key@,
            decreases self.data.variant_mappings.len() - i,
        {
            if same_text(self.data.variant_mappings[i].original_name.as_str(), key) {
                proof {
                    lemma_first_match(self.keys(), key@, i as int);
                }
                return i;
            }
            i += 1;
        }
        proof {
            lemma_first_match(self.keys(), key@, i as int);
        }
        i
    }

    /// Builds a value from the block's default value and `(name, value)`
    /// pairs, which are applied in order; or says why there is none.
    pub(crate) fn try_from_props(&self, props: &Vec<(&str, &str)>, block: &OptimizedBlock) -> (r:
        Result<Vec<u16>, CodecError>)
        requires
            self.well_formed(),
        ensures
            agrees(r, self.spec_from_props(pair_texts(props@), block@)),
    {
        let mut values = match self.try_from_state_id(block.default_state_id, block) {
            Ok(values) => values,
            Err(e) => {
                return Err(e);
            },
        };
        let ghost all = pair_texts(props@);
        let mut i: usize = 0;
        while i < props.len()
            invariant
                i <= props.len(),
                self.well_formed(),
                all == pair_texts(props@),
                self.spec_default(block@) is Ok,
                values@.len() == self.variants@.len(),
                self.spec_set_props(self.spec_default(block@)->Ok_0, all.take(i as int)) == Ok::<
                    Seq<u16>,
                    CodecError,
                >(values@),
            decreases props.len() - i,
        {
            let (key, value) = props[i];
            proof {
                assert(all.take(i + 1).drop_last() =~= all.take(i as int));
                assert(all.take(i + 1).last() == (key@, value@));
                assert(all.take(props.len() as int) =~= all);
                lemma_set_props_fails(self, self.spec_default(block@)->Ok_0, all, i + 1);
            }
            let k = self.key_index(key);
            if k >= self.data.variant_mappings.len() {
                return Err(CodecError::UnknownKey);
            }
            match self.variants[k].find_value(value) {
                Ok(v) => {
                    values.set(k, v);
                },
                Err(e) => {
                    return Err(e);
                },
            }
            i += 1;
        }
        proof {
            assert(all.take(i as int) =~= all);
        }
        Ok(values)
    }

    /// Why `from_props` cannot be called with pairs and a block; `None`
    /// where it can.
    pub fn from_props_refused(&self, props: &Vec<(&str, &str)>, block: &OptimizedBlock) -> (r:
        Option<CodecError>)
        requires
            self.well_formed(),
        ensures
            r == refusal(self.spec_from_props(pair_texts(props@), block@)),
    {
        match self.try_from_props(props, block) {
            Ok(_) => None,
            Err(e) => Some(e),
        }
    }

    /// Builds a value from the block's default value and `(name, value)`
    /// pairs, which are applied in order. The block is one of the family
    /// with its default state among its states; every name is that of a
    /// property, and every value the text of one of its variants.
    pub fn from_props(&self, props: Vec<(&str, &str)>, block: &OptimizedBlock) -> (r: Vec<u16>)
        requires
            self.well_formed(),
            self.spec_from_props(pair_texts(props@), block@) is Ok,
        ensures
            self.spec_from_props(pair_texts(props@), block@) == Ok::<Seq<u16>, CodecError>(r@),
    {
        match self.try_from_props(&props, block) {
            Ok(values) => values,
            Err(_) => vstd::pervasive::unreached(),
        }
    }
}

/// Once a prefix of the pairs cannot be applied, the whole list cannot, and
/// for the same reason.
pub proof fn lemma_set_props_fails(
    group: &BlockPropertyStruct,
    start: Seq<u16>,
    props: Seq<(Seq<char>, Seq<char>)>,
    k: int,
)
    requires
        0 <= k <= props.len(),
    ensures
        group.spec_set_props(start, props.take(k)) is Err ==> group.spec_set_props(start, props)
            == group.spec_set_props(start, props.take(k)),
    decreases props.len() - k,
{
    if k < props.len() {
        lemma_set_props_fails(group, start, props, k + 1);
        assert(props.take(k + 1).drop_last() =~= props.take(k));
    } else {
        assert(props.take(k) =~= props);
    }
}

/// Converting an index to a value and back gives the index.
pub proof fn law_index_round_trip(group: &BlockPropertyStruct, index: u16)
    requires
        group.well_formed(),
        index < group.size(),
    ensures
        group.spec_from_index(index) is Ok,
        group.spec_to_index(group.spec_from_index(index)->Ok_0) == Ok::<u16, CodecError>(index),
{
    lemma_decode_valid(group.radices(), index as int);
    lemma_encode_decode(group.radices(), index as int);
}

/// Converting a value to its index and back gives the value, and the index
/// lies below the number of values.
pub proof fn law_value_round_trip(group: &BlockPropertyStruct, values: Seq<u16>)
    requires
        group.well_formed(),
        valid_digits(group.radices(), values),
    ensures
        group.spec_to_index(values) is Ok,
        group.spec_to_index(values)->Ok_0 < group.size(),
        group.spec_from_index(group.spec_to_index(values)->Ok_0) == Ok::<Seq<u16>, CodecError>(
            values,
        ),
{
    lemma_encode_bound(group.radices(), values);
    lemma_decode_encode(group.radices(), values);
}

/// A state id made from a value of a block is one of the block's states, and
/// converting it back gives the value.
pub proof fn law_state_round_trip(
    group: &BlockPropertyStruct,
    values: Seq<u16>,
    block: OptimizedBlockView,
)
    requires
        group.well_formed(),
        group.spec_to_state_id(values, block) is Ok,
    ensures
        block.owns_state(group.spec_to_state_id(values, block)->Ok_0 as int),
        group.spec_from_state_id(group.spec_to_state_id(values, block)->Ok_0, block) == Ok::<
            Seq<u16>,
            CodecError,
        >(values),
{
    lemma_encode_bound(group.radices(), values);
    lemma_decode_encode(group.radices(), values);
}

/// For a block of the family that has as many states as the group has
/// values, every index gives a value whose state id is the id of the block's
/// first state plus the index, which is one of the block's states.
pub proof fn law_index_to_state(
    group: &BlockPropertyStruct,
    index: u16,
    block: OptimizedBlockView,
)
    requires
        group.well_formed(),
        group.handles(block.id),
        block.contiguous(),
        block.states.len() == group.size(),
        index < group.size(),
    ensures
        group.spec_from_index(index) is Ok,
        group.spec_to_state_id(group.spec_from_index(index)->Ok_0, block) == Ok::<u16, CodecError>(
            (block.first_state_id() + index) as u16,
        ),
        block.owns_state(block.first_state_id() + index),
{
    lemma_decode_valid(group.radices(), index as int);
    lemma_encode_decode(group.radices(), index as int);
    assert(block.states[block.states.len() - 1].id == block.states[0].id + block.states.len() - 1);
}

/// Setting the first `k` properties from the pairs written for a value puts
/// the value's variants in their places and leaves the others as they were.
proof fn lemma_set_written(
    group: &BlockPropertyStruct,
    start: Seq<u16>,
    values: Seq<u16>,
    k: int,
)
    requires
        group.well_formed(),
        group.unambiguous(),
        valid_digits(group.radices(), values),
        start.len() == values.len(),
        0 <= k <= values.len(),
    ensures
        group.spec_set_props(start, group.spec_to_props(values)->Ok_0.take(k)) == Ok::<
            Seq<u16>,
            CodecError,
        >(Seq::new(values.len(), |i: int| if i < k { values[i] } else { start[i] })),
    decreases k,
{
    let pairs = group.spec_to_props(values)->Ok_0;
    let mixed = |n: int| Seq::new(values.len(), |i: int| if i < n { values[i] } else { start[i] });
    if k == 0 {
        assert(pairs.take(0).len() == 0);
        assert(mixed(0) =~= start);
    } else {
        let at = k - 1;
        lemma_set_written(group, start, values, at);
        assert(pairs.take(k).drop_last() =~= pairs.take(at));
        assert(pairs.take(k).last() == pairs[at]);
        let variants = group.variants@[at].variants();
        assert(values[at] < group.radices()[at]);
        assert(values[at] < variants.len());
        lemma_first_match(group.keys(), group.keys()[at], at);
        law_text_round_trip(variants, values[at] as int);
        assert(variant_of(variants, pairs[at].1) == Ok::<u16, CodecError>(values[at]));
        assert(mixed(at).update(at, values[at]) =~= mixed(k));
    }
}

/// Where no two properties have the same name and no two variants of a
/// property the same text, reading the pairs written for a value gives the
/// value back, whatever the block's default value is.
pub proof fn law_props_round_trip(
    group: &BlockPropertyStruct,
    values: Seq<u16>,
    block: OptimizedBlockView,
)
    requires
        group.well_formed(),
        group.unambiguous(),
        valid_digits(group.radices(), values),
        group.spec_default(block) is Ok,
    ensures
        group.spec_to_props(values) is Ok,
        group.spec_from_props(group.spec_to_props(values)->Ok_0, block) == Ok::<
            Seq<u16>,
            CodecError,
        >(values),
{
    let start = group.spec_default(block)->Ok_0;
    let pairs = group.spec_to_props(values)->Ok_0;
    lemma_decode_valid(group.radices(), block.default_state_id - block.first_state_id());
    lemma_set_written(group, start, values, values.len() as int);
    assert(pairs.take(values.len() as int) =~= pairs);
    assert(Seq::new(
        values.len(),
        |i: int| if i < values.len() { values[i] } else { start[i] },
    ) =~= values);
}

/// For a block that is not of the family, no conversion that takes a block
/// can be called: the condition of each fails, and the test that stands
/// beside it answers `BlockNotHandled`.
pub proof fn law_unhandled_block_refused(
    group: &BlockPropertyStruct,
    block: OptimizedBlockView,
    values: Seq<u16>,
    state_id: u16,
    props: Seq<(Seq<char>, Seq<char>)>,
)
    requires
        !group.handles(block.id),
    ensures
        group.spec_to_state_id(values, block) == Err::<u16, CodecError>(
            CodecError::BlockNotHandled,
        ),
        group.spec_from_state_id(state_id, block) == Err::<Seq<u16>, CodecError>(
            CodecError::BlockNotHandled,
        ),
        group.spec_default(block) == Err::<Seq<u16>, CodecError>(CodecError::BlockNotHandled),
        group.spec_from_props(props, block) == Err::<Seq<u16>, CodecError>(
            CodecError::BlockNotHandled,
        ),
{
}

} // verus!
