//! Mixed-radix numbering of property tuples.
//!
//! A block with properties `p_0 .. p_{n-1}` (in declaration order), where
//! property `p_i` has `radices[i]` variants, has `radices[0] * .. * radices[n-1]`
//! states. A tuple of variant indices (`digits`) is numbered so that the last
//! declared property is the least significant digit.

use vstd::prelude::*;
use vstd::arithmetic::div_mod::lemma_fundamental_div_mod_converse;
use vstd::arithmetic::div_mod::lemma_fundamental_div_mod;

verus! {

/// Largest number of states one layout may have: state ids are 16 bits wide.
pub const MAX_STATES: u32 = 65536;

/// Number of tuples of a layout: the product of its radices.
pub open spec fn product(radices: Seq<u16>) -> int
    decreases radices.len(),
{
    if radices.len() == 0 {
        1
    } else {
        product(radices.drop_last()) * (radices.last() as int)
    }
}

/// Product of the radices declared after position `i`: the weight of digit `i`.
pub open spec fn weight(radices: Seq<u16>, i: int) -> int {
    product(radices.skip(i + 1))
}

/// Every property has at least one variant.
pub open spec fn positive_radices(radices: Seq<u16>) -> bool {
    forall|i: int| 0 <= i < radices.len() ==> radices[i] >= 1
}

/// A layout whose tuples can be numbered by a 16-bit index.
pub open spec fn valid_layout(radices: Seq<u16>) -> bool {
    &&& positive_radices(radices)
    &&& product(radices) <= MAX_STATES
}

/// One variant index per property, each below its radix.
pub open spec fn valid_digits(radices: Seq<u16>, digits: Seq<u16>) -> bool {
    &&& digits.len() == radices.len()
    &&& forall|i: int| 0 <= i < radices.len() ==> digits[i] < radices[i]
}

/// The number of a tuple: digit `i` counts `weight(radices, i)` times.
pub open spec fn encode(radices: Seq<u16>, digits: Seq<u16>) -> int
    decreases radices.len(),
{
    if radices.len() == 0 {
        0
    } else {
        encode(radices.drop_last(), digits.drop_last()) * (radices.last() as int) + (
        digits.last() as int)
    }
}

/// The sum of `digits[i] * weight(radices, i)` over the positions from `from` on.
pub open spec fn weighted_sum(radices: Seq<u16>, digits: Seq<u16>, from: int) -> int
    decreases radices.len() - from,
{
    if from < 0 || from >= radices.len() {
        0
    } else {
        (digits[from] as int) * weight(radices, from) + weighted_sum(radices, digits, from + 1)
    }
}

/// The tuple with a given number.
pub open spec fn decode(radices: Seq<u16>, index: int) -> Seq<u16>
    decreases radices.len(),
{
    if radices.len() == 0 {
        Seq::empty()
    } else {
        decode(radices.drop_last(), index / (radices.last() as int)).push(
            (index % (radices.last() as int)) as u16,
        )
    }
}

/// A layout whose properties all have variants has at least one tuple.
pub proof fn lemma_product_positive(radices: Seq<u16>)
    requires
        positive_radices(radices),
    ensures
        product(radices) >= 1,
    decreases radices.len(),
{
    if radices.len() > 0 {
        lemma_product_positive(radices.drop_last());
        let p = product(radices.drop_last());
        let r = radices.last() as int;
        assert(p * r >= 1) by (nonlinear_arith)
            requires
                p >= 1,
                r >= 1,
        ;
    }
}

/// A prefix of a layout has no more tuples than the whole.
pub proof fn lemma_product_prefix(radices: Seq<u16>, k: int)
    requires
        positive_radices(radices),
        0 <= k <= radices.len(),
    ensures
        1 <= product(radices.take(k)) <= product(radices),
    decreases radices.len() - k,
{
    lemma_product_positive(radices.take(k));
    if k < radices.len() {
        lemma_product_prefix(radices, k + 1);
        let t = radices.take(k + 1);
        assert(t.drop_last() =~= radices.take(k));
        let p = product(radices.take(k));
        let r = radices[k] as int;
        assert(t.last() == radices[k]);
        assert(product(t) == p * r);
        assert(p <= p * r) by (nonlinear_arith)
            requires
                p >= 1,
                r >= 1,
        ;
    } else {
        assert(radices.take(k) =~= radices);
    }
}

/// The number of a valid tuple lies below the number of tuples.
pub proof fn lemma_encode_bound(radices: Seq<u16>, digits: Seq<u16>)
    requires
        valid_digits(radices, digits),
    ensures
        0 <= encode(radices, digits) < product(radices),
    decreases radices.len(),
{
    if radices.len() > 0 {
        lemma_encode_bound(radices.drop_last(), digits.drop_last());
        let e = encode(radices.drop_last(), digits.drop_last());
        let p = product(radices.drop_last());
        let r = radices.last() as int;
        let d = digits.last() as int;
        assert(0 <= e * r + d < p * r) by (nonlinear_arith)
            requires
                0 <= e < p,
                0 <= d < r,
        ;
    }
}

/// Decoding any non-negative number gives a valid tuple.
pub proof fn lemma_decode_valid(radices: Seq<u16>, index: int)
    requires
        positive_radices(radices),
        0 <= index,
    ensures
        valid_digits(radices, decode(radices, index)),
    decreases radices.len(),
{
    if radices.len() > 0 {
        let r = radices.last() as int;
        assert(0 <= index / r && 0 <= index % r < r) by (nonlinear_arith)
            requires
                0 <= index,
                r >= 1,
        ;
        lemma_decode_valid(radices.drop_last(), index / r);
    }
}

/// Numbering the tuple of a number below the number of tuples gives the number back.
pub proof fn lemma_encode_decode(radices: Seq<u16>, index: int)
    requires
        positive_radices(radices),
        0 <= index < product(radices),
    ensures
        encode(radices, decode(radices, index)) == index,
    decreases radices.len(),
{
    if radices.len() > 0 {
        let r = radices.last() as int;
        let p = product(radices.drop_last());
        let q = index / r;
        let m = index % r;
        lemma_fundamental_div_mod(index, r);
        assert(0 <= q < p && 0 <= m < r) by (nonlinear_arith)
            requires
                0 <= index < p * r,
                r >= 1,
                index == r * q + m,
                q == index / r,
                m == index % r,
        ;
        lemma_encode_decode(radices.drop_last(), q);
        let digits = decode(radices, index);
        assert(digits.drop_last() =~= decode(radices.drop_last(), q));
        assert(digits.last() as int == m);
        assert(q * r + m == index) by (nonlinear_arith)
            requires
                index == r * q + m,
        ;
    }
}

/// The tuple of the number of a valid tuple is that tuple.
pub proof fn lemma_decode_encode(radices: Seq<u16>, digits: Seq<u16>)
    requires
        valid_digits(radices, digits),
    ensures
        decode(radices, encode(radices, digits)) == digits,
    decreases radices.len(),
{
    if radices.len() > 0 {
        let r = radices.last() as int;
        let e = encode(radices.drop_last(), digits.drop_last());
        let d = digits.last() as int;
        lemma_fundamental_div_mod_converse(e * r + d, r, e, d);
        lemma_decode_encode(radices.drop_last(), digits.drop_last());
        assert(decode(radices, e * r + d) =~= digits);
    } else {
        assert(decode(radices, 0) =~= digits);
    }
}

/// The number of a tuple is the sum of its digits, each counted with the
/// product of the radices declared after it.
pub proof fn law_encode_is_weighted_sum(radices: Seq<u16>, digits: Seq<u16>)
    requires
        digits.len() == radices.len(),
    ensures
        encode(radices, digits) == weighted_sum(radices, digits, 0),
{
    lemma_weighted_sum_from(radices, digits, 0);
    assert(radices.take(0) =~= Seq::<u16>::empty());
    assert(radices.skip(0) =~= radices);
}

proof fn lemma_product_split(radices: Seq<u16>, k: int)
    requires
        0 <= k <= radices.len(),
    ensures
        product(radices) == product(radices.take(k)) * product(radices.skip(k)),
    decreases radices.len(),
{
    if k == radices.len() {
        assert(radices.take(k) =~= radices);
        assert(radices.skip(k) =~= Seq::<u16>::empty());
        assert(product(radices.skip(k)) == 1);
        let p = product(radices);
        assert(p == p * 1) by (nonlinear_arith);
    } else {
        let front = radices.drop_last();
        lemma_product_split(front, k);
        assert(front.take(k) =~= radices.take(k));
        assert(radices.skip(k).drop_last() =~= front.skip(k));
        assert(radices.skip(k).last() == radices.last());
        let a = product(radices.take(k));
        let b = product(front.skip(k));
        let r = radices.last() as int;
        assert(product(radices.skip(k)) == b * r);
        assert((a * b) * r == a * (b * r)) by (nonlinear_arith);
    }
}

proof fn lemma_weighted_sum_from(radices: Seq<u16>, digits: Seq<u16>, k: int)
    requires
        digits.len() == radices.len(),
        0 <= k <= radices.len(),
    ensures
        encode(radices, digits) == encode(radices.take(k), digits.take(k)) * product(
            radices.skip(k),
        ) + weighted_sum(radices, digits, k),
    decreases radices.len() - k,
{
    if k == radices.len() {
        assert(radices.take(k) =~= radices);
        assert(digits.take(k) =~= digits);
        assert(radices.skip(k) =~= Seq::<u16>::empty());
        let e = encode(radices, digits);
        assert(e == e * 1 + 0) by (nonlinear_arith);
    } else {
        lemma_weighted_sum_from(radices, digits, k + 1);
        let rt = radices.take(k + 1);
        let dt = digits.take(k + 1);
        assert(rt.drop_last() =~= radices.take(k));
        assert(dt.drop_last() =~= digits.take(k));
        let e = encode(radices.take(k), digits.take(k));
        let r = radices[k] as int;
        let d = digits[k] as int;
        assert(encode(rt, dt) == e * r + d);
        let w = product(radices.skip(k + 1));
        lemma_product_split(radices.skip(k), 1);
        assert(radices.skip(k).take(1) =~= seq![radices[k]]);
        assert(radices.skip(k).skip(1) =~= radices.skip(k + 1));
        let one = seq![radices[k]];
        assert(one.drop_last() =~= Seq::<u16>::empty());
        assert(one.last() == radices[k]);
        assert(product(one.drop_last()) == 1);
        assert(product(one) == product(one.drop_last()) * (one.last() as int));
        assert(product(one) == 1 * r);
        assert(product(radices.skip(k)) == (1 * r) * w);
        assert((e * r + d) * w == e * ((1 * r) * w) + d * w) by (nonlinear_arith);
    }
}

/// The number of tuples of a layout, where it is a valid one.
pub fn layout_size(radices: &Vec<u16>) -> (size: Option<u32>)
    ensures
        size is Some <==> valid_layout(radices@),
        size matches Some(n) ==> n == product(radices@),
{
    let mut size: u32 = 1;
    let mut i: usize = 0;
    while i < radices.len()
        invariant
            i <= radices.len(),
            size == product(radices@.take(i as int)),
            1 <= size <= MAX_STATES,
            positive_radices(radices@.take(i as int)),
        decreases radices.len() - i,
    {
        let r: u16 = radices[i];
        proof {
            assert(radices@.take(i + 1).drop_last() =~= radices@.take(i as int));
            assert(radices@.take(i + 1).last() == r);
        }
        if r == 0 {
            return None;
        }
        assert(size * r <= 65536 * 65535) by (nonlinear_arith)
            requires
                size <= 65536,
                r <= 65535,
        ;
        let next: u32 = size * (r as u32);
        if next > MAX_STATES {
            proof {
                if positive_radices(radices@) {
                    lemma_product_prefix(radices@, i + 1);
                }
            }
            return None;
        }
        assert(next >= 1) by (nonlinear_arith)
            requires
                next == size * r,
                size >= 1,
                r >= 1,
        ;
        size = next;
        i += 1;
    }
    proof {
        assert(radices@.take(i as int) =~= radices@);
    }
    Some(size)
}

/// The number of a tuple in a layout.
pub fn encode_digits(radices: &Vec<u16>, digits: &Vec<u16>) -> (index: u16)
    requires
        valid_layout(radices@),
        valid_digits(radices@, digits@),
    ensures
        index == encode(radices@, digits@),
        index < product(radices@),
{
    let mut acc: u32 = 0;
    let mut i: usize = 0;
    while i < radices.len()
        invariant
            i <= radices.len(),
            valid_layout(radices@),
            valid_digits(radices@, digits@),
            acc == encode(radices@.take(i as int), digits@.take(i as int)),
            acc < product(radices@.take(i as int)),
        decreases radices.len() - i,
    {
        proof {
            let rt = radices@.take(i + 1);
            let dt = digits@.take(i + 1);
            assert(rt.drop_last() =~= radices@.take(i as int));
            assert(dt.drop_last() =~= digits@.take(i as int));
            assert(valid_digits(rt, dt));
            lemma_encode_bound(rt, dt);
            lemma_product_prefix(radices@, i + 1);
        }
        acc = acc * (radices[i] as u32) + (digits[i] as u32);
        i += 1;
    }
    proof {
        assert(radices@.take(i as int) =~= radices@);
        assert(digits@.take(i as int) =~= digits@);
    }
    acc as u16
}

/// The tuple with a given number in a layout.
pub fn decode_index(radices: &Vec<u16>, index: u16) -> (digits: Vec<u16>)
    requires
        positive_radices(radices@),
    ensures
        digits@ == decode(radices@, index as int),
        valid_digits(radices@, digits@),
{
    let n = radices.len();
    let mut digits: Vec<u16> = Vec::new();
    let mut j: usize = 0;
    while j < n
        invariant
            j <= n,
            n == radices.len(),
            digits.len() == j,
        decreases n - j,
    {
        digits.push(0);
        j += 1;
    }
    let mut rest: u16 = index;
    let mut k: usize = n;
    proof {
        assert(radices@.take(n as int) =~= radices@);
        assert(digits@.skip(n as int) =~= Seq::<u16>::empty());
        assert(decode(radices@, index as int) + Seq::<u16>::empty() =~= decode(
            radices@,
            index as int,
        ));
    }
    while k > 0
        invariant
            k <= n,
            n == radices.len(),
            digits.len() == n,
            positive_radices(radices@),
            decode(radices@, index as int) == decode(radices@.take(k as int), rest as int)
                + digits@.skip(k as int),
        decreases k,
    {
        k -= 1;
        let r: u16 = radices[k];
        let ghost before = digits@;
        let ghost prefix = radices@.take(k + 1);
        digits.set(k, rest % r);
        proof {
            assert(prefix.drop_last() =~= radices@.take(k as int));
            assert(prefix.last() == r);
            assert(decode(prefix, rest as int) == decode(
                radices@.take(k as int),
                (rest as int) / (r as int),
            ).push(((rest as int) % (r as int)) as u16));
            assert(digits@.skip(k as int) =~= seq![(rest % r)] + before.skip(k + 1));
            assert(decode(radices@.take(k as int), (rest / r) as int) + digits@.skip(k as int)
                =~= decode(prefix, rest as int) + before.skip(k + 1));
        }
        rest = rest / r;
    }
    proof {
        assert(radices@.take(0) =~= Seq::<u16>::empty());
        assert(digits@.skip(0) =~= digits@);
        assert(decode(radices@.take(0), rest as int) =~= Seq::<u16>::empty());
        assert(decode(radices@, index as int) =~= digits@);
        lemma_decode_valid(radices@, index as int);
    }
    digits
}

} // verus!
