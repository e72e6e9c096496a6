//! Records of one width laid end to end behind a four-byte count: the layout
//! of every list that this crate stores or sends.

use vstd::bytes::*;
use vstd::prelude::*;

verus! {

/// The byte that stands for a flag: one for `true`, zero for `false`.
pub open spec fn bool_byte(b: bool) -> u8 {
    if b {
        1u8
    } else {
        0u8
    }
}

/// The encodings of `items`, in order, laid end to end.
pub open spec fn encode_each<T>(items: Seq<T>, encode: spec_fn(T) -> Seq<u8>) -> Seq<u8>
    decreases items.len(),
{
    if items.len() == 0 {
        Seq::empty()
    } else {
        encode_each(items.drop_last(), encode) + encode(items.last())
    }
}

/// The number of `items` in four little-endian bytes, then their encodings.
pub open spec fn encode_counted<T>(items: Seq<T>, encode: spec_fn(T) -> Seq<u8>) -> Seq<u8> {
    spec_u32_to_le_bytes(items.len() as u32) + encode_each(items, encode)
}

/// Every value encodes to exactly `width` bytes.
pub open spec fn fixed_width<T>(encode: spec_fn(T) -> Seq<u8>, width: nat) -> bool {
    forall|t: T| #[trigger] encode(t).len() == width
}

/// Different values have different encodings.
pub open spec fn injective<T>(encode: spec_fn(T) -> Seq<u8>) -> bool {
    forall|x: T, y: T| #![trigger encode(x), encode(y)] encode(x) == encode(y) ==> x == y
}

/// Records of one width take the width times their number.
pub proof fn lemma_encode_each_len<T>(items: Seq<T>, encode: spec_fn(T) -> Seq<u8>, width: nat)
    requires
        fixed_width(encode, width),
    ensures
        encode_each(items, encode).len() == items.len() * width,
    decreases items.len(),
{
    if items.len() > 0 {
        lemma_encode_each_len(items.drop_last(), encode, width);
        assert(encode(items.last()).len() == width);
        assert((items.len() - 1) * width + width == items.len() * width) by (nonlinear_arith);
    }
}

/// Byte `k` of record `i` stands at `i * width + k`.
pub proof fn lemma_encode_each_index<T>(
    items: Seq<T>,
    encode: spec_fn(T) -> Seq<u8>,
    width: nat,
    i: int,
    k: int,
)
    requires
        fixed_width(encode, width),
        0 <= i < items.len(),
        0 <= k < width,
    ensures
        0 <= i * width + k < encode_each(items, encode).len(),
        encode_each(items, encode)[i * width + k] == encode(items[i])[k],
    decreases items.len(),
{
    let n = items.len() as int;
    let w = width as int;
    lemma_encode_each_len(items, encode, width);
    lemma_encode_each_len(items.drop_last(), encode, width);
    assert(encode(items.last()).len() == width);
    assert(0 <= i * w + k < n * w && (i < n - 1 ==> i * w + k < (n - 1) * w) && (n - 1) * w + w
        == n * w) by (nonlinear_arith)
        requires
            0 <= i < n,
            0 <= k < w,
    ;
    if i < n - 1 {
        lemma_encode_each_index(items.drop_last(), encode, width, i, k);
    }
}

/// Lists of records of one width, encoded alike, are the same list.
pub proof fn lemma_encode_each_injective<T>(
    a: Seq<T>,
    b: Seq<T>,
    encode: spec_fn(T) -> Seq<u8>,
    width: nat,
)
    requires
        fixed_width(encode, width),
        injective(encode),
        width > 0,
        encode_each(a, encode) == encode_each(b, encode),
    ensures
        a == b,
{
    lemma_encode_each_len(a, encode, width);
    lemma_encode_each_len(b, encode, width);
    let w = width as int;
    let la = a.len() as int;
    let lb = b.len() as int;
    assert(la == lb) by (nonlinear_arith)
        requires
            la * w == lb * w,
            w > 0,
    ;
    assert forall|i: int| 0 <= i < a.len() implies a[i] == b[i] by {
        let xa = encode(a[i]);
        let xb = encode(b[i]);
        assert forall|k: int| 0 <= k < width implies #[trigger] xa[k] == xb[k] by {
            lemma_encode_each_index(a, encode, width, i, k);
            lemma_encode_each_index(b, encode, width, i, k);
        }
        assert(xa.len() == width);
        assert(xb.len() == width);
        assert(xa =~= xb);
    }
    assert(a =~= b);
}

/// A counted list determines its items, as long as their number fits the
/// four bytes of the count.
pub proof fn lemma_encode_counted_injective<T>(
    a: Seq<T>,
    b: Seq<T>,
    encode: spec_fn(T) -> Seq<u8>,
    width: nat,
)
    requires
        fixed_width(encode, width),
        injective(encode),
        width > 0,
        a.len() <= u32::MAX,
        b.len() <= u32::MAX,
        encode_counted(a, encode) == encode_counted(b, encode),
    ensures
        a == b,
{
    lemma_auto_spec_u32_to_from_le_bytes();
    let ca = spec_u32_to_le_bytes(a.len() as u32);
    let cb = spec_u32_to_le_bytes(b.len() as u32);
    let ea = encode_each(a, encode);
    let eb = encode_each(b, encode);
    assert(ca =~= (ca + ea).subrange(0, 4));
    assert(cb =~= (cb + eb).subrange(0, 4));
    assert(ea =~= (ca + ea).subrange(4, (ca + ea).len() as int));
    assert(eb =~= (cb + eb).subrange(4, (cb + eb).len() as int));
    assert(spec_u32_from_le_bytes(ca) == a.len());
    assert(spec_u32_from_le_bytes(cb) == b.len());
    lemma_encode_each_injective(a, b, encode, width);
}

/// A counted list starts with its count and holds record `i` at
/// `4 + i * width`.
pub proof fn lemma_encode_counted_layout<T>(
    items: Seq<T>,
    encode: spec_fn(T) -> Seq<u8>,
    width: nat,
)
    requires
        fixed_width(encode, width),
        items.len() <= u32::MAX,
    ensures
        encode_counted(items, encode).len() == 4 + items.len() * width,
        encode_counted(items, encode).subrange(0, 4) == spec_u32_to_le_bytes(items.len() as u32),
        spec_u32_from_le_bytes(encode_counted(items, encode).subrange(0, 4)) == items.len(),
        forall|i: int, k: int|
            0 <= i < items.len() && 0 <= k < width ==> #[trigger] encode_counted(
                items,
                encode,
            )[4 + i * width + k] == encode(items[i])[k],
{
    lemma_auto_spec_u32_to_from_le_bytes();
    lemma_encode_each_len(items, encode, width);
    let c = spec_u32_to_le_bytes(items.len() as u32);
    let e = encode_each(items, encode);
    assert(c =~= (c + e).subrange(0, 4));
    assert forall|i: int, k: int| 0 <= i < items.len() && 0 <= k < width implies #[trigger] (c
        + e)[4 + i * width + k] == encode(items[i])[k] by {
        lemma_encode_each_index(items, encode, width, i, k);
    }
}

} // verus!
