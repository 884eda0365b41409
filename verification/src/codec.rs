//! Little-endian integers in byte strings.
//!
//! Records and payloads hold their integers least significant byte first.
//! The functions here read and write such fields; their contracts are
//! stated over [`le_value`] and [`le_bytes`], which are inverse to each
//! other on every width.

use vstd::prelude::*;

verus! {

/// 256 to the power `k`: the number of values that `k` bytes can hold.
pub open spec fn pow256(k: nat) -> nat
    decreases k,
{
    if k == 0 {
        1
    } else {
        256 * pow256((k - 1) as nat)
    }
}

/// The number that `bytes` stands for, least significant byte first.
pub open spec fn le_value(bytes: Seq<u8>) -> nat
    decreases bytes.len(),
{
    if bytes.len() == 0 {
        0
    } else {
        bytes[0] as nat + 256 * le_value(bytes.skip(1))
    }
}

/// The `width` low bytes of `value`, least significant byte first.
pub open spec fn le_bytes(value: nat, width: nat) -> Seq<u8>
    decreases width,
{
    if width == 0 {
        Seq::empty()
    } else {
        seq![(value % 256) as u8] + le_bytes(value / 256, (width - 1) as nat)
    }
}

/// The powers of 256 at the widths of the integer types.
pub proof fn lemma_pow256_widths()
    ensures
        pow256(0) == 1,
        pow256(1) == 0x100,
        pow256(2) == 0x1_0000,
        pow256(4) == 0x1_0000_0000,
        pow256(8) == 0x1_0000_0000_0000_0000,
        pow256(16) == 0x1_0000_0000_0000_0000_0000_0000_0000_0000,
{
    reveal_with_fuel(pow256, 17);
}

/// The powers of 256 grow with the exponent.
pub proof fn lemma_pow256_monotonic(j: nat, k: nat)
    requires
        j <= k,
    ensures
        1 <= pow256(j) <= pow256(k),
    decreases k,
{
    if k == 0 {
    } else if j == k {
        lemma_pow256_monotonic(0, (k - 1) as nat);
    } else {
        lemma_pow256_monotonic(j, (k - 1) as nat);
    }
}

/// [`le_bytes`] yields exactly `width` bytes.
pub proof fn lemma_le_bytes_len(value: nat, width: nat)
    ensures
        le_bytes(value, width).len() == width,
    decreases width,
{
    if width > 0 {
        lemma_le_bytes_len(value / 256, (width - 1) as nat);
    }
}

/// A string of `n` bytes stands for a number below 256 to the `n`.
pub proof fn lemma_le_value_bound(bytes: Seq<u8>)
    ensures
        le_value(bytes) < pow256(bytes.len()),
    decreases bytes.len(),
{
    if bytes.len() > 0 {
        lemma_le_value_bound(bytes.skip(1));
    }
}

/// Reading back what was written gives the number that was written,
/// provided that it fits in the width.
pub proof fn lemma_le_value_of_bytes(value: nat, width: nat)
    requires
        value < pow256(width),
    ensures
        le_value(le_bytes(value, width)) == value,
    decreases width,
{
    if width > 0 {
        let rest = le_bytes(value / 256, (width - 1) as nat);
        let all = le_bytes(value, width);
        lemma_le_value_of_bytes(value / 256, (width - 1) as nat);
        assert(all.skip(1) =~= rest);
        assert(all[0] == (value % 256) as u8);
    }
}

/// Writing the number that a string stands for, at the string's own
/// width, gives the string back.
pub proof fn lemma_le_bytes_of_value(bytes: Seq<u8>)
    ensures
        le_bytes(le_value(bytes), bytes.len()) == bytes,
    decreases bytes.len(),
{
    if bytes.len() > 0 {
        let rest = bytes.skip(1);
        lemma_le_bytes_of_value(rest);
        let v = le_value(bytes);
        assert(v % 256 == bytes[0] as nat);
        assert(v / 256 == le_value(rest));
        assert(le_bytes(v, bytes.len()) =~= bytes);
    }
}

/// Two numbers that fit in a width and are written alike are the same
/// number.
pub proof fn lemma_le_bytes_injective(a: nat, b: nat, width: nat)
    requires
        a < pow256(width),
        b < pow256(width),
        le_bytes(a, width) == le_bytes(b, width),
    ensures
        a == b,
{
    lemma_le_value_of_bytes(a, width);
    lemma_le_value_of_bytes(b, width);
}

/// Reads the `width` bytes of `data` that start at `at` as one
/// little-endian number.
pub fn read_le(data: &[u8], at: usize, width: usize) -> (value: u128)
    requires
        width <= 16,
        at + width <= data@.len(),
    ensures
        value == le_value(data@.subrange(at as int, at + width)),
{
    let len: usize = data.len();
    let mut value: u128 = 0;
    let mut k: usize = width;
    proof {
        lemma_pow256_widths();
    }
    while k > 0
        invariant
            k <= width <= 16,
            at + width <= len == data@.len(),
            value == le_value(data@.subrange(at + k, at + width)),
            value < pow256((width - k) as nat),
            pow256(16) == 0x1_0000_0000_0000_0000_0000_0000_0000_0000,
        decreases k,
    {
        k = k - 1;
        let byte: u8 = data[at + k];
        proof {
            let tail = data@.subrange(at + k + 1, at + width);
            let more = data@.subrange(at + k, at + width);
            assert(more.skip(1) =~= tail);
            assert(more[0] == byte);
            lemma_le_value_bound(more);
            lemma_pow256_monotonic((width - k) as nat, 16);
        }
        value = value * 256 + byte as u128;
    }
    value
}

/// Reads a `u16` field.
pub fn read_u16_le(data: &[u8], at: usize) -> (value: u16)
    requires
        at + 2 <= data@.len(),
    ensures
        value == le_value(data@.subrange(at as int, at + 2)),
{
    let wide: u128 = read_le(data, at, 2);
    proof {
        lemma_le_value_bound(data@.subrange(at as int, at + 2));
        lemma_pow256_widths();
    }
    wide as u16
}

/// Reads a `u32` field.
pub fn read_u32_le(data: &[u8], at: usize) -> (value: u32)
    requires
        at + 4 <= data@.len(),
    ensures
        value == le_value(data@.subrange(at as int, at + 4)),
{
    let wide: u128 = read_le(data, at, 4);
    proof {
        lemma_le_value_bound(data@.subrange(at as int, at + 4));
        lemma_pow256_widths();
    }
    wide as u32
}

/// Reads a `u64` field.
pub fn read_u64_le(data: &[u8], at: usize) -> (value: u64)
    requires
        at + 8 <= data@.len(),
    ensures
        value == le_value(data@.subrange(at as int, at + 8)),
{
    let wide: u128 = read_le(data, at, 8);
    proof {
        lemma_le_value_bound(data@.subrange(at as int, at + 8));
        lemma_pow256_widths();
    }
    wide as u64
}

/// Reads a `u128` field.
pub fn read_u128_le(data: &[u8], at: usize) -> (value: u128)
    requires
        at + 16 <= data@.len(),
    ensures
        value == le_value(data@.subrange(at as int, at + 16)),
{
    read_le(data, at, 16)
}

/// Appends the `width` low bytes of `value` to `out`, least significant
/// byte first.
pub fn push_le(out: &mut Vec<u8>, value: u128, width: usize)
    ensures
        final(out)@ == old(out)@ + le_bytes(value as nat, width as nat),
{
    let mut rest: u128 = value;
    let mut k: usize = 0;
    while k < width
        invariant
            k <= width,
            old(out)@ + le_bytes(value as nat, width as nat) == out@ + le_bytes(
                rest as nat,
                (width - k) as nat,
            ),
        decreases width - k,
    {
        let ghost before = out@;
        out.push((rest % 256) as u8);
        proof {
            let tail = le_bytes((rest / 256) as nat, (width - k - 1) as nat);
            assert(le_bytes(rest as nat, (width - k) as nat) == seq![(rest % 256) as u8] + tail);
            assert(before + (seq![(rest % 256) as u8] + tail) =~= out@ + tail);
        }
        rest = rest / 256;
        k = k + 1;
    }
    assert(out@ + le_bytes(rest as nat, 0) =~= out@);
}

/// Appends every byte of `src` to `out`.
pub fn push_bytes(out: &mut Vec<u8>, src: &[u8])
    ensures
        final(out)@ == old(out)@ + src@,
{
    let mut k: usize = 0;
    while k < src.len()
        invariant
            k <= src@.len(),
            out@ == old(out)@ + src@.subrange(0, k as int),
        decreases src@.len() - k,
    {
        out.push(src[k]);
        assert(src@.subrange(0, k + 1) =~= src@.subrange(0, k as int).push(src@[k as int]));
        k = k + 1;
    }
    assert(src@.subrange(0, k as int) =~= src@);
}

/// An array whose first `k` bytes are those of `bytes`.
pub closed spec fn array_prefix<const N: usize>(bytes: Seq<u8>, k: nat) -> [u8; N]
    decreases k,
{
    if k == 0 {
        vstd::pervasive::arbitrary()
    } else {
        vstd::array::spec_array_update(
            array_prefix::<N>(bytes, (k - 1) as nat),
            k - 1,
            bytes[k - 1],
        )
    }
}

/// The array that holds the `N` bytes of `bytes`.
pub open spec fn array_of<const N: usize>(bytes: Seq<u8>) -> [u8; N] {
    array_prefix::<N>(bytes, N as nat)
}

proof fn lemma_array_prefix<const N: usize>(bytes: Seq<u8>, k: nat)
    requires
        k <= N,
        bytes.len() == N,
    ensures
        forall|j: int| 0 <= j < k ==> array_prefix::<N>(bytes, k)@[j] == bytes[j],
    decreases k,
{
    if k > 0 {
        lemma_array_prefix::<N>(bytes, (k - 1) as nat);
    }
}

/// [`array_of`] holds exactly the bytes it was made of, and is the only
/// array that does.
pub proof fn lemma_array_of<const N: usize>(bytes: Seq<u8>)
    requires
        bytes.len() == N,
    ensures
        array_of::<N>(bytes)@ == bytes,
        forall|other: [u8; N]| other@ == bytes ==> other == array_of::<N>(bytes),
{
    lemma_array_prefix::<N>(bytes, N as nat);
    assert(array_of::<N>(bytes)@ =~= bytes);
    assert forall|other: [u8; N]| other@ == bytes implies other == array_of::<N>(bytes) by {
        assert(other =~= array_of::<N>(bytes));
    }
}

/// Copies the `N` bytes of `data` that start at `at` into an array.
pub fn read_array<const N: usize>(data: &[u8], at: usize) -> (out: [u8; N])
    requires
        at + N <= data@.len(),
    ensures
        out@ == data@.subrange(at as int, at + N),
        out == array_of::<N>(data@.subrange(at as int, at + N)),
{
    let len: usize = data.len();
    let mut out: [u8; N] = [0u8; N];
    let mut k: usize = 0;
    while k < N
        invariant
            k <= N,
            at + N <= len == data@.len(),
            forall|j: int| 0 <= j < k ==> out@[j] == data@[at + j],
        decreases N - k,
    {
        out[k] = data[at + k];
        k = k + 1;
    }
    assert(out@ =~= data@.subrange(at as int, at + N));
    proof {
        lemma_array_of::<N>(data@.subrange(at as int, at + N));
    }
    out
}

} // verus!
