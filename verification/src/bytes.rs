use vstd::prelude::*;

verus! {

/// Whether bit `k` (0 = least significant) of a byte is set.
pub open spec fn bit_set(b: u8, k: u8) -> bool {
    (b >> k) & 1u8 == 1u8
}

/// A one-element warning list when `cond` holds, else the empty list.
pub open spec fn warn_if<W>(cond: bool, w: W) -> Seq<W> {
    if cond {
        seq![w]
    } else {
        Seq::empty()
    }
}

/// Masking a byte bounds it by the mask.
pub proof fn lemma_low_bits_bound(b: u8)
    by (bit_vector)
    ensures
        b & 0x01u8 <= 1,
        b & 0x03u8 <= 3,
        b & 0x07u8 <= 7,
        b & 0x0Fu8 <= 15,
        b & 0x1Fu8 <= 31,
        b & 0x7Fu8 <= 127,
        (b >> 1u8) & 0x07u8 <= 7,
        (b >> 2u8) & 0x07u8 <= 7,
        (b >> 3u8) & 0x07u8 <= 7,
        (b >> 4u8) & 0x07u8 <= 7,
        (b >> 5u8) & 0x07u8 <= 7,
        (b >> 3u8) & 0x0Fu8 <= 15,
        (b >> 4u8) & 0x03u8 <= 3,
        (b >> 6u8) & 0x03u8 <= 3,
        b >> 0u8 == b,
{
}

/// The little-endian 16-bit value of two bytes.
pub open spec fn le16(lo: u8, hi: u8) -> u16 {
    (lo as int + 256 * hi as int) as u16
}

/// Read a little-endian 16-bit value.
pub fn read_le16(lo: u8, hi: u8) -> (r: u16)
    ensures
        r == le16(lo, hi),
{
    lo as u16 + (hi as u16) * 256
}

/// The array whose elements are the sequence `s` (meaningful when `s` has
/// exactly `N` elements).
pub open spec fn array_of<T, const N: usize>(s: Seq<T>) -> [T; N] {
    choose|a: [T; N]| a@ == s
}

/// An array whose first `k` elements are those of `s`.
proof fn lemma_array_with_prefix<T, const N: usize>(s: Seq<T>, k: int) -> (a: [T; N])
    requires
        s.len() == N,
        0 <= k <= N,
    ensures
        a@.len() == N,
        forall|i: int| 0 <= i < k ==> a@[i] == s[i],
    decreases k,
{
    if k == 0 {
        let a = vstd::pervasive::arbitrary::<[T; N]>();
        assert(a@.len() == N) by {
            vstd::array::array_len_matches_n(&a);
        }
        a
    } else {
        let b = lemma_array_with_prefix::<T, N>(s, k - 1);
        let a = vstd::array::spec_array_update(b, k - 1, s[k - 1]);
        assert(a@ == b@.update(k - 1, s[k - 1]));
        a
    }
}

/// A sequence of `N` elements is the view of the array built from it.
pub proof fn lemma_array_of_view<T, const N: usize>(s: Seq<T>)
    requires
        s.len() == N,
    ensures
        array_of::<T, N>(s)@ == s,
{
    let a = lemma_array_with_prefix::<T, N>(s, N as int);
    assert(a@ =~= s);
}

/// An array is the array of its own elements.
pub proof fn lemma_array_of<T, const N: usize>(a: [T; N])
    ensures
        array_of::<T, N>(a@) == a,
{
    let b = array_of::<T, N>(a@);
    assert(b@ == a@);
    assert forall|i: int| 0 <= i < N implies b[i] == a[i] by {
        assert(b@[i] == a@[i]);
    }
    assert(b =~= a);
}

} // verus!
