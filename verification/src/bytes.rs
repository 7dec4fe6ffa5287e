//! Little-endian integers in byte strings, and the few slice operations the
//! rest of the library is built on.

use vstd::prelude::*;

verus! {

/// The unsigned number that the two bytes at `pos` hold, low byte first.
pub open spec fn le_u16(s: Seq<u8>, pos: int) -> int {
    s[pos] + 256 * s[pos + 1]
}

/// The unsigned number that the four bytes at `pos` hold, low byte first.
#[verifier::opaque]
pub open spec fn le_u32(s: Seq<u8>, pos: int) -> int {
    le_u16(s, pos) + 0x1_0000 * le_u16(s, pos + 2)
}

/// The unsigned number that the eight bytes at `pos` hold, low byte first.
#[verifier::opaque]
pub open spec fn le_u64(s: Seq<u8>, pos: int) -> int {
    le_u32(s, pos) + 0x1_0000_0000 * le_u32(s, pos + 4)
}

/// The unsigned number that the sixteen bytes at `pos` hold, low byte first.
#[verifier::opaque]
pub open spec fn le_u128(s: Seq<u8>, pos: int) -> int {
    le_u64(s, pos) + 0x1_0000_0000_0000_0000 * le_u64(s, pos + 8)
}

/// The signed reading of an unsigned number below `modulus`, in two's
/// complement: the upper half of the range stands for the negative numbers.
pub open spec fn twos_complement(n: int, modulus: int) -> int {
    if 2 * n < modulus {
        n
    } else {
        n - modulus
    }
}

/// The unsigned number whose two's complement reading below `modulus` is `n`.
pub open spec fn unsigned_pattern(n: int, modulus: int) -> int {
    if n < 0 {
        n + modulus
    } else {
        n
    }
}

pub open spec fn u16_le_bytes(x: int) -> Seq<u8> {
    seq![(x % 256) as u8, (x / 256) as u8]
}

#[verifier::opaque]
pub open spec fn u32_le_bytes(x: int) -> Seq<u8> {
    u16_le_bytes(x % 0x1_0000) + u16_le_bytes(x / 0x1_0000)
}

#[verifier::opaque]
pub open spec fn u64_le_bytes(x: int) -> Seq<u8> {
    u32_le_bytes(x % 0x1_0000_0000) + u32_le_bytes(x / 0x1_0000_0000)
}

#[verifier::opaque]
pub open spec fn u128_le_bytes(x: int) -> Seq<u8> {
    u64_le_bytes(x % 0x1_0000_0000_0000_0000) + u64_le_bytes(x / 0x1_0000_0000_0000_0000)
}

/// The length of what `u32_le_bytes` writes.
pub proof fn lemma_u32_le_bytes_len(x: int)
    ensures
        u32_le_bytes(x).len() == 4,
{
    reveal(u32_le_bytes);
}

/// The length of what `u64_le_bytes` writes.
pub proof fn lemma_u64_le_bytes_len(x: int)
    ensures
        u64_le_bytes(x).len() == 8,
{
    reveal(u64_le_bytes);
    lemma_u32_le_bytes_len(x % 0x1_0000_0000);
    lemma_u32_le_bytes_len(x / 0x1_0000_0000);
}

/// The length of what `u128_le_bytes` writes.
pub proof fn lemma_u128_le_bytes_len(x: int)
    ensures
        u128_le_bytes(x).len() == 16,
{
    reveal(u128_le_bytes);
    lemma_u64_le_bytes_len(x % 0x1_0000_0000_0000_0000);
    lemma_u64_le_bytes_len(x / 0x1_0000_0000_0000_0000);
}

/// Reading back what `u16_le_bytes` wrote gives the number written.
pub proof fn lemma_u16_round_trip(x: int, s: Seq<u8>, pos: int)
    requires
        0 <= x < 0x1_0000,
        0 <= pos,
        pos + 2 <= s.len(),
        s.subrange(pos, pos + 2) == u16_le_bytes(x),
    ensures
        le_u16(s, pos) == x,
{
    let t = s.subrange(pos, pos + 2);
    assert(t[0] == s[pos] && t[1] == s[pos + 1]);
}

/// Reading back what `u32_le_bytes` wrote gives the number written.
pub proof fn lemma_u32_round_trip(x: int, s: Seq<u8>, pos: int)
    requires
        0 <= x < 0x1_0000_0000,
        0 <= pos,
        pos + 4 <= s.len(),
        s.subrange(pos, pos + 4) == u32_le_bytes(x),
    ensures
        le_u32(s, pos) == x,
{
    reveal(le_u32);
    reveal(u32_le_bytes);
    let t = s.subrange(pos, pos + 4);
    assert(s.subrange(pos, pos + 2) == t.subrange(0, 2));
    assert(s.subrange(pos + 2, pos + 4) == t.subrange(2, 4));
    assert(t.subrange(0, 2) == u16_le_bytes(x % 0x1_0000));
    assert(t.subrange(2, 4) == u16_le_bytes(x / 0x1_0000));
    lemma_u16_round_trip(x % 0x1_0000, s, pos);
    lemma_u16_round_trip(x / 0x1_0000, s, pos + 2);
}

/// Reading back what `u64_le_bytes` wrote gives the number written.
pub proof fn lemma_u64_round_trip(x: int, s: Seq<u8>, pos: int)
    requires
        0 <= x < 0x1_0000_0000_0000_0000,
        0 <= pos,
        pos + 8 <= s.len(),
        s.subrange(pos, pos + 8) == u64_le_bytes(x),
    ensures
        le_u64(s, pos) == x,
{
    reveal(le_u64);
    reveal(u64_le_bytes);
    let t = s.subrange(pos, pos + 8);
    lemma_u32_le_bytes_len(x % 0x1_0000_0000);
    lemma_u32_le_bytes_len(x / 0x1_0000_0000);
    assert(s.subrange(pos, pos + 4) == t.subrange(0, 4));
    assert(s.subrange(pos + 4, pos + 8) == t.subrange(4, 8));
    assert(t.subrange(0, 4) == u32_le_bytes(x % 0x1_0000_0000));
    assert(t.subrange(4, 8) == u32_le_bytes(x / 0x1_0000_0000));
    lemma_u32_round_trip(x % 0x1_0000_0000, s, pos);
    lemma_u32_round_trip(x / 0x1_0000_0000, s, pos + 4);
}

/// Reading back what `u128_le_bytes` wrote gives the number written.
pub proof fn lemma_u128_round_trip(x: int, s: Seq<u8>, pos: int)
    requires
        0 <= x < 0x1_0000_0000_0000_0000_0000_0000_0000_0000,
        0 <= pos,
        pos + 16 <= s.len(),
        s.subrange(pos, pos + 16) == u128_le_bytes(x),
    ensures
        le_u128(s, pos) == x,
{
    reveal(le_u128);
    reveal(u128_le_bytes);
    let t = s.subrange(pos, pos + 16);
    lemma_u64_le_bytes_len(x % 0x1_0000_0000_0000_0000);
    lemma_u64_le_bytes_len(x / 0x1_0000_0000_0000_0000);
    assert(s.subrange(pos, pos + 8) == t.subrange(0, 8));
    assert(s.subrange(pos + 8, pos + 16) == t.subrange(8, 16));
    assert(t.subrange(0, 8) == u64_le_bytes(x % 0x1_0000_0000_0000_0000));
    assert(t.subrange(8, 16) == u64_le_bytes(x / 0x1_0000_0000_0000_0000));
    lemma_u64_round_trip(x % 0x1_0000_0000_0000_0000, s, pos);
    lemma_u64_round_trip(x / 0x1_0000_0000_0000_0000, s, pos + 8);
}

/// A number written as `lo + m * hi` with `lo` below `m` has remainder `lo`
/// and quotient `hi` on division by `m`.
proof fn lemma_split(lo: int, hi: int, m: int)
    requires
        0 <= lo < m,
    ensures
        (lo + m * hi) % m == lo,
        (lo + m * hi) / m == hi,
{
    assert(lo + m * hi == hi * m + lo) by (nonlinear_arith);
    vstd::arithmetic::div_mod::lemma_fundamental_div_mod_converse(lo + m * hi, m, hi, lo);
}

/// Writing what `le_u16` read gives the bytes read.
pub proof fn lemma_u16_bytes_of_read(s: Seq<u8>, pos: int)
    requires
        0 <= pos,
        pos + 2 <= s.len(),
    ensures
        0 <= le_u16(s, pos) < 0x1_0000,
        u16_le_bytes(le_u16(s, pos)) == s.subrange(pos, pos + 2),
{
}

/// Writing what `le_u32` read gives the bytes read.
pub proof fn lemma_u32_bytes_of_read(s: Seq<u8>, pos: int)
    requires
        0 <= pos,
        pos + 4 <= s.len(),
    ensures
        0 <= le_u32(s, pos) < 0x1_0000_0000,
        u32_le_bytes(le_u32(s, pos)) == s.subrange(pos, pos + 4),
{
    reveal(le_u32);
    reveal(u32_le_bytes);
    lemma_u16_bytes_of_read(s, pos);
    lemma_u16_bytes_of_read(s, pos + 2);
    lemma_split(le_u16(s, pos), le_u16(s, pos + 2), 0x1_0000);
    assert(s.subrange(pos, pos + 4) == s.subrange(pos, pos + 2) + s.subrange(pos + 2, pos + 4));
}

/// Writing what `le_u64` read gives the bytes read.
pub proof fn lemma_u64_bytes_of_read(s: Seq<u8>, pos: int)
    requires
        0 <= pos,
        pos + 8 <= s.len(),
    ensures
        0 <= le_u64(s, pos) < 0x1_0000_0000_0000_0000,
        u64_le_bytes(le_u64(s, pos)) == s.subrange(pos, pos + 8),
{
    reveal(le_u64);
    reveal(u64_le_bytes);
    lemma_u32_bytes_of_read(s, pos);
    lemma_u32_bytes_of_read(s, pos + 4);
    lemma_split(le_u32(s, pos), le_u32(s, pos + 4), 0x1_0000_0000);
    assert(s.subrange(pos, pos + 8) == s.subrange(pos, pos + 4) + s.subrange(pos + 4, pos + 8));
}

/// Writing what `le_u128` read gives the bytes read.
pub proof fn lemma_u128_bytes_of_read(s: Seq<u8>, pos: int)
    requires
        0 <= pos,
        pos + 16 <= s.len(),
    ensures
        0 <= le_u128(s, pos) < 0x1_0000_0000_0000_0000_0000_0000_0000_0000,
        u128_le_bytes(le_u128(s, pos)) == s.subrange(pos, pos + 16),
{
    reveal(le_u128);
    reveal(u128_le_bytes);
    lemma_u64_bytes_of_read(s, pos);
    lemma_u64_bytes_of_read(s, pos + 8);
    lemma_split(le_u64(s, pos), le_u64(s, pos + 8), 0x1_0000_0000_0000_0000);
    assert(s.subrange(pos, pos + 16) == s.subrange(pos, pos + 8) + s.subrange(pos + 8, pos + 16));
}

/// Reads the two bytes at `pos` as an unsigned number, low byte first.
pub fn read_u16(buffer: &[u8], pos: usize) -> (x: u16)
    requires
        pos + 2 <= buffer.len(),
    ensures
        x == le_u16(buffer@, pos as int),
{
    let lo: u16 = buffer[pos] as u16;
    let hi: u16 = buffer[pos + 1] as u16;
    lo + 256 * hi
}

/// Reads the four bytes at `pos` as an unsigned number, low byte first.
pub fn read_u32(buffer: &[u8], pos: usize) -> (x: u32)
    requires
        pos + 4 <= buffer.len(),
    ensures
        x == le_u32(buffer@, pos as int),
{
    proof {
        reveal(le_u32);
    }
    let lo: u32 = read_u16(buffer, pos) as u32;
    let hi: u32 = read_u16(buffer, pos + 2) as u32;
    lo + 0x1_0000 * hi
}

/// Reads the eight bytes at `pos` as an unsigned number, low byte first.
pub fn read_u64(buffer: &[u8], pos: usize) -> (x: u64)
    requires
        pos + 8 <= buffer.len(),
    ensures
        x == le_u64(buffer@, pos as int),
{
    proof {
        reveal(le_u64);
    }
    let lo: u64 = read_u32(buffer, pos) as u64;
    let hi: u64 = read_u32(buffer, pos + 4) as u64;
    lo + 0x1_0000_0000 * hi
}

/// Reads the sixteen bytes at `pos` as an unsigned number, low byte first.
pub fn read_u128(buffer: &[u8], pos: usize) -> (x: u128)
    requires
        pos + 16 <= buffer.len(),
    ensures
        x == le_u128(buffer@, pos as int),
{
    proof {
        reveal(le_u128);
    }
    let lo: u128 = read_u64(buffer, pos) as u128;
    let hi: u128 = read_u64(buffer, pos + 8) as u128;
    lo + 0x1_0000_0000_0000_0000 * hi
}

/// Appends the two bytes of `x`, low byte first.
pub fn push_u16(out: &mut Vec<u8>, x: u16)
    ensures
        final(out)@ == old(out)@ + u16_le_bytes(x as int),
{
    out.push((x % 256) as u8);
    out.push((x / 256) as u8);
}

/// Appends the four bytes of `x`, low byte first.
pub fn push_u32(out: &mut Vec<u8>, x: u32)
    ensures
        final(out)@ == old(out)@ + u32_le_bytes(x as int),
{
    proof {
        reveal(u32_le_bytes);
    }
    push_u16(out, (x % 0x1_0000) as u16);
    push_u16(out, (x / 0x1_0000) as u16);
}

/// Appends the eight bytes of `x`, low byte first.
pub fn push_u64(out: &mut Vec<u8>, x: u64)
    ensures
        final(out)@ == old(out)@ + u64_le_bytes(x as int),
{
    proof {
        reveal(u64_le_bytes);
    }
    push_u32(out, (x % 0x1_0000_0000) as u32);
    push_u32(out, (x / 0x1_0000_0000) as u32);
}

/// Appends the sixteen bytes of `x`, low byte first.
pub fn push_u128(out: &mut Vec<u8>, x: u128)
    ensures
        final(out)@ == old(out)@ + u128_le_bytes(x as int),
{
    proof {
        reveal(u128_le_bytes);
    }
    push_u64(out, (x % 0x1_0000_0000_0000_0000) as u64);
    push_u64(out, (x / 0x1_0000_0000_0000_0000) as u64);
}

/// Appends every byte of `bytes`.
pub fn push_bytes(out: &mut Vec<u8>, bytes: &[u8])
    ensures
        final(out)@ == old(out)@ + bytes@,
{
    let mut i: usize = 0;
    while i < bytes.len()
        invariant
            i <= bytes.len(),
            out@ == old(out)@ + bytes@.subrange(0, i as int),
        decreases bytes.len() - i,
    {
        out.push(bytes[i]);
        i = i + 1;
    }
    assert(bytes@.subrange(0, bytes@.len() as int) == bytes@);
}

/// Copies the `len` bytes at `pos` out of `buffer`.
pub fn copy_range(buffer: &[u8], pos: usize, len: usize) -> (out: Vec<u8>)
    requires
        pos + len <= buffer.len(),
    ensures
        out@ == buffer@.subrange(pos as int, pos + len),
{
    let mut out: Vec<u8> = Vec::new();
    let mut i: usize = 0;
    while i < len
        invariant
            i <= len,
            pos + len <= buffer.len(),
            out@ == buffer@.subrange(pos as int, pos + i),
        decreases len - i,
    {
        out.push(buffer[pos + i]);
        i = i + 1;
    }
    out
}

/// Copies the thirty-two bytes at `pos` out of `buffer`.
pub fn read_array32(buffer: &[u8], pos: usize) -> (out: [u8; 32])
    requires
        pos + 32 <= buffer.len(),
    ensures
        out@ == buffer@.subrange(pos as int, pos + 32),
{
    let mut out: [u8; 32] = [0u8; 32];
    let mut i: usize = 0;
    while i < 32
        invariant
            i <= 32,
            pos + 32 <= buffer.len(),
            forall|j: int| 0 <= j < i ==> out@[j] == buffer@[pos + j],
        decreases 32 - i,
    {
        out[i] = buffer[pos + i];
        i = i + 1;
    }
    out
}

/// Whether two byte strings hold the same bytes.
pub fn bytes_equal(a: &[u8], b: &[u8]) -> (same: bool)
    ensures
        same == (a@ == b@),
{
    if a.len() != b.len() {
        return false;
    }
    let mut i: usize = 0;
    while i < a.len()
        invariant
            i <= a.len(),
            a@.len() == b@.len(),
            forall|j: int| 0 <= j < i ==> a@[j] == b@[j],
        decreases a.len() - i,
    {
        if a[i] != b[i] {
            return false;
        }
        i = i + 1;
    }
    assert(a@ =~= b@);
    true
}


/// The array whose thirty-two bytes are those at `pos` of `s`.
pub open spec fn array32_at(s: Seq<u8>, pos: int) -> [u8; 32] {
    choose|a: [u8; 32]| a@ == s.subrange(pos, pos + 32)
}

/// An array that holds the thirty-two bytes at `pos` of `s` is the one that
/// `array32_at` names.
pub proof fn lemma_array32_at(a: [u8; 32], s: Seq<u8>, pos: int)
    requires
        a@ == s.subrange(pos, pos + 32),
    ensures
        array32_at(s, pos) == a,
{
    let c = array32_at(s, pos);
    assert(c@ == s.subrange(pos, pos + 32));
    assert(c@ =~= a@);
    assert(c =~= a);
}

/// Where the bytes from `pos` on are `a` and then `b`, the bytes at `pos` are
/// `a` and those behind them are `b`.
pub proof fn lemma_split_at(s: Seq<u8>, pos: int, a: Seq<u8>, b: Seq<u8>)
    requires
        0 <= pos,
        pos + a.len() + b.len() <= s.len(),
        s.subrange(pos, pos + a.len() + b.len()) == a + b,
    ensures
        s.subrange(pos, pos + a.len()) == a,
        s.subrange(pos + a.len(), pos + a.len() + b.len()) == b,
{
    let t = s.subrange(pos, pos + a.len() + b.len());
    assert(s.subrange(pos, pos + a.len()) =~= t.subrange(0, a.len() as int));
    assert(s.subrange(pos + a.len(), pos + a.len() + b.len()) =~= t.subrange(
        a.len() as int,
        (a.len() + b.len()) as int,
    ));
    assert(t.subrange(0, a.len() as int) =~= a);
    assert(t.subrange(a.len() as int, (a.len() + b.len()) as int) =~= b);
}

/// Reading in two's complement the pattern of a number gives the number.
pub proof fn lemma_twos_complement_of_pattern(n: int, modulus: int)
    requires
        modulus > 0,
        modulus % 2 == 0,
        -(modulus / 2) <= n < modulus / 2,
    ensures
        0 <= unsigned_pattern(n, modulus) < modulus,
        twos_complement(unsigned_pattern(n, modulus), modulus) == n,
{
}

/// An array whose first `n` bytes are those at `pos` of `s`.
pub open spec fn array32_built(s: Seq<u8>, pos: int, n: nat) -> [u8; 32]
    decreases n,
{
    if n == 0 {
        vstd::array::spec_array_fill_for_copy_type::<u8, 32>(0u8)
    } else {
        vstd::array::spec_array_update(array32_built(s, pos, (n - 1) as nat), n - 1, s[pos + n - 1])
    }
}

/// The first `n` bytes of `array32_built` are those at `pos` of `s`.
pub proof fn lemma_array32_built(s: Seq<u8>, pos: int, n: nat)
    requires
        n <= 32,
    ensures
        forall|j: int| 0 <= j < n ==> array32_built(s, pos, n)@[j] == s[pos + j],
    decreases n,
{
    if n > 0 {
        lemma_array32_built(s, pos, (n - 1) as nat);
        let before = array32_built(s, pos, (n - 1) as nat);
        let after = array32_built(s, pos, n);
        assert(after == vstd::array::spec_array_update(before, n - 1, s[pos + n - 1]));
        assert(after@ == before@.update(n - 1, s[pos + n - 1]));
    }
}

/// Thirty-two bytes that stand in `s` are the bytes of the array that
/// `array32_at` names.
pub proof fn lemma_array32_at_view(s: Seq<u8>, pos: int)
    requires
        0 <= pos,
        pos + 32 <= s.len(),
    ensures
        array32_at(s, pos)@ == s.subrange(pos, pos + 32),
{
    lemma_array32_built(s, pos, 32);
    let witness = array32_built(s, pos, 32);
    assert(witness@ =~= s.subrange(pos, pos + 32));
}

/// The pattern of the two's complement reading of a number is the number.
pub proof fn lemma_pattern_of_twos_complement(n: int, modulus: int)
    requires
        modulus > 0,
        modulus % 2 == 0,
        0 <= n < modulus,
    ensures
        -(modulus / 2) <= twos_complement(n, modulus) < modulus / 2,
        unsigned_pattern(twos_complement(n, modulus), modulus) == n,
{
}

/// Where the bytes from `pos` to `mid` are `a` and those from `mid` to `end`
/// are `b`, the bytes from `pos` to `end` are `a` and then `b`.
pub proof fn lemma_join_at(s: Seq<u8>, pos: int, mid: int, end: int, a: Seq<u8>, b: Seq<u8>)
    requires
        0 <= pos <= mid <= end <= s.len(),
        s.subrange(pos, mid) == a,
        s.subrange(mid, end) == b,
    ensures
        s.subrange(pos, end) == a + b,
{
    assert(s.subrange(pos, end) =~= s.subrange(pos, mid) + s.subrange(mid, end));
}

/// Appending to a byte string what is itself two strings one after the
/// other is appending the first and then the second.
pub proof fn lemma_append_both(a: Seq<u8>, b: Seq<u8>, c: Seq<u8>)
    ensures
        a + (b + c) == (a + b) + c,
{
    assert(a + (b + c) =~= (a + b) + c);
}

} // verus!
