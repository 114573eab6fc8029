//! Big-endian integers on the wire and 16-bit word sums over bytes.
use vstd::prelude::*;

verus! {

/// The 16-bit integer whose big-endian encoding is `[hi, lo]`.
pub open spec fn be_u16(hi: u8, lo: u8) -> u16 {
    (hi * 0x100 + lo) as u16
}

/// The 32-bit integer whose big-endian encoding is `[b0, b1, b2, b3]`.
pub open spec fn be_u32(b0: u8, b1: u8, b2: u8, b3: u8) -> u32 {
    (b0 * 0x100_0000 + b1 * 0x1_0000 + b2 * 0x100 + b3) as u32
}

/// Big-endian encoding of a 16-bit integer.
pub open spec fn u16_be_bytes(x: u16) -> Seq<u8> {
    seq![(x / 0x100) as u8, (x % 0x100) as u8]
}

/// Big-endian encoding of a 32-bit integer.
pub open spec fn u32_be_bytes(x: u32) -> Seq<u8> {
    seq![
        (x / 0x100_0000) as u8,
        (x / 0x1_0000 % 0x100) as u8,
        (x / 0x100 % 0x100) as u8,
        (x % 0x100) as u8,
    ]
}

/// Reduction of an integer to 16 bits: what a sum accumulated in a `u16`
/// with wrap-around holds.
pub open spec fn wrap16(n: int) -> u16 {
    (n % 0x1_0000) as u16
}

/// Sum of the two 16-bit halves of a 32-bit integer.
pub open spec fn halves_sum(x: u32) -> int {
    x / 0x1_0000 + x % 0x1_0000
}

/// The `k`-th big-endian 16-bit word of `s`; a last odd byte is the high
/// byte of a word whose low byte is zero.
pub open spec fn word_at(s: Seq<u8>, k: int) -> int {
    s[2 * k] * 0x100 + if 2 * k + 1 < s.len() {
        s[2 * k + 1] as int
    } else {
        0
    }
}

/// Sum of the first `n` big-endian 16-bit words of `s`.
pub open spec fn words_sum(s: Seq<u8>, n: nat) -> int
    decreases n,
{
    if n == 0 {
        0
    } else {
        words_sum(s, (n - 1) as nat) + word_at(s, n - 1)
    }
}

/// Sum of all big-endian 16-bit words of `s` (zero-padded to even length).
pub open spec fn data_words_sum(s: Seq<u8>) -> int {
    words_sum(s, ((s.len() + 1) / 2) as nat)
}

pub proof fn lemma_be_u16_roundtrip(x: u16)
    ensures
        be_u16(u16_be_bytes(x)[0], u16_be_bytes(x)[1]) == x,
{
    assert(((x / 0x100) as u8) * 0x100 + ((x % 0x100) as u8) == x) by (bit_vector);
}

pub proof fn lemma_u16_bytes_roundtrip(hi: u8, lo: u8)
    ensures
        u16_be_bytes(be_u16(hi, lo)) == seq![hi, lo],
{
    assert(hi * 0x100 + lo <= 0xffff) by (bit_vector);
    let x = be_u16(hi, lo);
    assert(((hi * 0x100 + lo) / 0x100) as u8 == hi) by (bit_vector);
    assert(((hi * 0x100 + lo) % 0x100) as u8 == lo) by (bit_vector);
    assert(u16_be_bytes(x) =~= seq![hi, lo]);
}

pub proof fn lemma_be_u32_roundtrip(x: u32)
    ensures
        be_u32(u32_be_bytes(x)[0], u32_be_bytes(x)[1], u32_be_bytes(x)[2], u32_be_bytes(x)[3])
            == x,
{
    assert(((x / 0x100_0000) as u8) * 0x100_0000 + ((x / 0x1_0000 % 0x100) as u8) * 0x1_0000 + ((x
        / 0x100 % 0x100) as u8) * 0x100 + ((x % 0x100) as u8) == x) by (bit_vector);
}

pub proof fn lemma_u32_bytes_roundtrip(b0: u8, b1: u8, b2: u8, b3: u8)
    ensures
        u32_be_bytes(be_u32(b0, b1, b2, b3)) == seq![b0, b1, b2, b3],
{
    assert(b0 * 0x100_0000 + b1 * 0x1_0000 + b2 * 0x100 + b3 <= 0xffff_ffff) by (bit_vector);
    let x = be_u32(b0, b1, b2, b3);
    assert(x == b0 * 0x100_0000 + b1 * 0x1_0000 + b2 * 0x100 + b3);
    assert((x / 0x100_0000) as u8 == b0) by (bit_vector)
        requires
            x == b0 * 0x100_0000 + b1 * 0x1_0000 + b2 * 0x100 + b3,
    ;
    assert((x / 0x1_0000 % 0x100) as u8 == b1) by (bit_vector)
        requires
            x == b0 * 0x100_0000 + b1 * 0x1_0000 + b2 * 0x100 + b3,
    ;
    assert((x / 0x100 % 0x100) as u8 == b2) by (bit_vector)
        requires
            x == b0 * 0x100_0000 + b1 * 0x1_0000 + b2 * 0x100 + b3,
    ;
    assert((x % 0x100) as u8 == b3) by (bit_vector)
        requires
            x == b0 * 0x100_0000 + b1 * 0x1_0000 + b2 * 0x100 + b3,
    ;
    assert(u32_be_bytes(x) =~= seq![b0, b1, b2, b3]);
}

/// The big-endian readings are the plain positional values of the bytes.
pub proof fn lemma_be_values(b0: u8, b1: u8, b2: u8, b3: u8)
    ensures
        be_u32(b0, b1, b2, b3) == b0 * 0x100_0000 + b1 * 0x1_0000 + b2 * 0x100 + b3,
        be_u16(b0, b1) == b0 * 0x100 + b1,
{
}

/// Words that lie wholly inside `d` are not changed by appending to `d`.
pub proof fn lemma_words_sum_prefix(d: Seq<u8>, x: Seq<u8>, n: nat)
    requires
        2 * n <= d.len(),
    ensures
        words_sum(d + x, n) == words_sum(d, n),
    decreases n,
{
    if n > 0 {
        lemma_words_sum_prefix(d, x, (n - 1) as nat);
        assert(word_at(d + x, n - 1) == word_at(d, n - 1));
    }
}

/// Appending two bytes to an even-length sequence adds the word they form.
pub proof fn lemma_data_words_append_word(d: Seq<u8>, a: u8, b: u8)
    requires
        d.len() % 2 == 0,
    ensures
        data_words_sum(d + seq![a, b]) == data_words_sum(d) + a * 0x100 + b,
{
    let e = d + seq![a, b];
    let n = (d.len() / 2) as nat;
    lemma_words_sum_prefix(d, seq![a, b], n);
    assert((e.len() + 1) / 2 == n + 1);
    assert((d.len() + 1) / 2 == n);
    assert(e[2 * (n as int)] == a && e[2 * (n as int) + 1] == b);
    assert(word_at(e, n as int) == a * 0x100 + b);
}

/// Appending one byte to an even-length sequence adds it as a high byte.
pub proof fn lemma_data_words_append_byte(d: Seq<u8>, a: u8)
    requires
        d.len() % 2 == 0,
    ensures
        data_words_sum(d + seq![a]) == data_words_sum(d) + a * 0x100,
{
    let e = d + seq![a];
    let n = (d.len() / 2) as nat;
    lemma_words_sum_prefix(d, seq![a], n);
    assert((e.len() + 1) / 2 == n + 1);
    assert((d.len() + 1) / 2 == n);
    assert(e[2 * (n as int)] == a);
    assert(word_at(e, n as int) == a * 0x100);
}

/// Adding a 16-bit value with wrap-around is addition reduced to 16 bits.
pub proof fn lemma_wrapping_add(x: u16, y: u16)
    ensures
        vstd::wrapping::u16_specs::wrapping_add(x, y) == wrap16(x + y),
{
    if x + y > 0xffff {
        assert((x + y) % 0x1_0000 == x + y - 0x1_0000);
    } else {
        assert((x + y) % 0x1_0000 == x + y);
    }
}

/// Reducing part way through a sum does not change the reduced total.
pub proof fn lemma_wrap16_add(a: int, w: int)
    ensures
        wrap16(wrap16(a) + w) == wrap16(a + w),
{
    vstd::arithmetic::div_mod::lemma_add_mod_noop_right(w, a, 0x1_0000);
    assert(0 <= a % 0x1_0000 < 0x1_0000);
}

/// Adding the accumulator's next word keeps it equal to the reduced sum.
pub proof fn lemma_accumulate(acc: u16, total: int, w: u16)
    requires
        acc == wrap16(total),
    ensures
        vstd::wrapping::u16_specs::wrapping_add(acc, w) == wrap16(total + w),
{
    lemma_wrapping_add(acc, w);
    lemma_wrap16_add(total, w as int);
}

/// The two halves of a 32-bit integer, as the shifts and truncations that
/// compute them.
pub proof fn lemma_halves(x: u32)
    ensures
        (x >> 16) as u16 == x / 0x1_0000,
        x as u16 == x % 0x1_0000,
{
    assert((x >> 16) as u16 == x / 0x1_0000) by (bit_vector);
    assert(x as u16 == x % 0x1_0000) by (bit_vector);
}

/// The two big-endian words of a 32-bit integer's encoding are its halves.
pub proof fn lemma_u32_be_words(x: u32)
    ensures
        word_at(u32_be_bytes(x), 0) == x / 0x1_0000,
        word_at(u32_be_bytes(x), 1) == x % 0x1_0000,
{
    assert(((x / 0x100_0000) as u8) * 0x100 + ((x / 0x1_0000 % 0x100) as u8) == x / 0x1_0000)
        by (bit_vector);
    assert(((x / 0x100 % 0x100) as u8) * 0x100 + ((x % 0x100) as u8) == x % 0x1_0000)
        by (bit_vector);
}

/// Sums the big-endian 16-bit words of `bytes` onto `start` with
/// wrap-around; an odd last byte counts as the high byte of a word.
pub fn add_be_words(start: u16, bytes: &[u8]) -> (sum: u16)
    ensures
        sum == wrap16(start + data_words_sum(bytes@)),
{
    let len = bytes.len();
    let mut acc = start;
    let mut i: usize = 0;
    while len - i >= 2
        invariant
            len == bytes@.len(),
            i <= len,
            i % 2 == 0,
            acc == wrap16(start + words_sum(bytes@, (i / 2) as nat)),
        decreases len - i,
    {
        let b0 = bytes[i];
        let b1 = bytes[i + 1];
        let hi = (b0 as u16) << 8;
        assert((b0 as u16) << 8 == b0 * 0x100) by (bit_vector);
        proof {
            lemma_accumulate(acc, start + words_sum(bytes@, (i / 2) as nat), hi);
        }
        acc = acc.wrapping_add(hi);
        proof {
            lemma_accumulate(acc, start + words_sum(bytes@, (i / 2) as nat) + hi, b1 as u16);
        }
        acc = acc.wrapping_add(b1 as u16);
        assert(words_sum(bytes@, (i / 2 + 1) as nat) == words_sum(bytes@, (i / 2) as nat)
            + word_at(bytes@, (i / 2) as int));
        i = i + 2;
    }
    if i < len {
        let b0 = bytes[i];
        let hi = (b0 as u16) << 8;
        assert((b0 as u16) << 8 == b0 * 0x100) by (bit_vector);
        proof {
            lemma_accumulate(acc, start + words_sum(bytes@, (i / 2) as nat), hi);
            assert(words_sum(bytes@, (i / 2 + 1) as nat) == words_sum(bytes@, (i / 2) as nat)
                + word_at(bytes@, (i / 2) as int));
        }
        acc = acc.wrapping_add(hi);
    }
    acc
}

/// Reads the big-endian 32-bit integer at `data[at..at + 4]`.
pub fn read_u32_be(data: &[u8], at: usize) -> (x: u32)
    requires
        at + 4 <= data@.len(),
    ensures
        x == be_u32(data@[at as int], data@[at + 1], data@[at + 2], data@[at + 3]),
{
    (data[at] as u32) * 0x100_0000 + (data[at + 1] as u32) * 0x1_0000 + (data[at + 2] as u32)
        * 0x100 + (data[at + 3] as u32)
}

/// Reads the big-endian 16-bit integer at `data[at..at + 2]`.
pub fn read_u16_be(data: &[u8], at: usize) -> (x: u16)
    requires
        at + 2 <= data@.len(),
    ensures
        x == be_u16(data@[at as int], data@[at + 1]),
{
    (data[at] as u16) * 0x100 + (data[at + 1] as u16)
}

/// Appends the big-endian encoding of `x`.
pub fn push_u32_be(out: &mut Vec<u8>, x: u32)
    ensures
        final(out)@ == old(out)@ + u32_be_bytes(x),
{
    out.push((x / 0x100_0000) as u8);
    out.push((x / 0x1_0000 % 0x100) as u8);
    out.push((x / 0x100 % 0x100) as u8);
    out.push((x % 0x100) as u8);
    assert(out@ =~= old(out)@ + u32_be_bytes(x));
}

/// Appends the big-endian encoding of `x`.
pub fn push_u16_be(out: &mut Vec<u8>, x: u16)
    ensures
        final(out)@ == old(out)@ + u16_be_bytes(x),
{
    out.push((x / 0x100) as u8);
    out.push((x % 0x100) as u8);
    assert(out@ =~= old(out)@ + u16_be_bytes(x));
}

} // verus!
