//! The mathematical model of SHA-1 (FIPS 180-4): padding, message-schedule
//! expansion, the 80-round compression function, block chaining, and the
//! 20-byte digest, all as spec functions over `Seq<u8>`.

use vstd::prelude::*;

verus! {

/// The five-word hash state `(h0, h1, h2, h3, h4)`.
pub type HashState = (u32, u32, u32, u32, u32);

/// The fixed initial hash state.
pub open spec fn init_state() -> HashState {
    (0x67452301u32, 0xEFCDAB89u32, 0x98BADCFEu32, 0x10325476u32, 0xC3D2E1F0u32)
}

/// `x` rotated left by `n` bits, for `0 < n < 32`.
pub open spec fn rotl(x: u32, n: u32) -> u32
    recommends
        0 < n < 32,
{
    (x << n) | (x >> ((32 - n) as u32))
}

/// The number of `0x00` bytes that padding inserts after the `0x80` byte,
/// so that the padded length becomes 56 modulo 64 before the length field.
pub open spec fn zero_pad_len(len: nat) -> nat {
    let r = (len + 1) % 64;
    if r <= 56 {
        (56 - r) as nat
    } else {
        (120 - r) as nat
    }
}

/// The original length in bits, as the 64-bit value stored in the length field.
pub open spec fn bit_length(len: nat) -> u64 {
    ((len * 8) % 0x1_0000_0000_0000_0000) as u64
}

/// The big-endian bytes of a 64-bit word.
pub open spec fn be_u64_bytes(x: u64) -> Seq<u8> {
    seq![
        ((x >> 56) & 0xff) as u8,
        ((x >> 48) & 0xff) as u8,
        ((x >> 40) & 0xff) as u8,
        ((x >> 32) & 0xff) as u8,
        ((x >> 24) & 0xff) as u8,
        ((x >> 16) & 0xff) as u8,
        ((x >> 8) & 0xff) as u8,
        (x & 0xff) as u8,
    ]
}

/// The big-endian bytes of a 32-bit word.
pub open spec fn be_u32_bytes(x: u32) -> Seq<u8> {
    seq![
        ((x >> 24) & 0xff) as u8,
        ((x >> 16) & 0xff) as u8,
        ((x >> 8) & 0xff) as u8,
        (x & 0xff) as u8,
    ]
}

/// The padded message: the message, one `0x80` byte, the minimal run of
/// `0x00` bytes, and the original bit length as eight big-endian bytes.
pub open spec fn padded(msg: Seq<u8>) -> Seq<u8> {
    msg + seq![0x80u8] + Seq::new(zero_pad_len(msg.len()), |i: int| 0u8) + be_u64_bytes(
        bit_length(msg.len()),
    )
}

/// The 32-bit word formed from four bytes, big-endian.
pub open spec fn be_word(b0: u8, b1: u8, b2: u8, b3: u8) -> u32 {
    ((b0 as u32) << 24) | ((b1 as u32) << 16) | ((b2 as u32) << 8) | (b3 as u32)
}

/// Word `t` of the message schedule of a 64-byte block: the block's own
/// sixteen big-endian words, then the rotated-xor recurrence.
pub open spec fn schedule_word(block: Seq<u8>, t: int) -> u32
    recommends
        block.len() == 64,
        0 <= t < 80,
    decreases t,
{
    if t < 16 {
        be_word(block[4 * t], block[4 * t + 1], block[4 * t + 2], block[4 * t + 3])
    } else {
        rotl(
            schedule_word(block, t - 3) ^ schedule_word(block, t - 8) ^ schedule_word(block, t - 14)
                ^ schedule_word(block, t - 16),
            1,
        )
    }
}

/// The round function `f` for round `t`.
pub open spec fn round_f(t: int, b: u32, c: u32, d: u32) -> u32
    recommends
        0 <= t < 80,
{
    if t < 20 {
        (b & c) | ((!b) & d)
    } else if t < 40 {
        b ^ c ^ d
    } else if t < 60 {
        (b & c) | (b & d) | (c & d)
    } else {
        b ^ c ^ d
    }
}

/// The round constant `k` for round `t`.
pub open spec fn round_k(t: int) -> u32
    recommends
        0 <= t < 80,
{
    if t < 20 {
        0x5A827999u32
    } else if t < 40 {
        0x6ED9EBA1u32
    } else if t < 60 {
        0x8F1BBCDCu32
    } else {
        0xCA62C1D6u32
    }
}

/// One compression round: the working variables after round `t`.
pub open spec fn round(block: Seq<u8>, t: int, v: HashState) -> HashState
    recommends
        block.len() == 64,
        0 <= t < 80,
{
    let (a, b, c, d, e) = v;
    let temp = rotl(a, 5).wrapping_add(round_f(t, b, c, d)).wrapping_add(e).wrapping_add(
        round_k(t),
    ).wrapping_add(schedule_word(block, t));
    (temp, a, rotl(b, 30), c, d)
}

/// The working variables after the first `n` compression rounds,
/// starting from `v`.
pub open spec fn rounds(block: Seq<u8>, v: HashState, n: int) -> HashState
    recommends
        block.len() == 64,
        0 <= n <= 80,
    decreases n,
{
    if n <= 0 {
        v
    } else {
        round(block, n - 1, rounds(block, v, n - 1))
    }
}

/// The hash state after one block: eighty rounds, then wraparound addition
/// of the working variables into the incoming state.
pub open spec fn compress(v: HashState, block: Seq<u8>) -> HashState
    recommends
        block.len() == 64,
{
    let (a, b, c, d, e) = rounds(block, v, 80);
    (
        v.0.wrapping_add(a),
        v.1.wrapping_add(b),
        v.2.wrapping_add(c),
        v.3.wrapping_add(d),
        v.4.wrapping_add(e),
    )
}

/// The hash state after the first `n` 64-byte blocks of the padded
/// message `p`, starting from the fixed initial state.
pub open spec fn process_blocks(p: Seq<u8>, n: int) -> HashState
    recommends
        p.len() % 64 == 0,
        0 <= n <= p.len() / 64,
    decreases n,
{
    if n <= 0 {
        init_state()
    } else {
        compress(process_blocks(p, n - 1), p.subrange(64 * (n - 1), 64 * n))
    }
}

/// The hash state after every block of the padded message.
pub open spec fn final_state(msg: Seq<u8>) -> HashState {
    process_blocks(padded(msg), padded(msg).len() as int / 64)
}

/// The 20-byte digest of a message: the final five state words, big-endian.
pub open spec fn digest_bytes(msg: Seq<u8>) -> Seq<u8> {
    let (h0, h1, h2, h3, h4) = final_state(msg);
    be_u32_bytes(h0) + be_u32_bytes(h1) + be_u32_bytes(h2) + be_u32_bytes(h3) + be_u32_bytes(h4)
}

/// The padded message consists of whole 64-byte blocks, and its length is
/// the message's plus the `0x80` byte, the zero run, and the length field.
pub proof fn lemma_padded_shape(msg: Seq<u8>)
    ensures
        padded(msg).len() == msg.len() + 9 + zero_pad_len(msg.len()),
        padded(msg).len() % 64 == 0,
{
    let n = msg.len() as int;
    let q = (n + 1) / 64;
    let r = (n + 1) % 64;
    vstd::arithmetic::div_mod::lemma_fundamental_div_mod(n + 1, 64);
    assert(n + 1 == 64 * q + r);
    let z = zero_pad_len(msg.len()) as int;
    let total = n + 9 + z;
    if r <= 56 {
        assert(total == 64 * (q + 1));
        vstd::arithmetic::div_mod::lemma_mod_multiples_basic(q + 1, 64);
    } else {
        assert(total == 64 * (q + 2));
        vstd::arithmetic::div_mod::lemma_mod_multiples_basic(q + 2, 64);
    }
}

/// For messages within the 64-bit bit-count, the length field holds
/// exactly eight times the message length.
pub proof fn lemma_bit_length_exact(len: nat)
    requires
        len <= 0x1fff_ffff_ffff_ffff,
    ensures
        bit_length(len) == len * 8,
{
    vstd::arithmetic::div_mod::lemma_small_mod(len * 8, 0x1_0000_0000_0000_0000);
}

} // verus!
