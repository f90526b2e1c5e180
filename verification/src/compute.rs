//! The executable digest engine: padding, block decomposition, schedule
//! expansion, and the compression rounds, each proved against the model.

use vstd::prelude::*;

verus! {

use crate::model::{
    HashState,
    be_u32_bytes,
    be_word,
    bit_length,
    compress,
    digest_bytes,
    final_state,
    init_state,
    lemma_bit_length_exact,
    lemma_padded_shape,
    padded,
    process_blocks,
    rotl,
    round,
    round_f,
    round_k,
    rounds,
    schedule_word,
    zero_pad_len,
};
/// The largest message length this engine accepts: its bit count must fit
/// the 64-bit length field of the padding.
pub open spec fn fits_bit_length(len: nat) -> bool {
    len <= 0x1fff_ffff_ffff_ffff
}

/// Rotates `x` left by `n` bits, `0 < n < 32`.
fn rotl32(x: u32, n: u32) -> (r: u32)
    requires
        0 < n < 32,
    ensures
        r == rotl(x, n),
{
    (x << n) | (x >> (32 - n))
}

/// Pads a message as SHA-1 prescribes: `0x80`, a minimal zero run, and the
/// bit length as eight big-endian bytes.
#[verifier::loop_isolation(false)]
fn pad_message(message: &[u8]) -> (r: Vec<u8>)
    requires
        fits_bit_length(message@.len()),
    ensures
        r@ == padded(message@),
{
    let len = message.len();
    let mut v: Vec<u8> = Vec::new();
    let mut i: usize = 0;
    while i < len
        invariant
            i <= len,
            v@ == message@.take(i as int),
        decreases len - i,
    {
        v.push(message[i]);
        i += 1;
    }
    assert(v@ =~= message@);
    v.push(0x80);

    let rem = v.len() % 64;
    let zeros: usize = if rem <= 56 {
        56 - rem
    } else {
        120 - rem
    };
    assert(zeros == zero_pad_len(message@.len()));
    let mut j: usize = 0;
    while j < zeros
        invariant
            j <= zeros,
            v@ == message@ + seq![0x80u8] + Seq::new(j as nat, |k: int| 0u8),
        decreases zeros - j,
    {
        v.push(0x00);
        assert(v@ =~= message@ + seq![0x80u8] + Seq::new((j + 1) as nat, |k: int| 0u8));
        j += 1;
    }

    let bits: u64 = (len as u64) * 8;
    proof {
        lemma_bit_length_exact(message@.len());
        assert(bits == bit_length(message@.len()));
        assert(bits >> 56 & 0xff < 256 && bits >> 48 & 0xff < 256 && bits >> 40 & 0xff < 256
            && bits >> 32 & 0xff < 256 && bits >> 24 & 0xff < 256 && bits >> 16 & 0xff < 256
            && bits >> 8 & 0xff < 256 && bits & 0xff < 256) by (bit_vector);
    }
    v.push(((bits >> 56) & 0xff) as u8);
    v.push(((bits >> 48) & 0xff) as u8);
    v.push(((bits >> 40) & 0xff) as u8);
    v.push(((bits >> 32) & 0xff) as u8);
    v.push(((bits >> 24) & 0xff) as u8);
    v.push(((bits >> 16) & 0xff) as u8);
    v.push(((bits >> 8) & 0xff) as u8);
    v.push((bits & 0xff) as u8);
    assert(v@ =~= padded(message@));
    v
}

/// Expands the 64-byte block at `off` into the eighty schedule words.
#[verifier::loop_isolation(false)]
fn expand_schedule(p: &Vec<u8>, off: usize) -> (words: Vec<u32>)
    requires
        off + 64 <= p@.len(),
    ensures
        words@.len() == 80,
        forall|t: int|
            0 <= t < 80 ==> words@[t] == schedule_word(
                p@.subrange(off as int, off as int + 64),
                t,
            ),
{
    let ghost block = p@.subrange(off as int, off as int + 64);
    let plen: usize = p.len();
    let mut words: Vec<u32> = Vec::new();
    let mut t: usize = 0;
    while t < 16
        invariant
            t <= 16,
            words@.len() == t,
            forall|j: int| 0 <= j < t ==> words@[j] == schedule_word(block, j),
        decreases 16 - t,
    {
        let idx = off + 4 * t;
        let w = ((p[idx] as u32) << 24) | ((p[idx + 1] as u32) << 16) | ((p[idx + 2] as u32) << 8)
            | (p[idx + 3] as u32);
        assert(w == be_word(block[4 * t], block[4 * t + 1], block[4 * t + 2], block[4 * t + 3]));
        words.push(w);
        t += 1;
    }
    while t < 80
        invariant
            16 <= t <= 80,
            words@.len() == t,
            forall|j: int| 0 <= j < t ==> words@[j] == schedule_word(block, j),
        decreases 80 - t,
    {
        let x = words[t - 3] ^ words[t - 8] ^ words[t - 14] ^ words[t - 16];
        let w = rotl32(x, 1);
        proof {
            let ti = t as int;
            assert(x == schedule_word(block, ti - 3) ^ schedule_word(block, ti - 8)
                ^ schedule_word(block, ti - 14) ^ schedule_word(block, ti - 16));
            assert(schedule_word(block, ti) == rotl(
                schedule_word(block, ti - 3) ^ schedule_word(block, ti - 8) ^ schedule_word(
                    block,
                    ti - 14,
                ) ^ schedule_word(block, ti - 16),
                1,
            ));
        }
        words.push(w);
        t += 1;
    }
    words
}

/// Runs the eighty compression rounds of the block at `off` and adds the
/// working variables back into the incoming hash state.
#[verifier::loop_isolation(false)]
fn compress_block(h: HashState, p: &Vec<u8>, off: usize) -> (r: HashState)
    requires
        off + 64 <= p@.len(),
    ensures
        r == compress(h, p@.subrange(off as int, off as int + 64)),
{
    let ghost block = p@.subrange(off as int, off as int + 64);
    let words = expand_schedule(p, off);

    let mut a = h.0;
    let mut b = h.1;
    let mut c = h.2;
    let mut d = h.3;
    let mut e = h.4;
    let mut t: usize = 0;
    while t < 80
        invariant
            t <= 80,
            (a, b, c, d, e) == rounds(block, h, t as int),
        decreases 80 - t,
    {
        let f: u32;
        let k: u32;
        if t < 20 {
            f = (b & c) | ((!b) & d);
            k = 0x5A827999;
        } else if t < 40 {
            f = b ^ c ^ d;
            k = 0x6ED9EBA1;
        } else if t < 60 {
            f = (b & c) | (b & d) | (c & d);
            k = 0x8F1BBCDC;
        } else {
            f = b ^ c ^ d;
            k = 0xCA62C1D6;
        }
        assert(f == round_f(t as int, b, c, d) && k == round_k(t as int));
        let temp = rotl32(a, 5).wrapping_add(f).wrapping_add(e).wrapping_add(k).wrapping_add(
            words[t],
        );
        e = d;
        d = c;
        c = rotl32(b, 30);
        b = a;
        a = temp;
        t += 1;
        assert((a, b, c, d, e) == round(block, t as int - 1, rounds(block, h, t as int - 1)));
    }
    (h.0.wrapping_add(a), h.1.wrapping_add(b), h.2.wrapping_add(c), h.3.wrapping_add(d),
    h.4.wrapping_add(e))
}

/// Computes the 20-byte SHA-1 digest of a message.
#[verifier::loop_isolation(false)]
pub fn digest(message: &[u8]) -> (r: Vec<u8>)
    requires
        fits_bit_length(message@.len()),
    ensures
        r@ == digest_bytes(message@),
        r@.len() == 20,
{
    let p = pad_message(message);
    proof {
        lemma_padded_shape(message@);
    }
    let n_blocks = p.len() / 64;
    proof {
        vstd::arithmetic::div_mod::lemma_fundamental_div_mod(p@.len() as int, 64);
        assert(p@.len() == 64 * n_blocks);
    }
    let mut h: HashState = (0x67452301u32, 0xEFCDAB89u32, 0x98BADCFEu32, 0x10325476u32,
    0xC3D2E1F0u32);
    assert(h == init_state());
    let mut i: usize = 0;
    while i < n_blocks
        invariant
            i <= n_blocks,
            h == process_blocks(p@, i as int),
        decreases n_blocks - i,
    {
        proof {
            assert(64 * (i + 1) <= 64 * n_blocks) by (nonlinear_arith)
                requires
                    i + 1 <= n_blocks,
            ;
        }
        h = compress_block(h, &p, i * 64);
        proof {
            assert(i * 64 == 64 * (i as int)) by (nonlinear_arith);
            assert(p@.subrange(64 * (i as int), 64 * (i as int) + 64) =~= p@.subrange(
                64 * (i as int),
                64 * (i as int + 1),
            ));
        }
        i += 1;
        assert(h == process_blocks(p@, i as int));
    }
    assert(h == final_state(message@));

    let mut out: Vec<u8> = Vec::new();
    push_be_u32(&mut out, h.0);
    push_be_u32(&mut out, h.1);
    push_be_u32(&mut out, h.2);
    push_be_u32(&mut out, h.3);
    push_be_u32(&mut out, h.4);
    assert(out@ =~= digest_bytes(message@));
    out
}

/// Appends the four big-endian bytes of a 32-bit word.
fn push_be_u32(v: &mut Vec<u8>, x: u32)
    ensures
        final (v)@ == old(v)@ + be_u32_bytes(x),
{
    proof {
        assert(x >> 24 & 0xff < 256 && x >> 16 & 0xff < 256 && x >> 8 & 0xff < 256 && x & 0xff
            < 256) by (bit_vector);
    }
    v.push(((x >> 24) & 0xff) as u8);
    v.push(((x >> 16) & 0xff) as u8);
    v.push(((x >> 8) & 0xff) as u8);
    v.push((x & 0xff) as u8);
    assert(v@ =~= old(v)@ + be_u32_bytes(x));
}

} // verus!
