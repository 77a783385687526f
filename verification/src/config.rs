//! The negotiated game configuration and its wire form: a 64-bit pack with
//! the seed in the low half and the difficulty in the high half, sent as
//! eight big-endian bytes.

use vstd::prelude::*;

verus! {

/// The value object both peers must agree on before a session starts.
#[derive(PartialEq, Eq, Structural, Debug, Clone, Copy)]
pub struct GameConfig {
    pub seed: u32,
    pub difficulty: u32,
}

/// Which end of the handshake this peer plays: exactly one peer originates
/// the configuration, the other receives it.
#[derive(PartialEq, Eq, Structural, Debug, Clone, Copy)]
pub enum CMRole {
    ConfigBearer(GameConfig),
    ConfigReceiver,
}

/// The 64-bit pack of a configuration: low 32 bits seed, high 32 bits
/// difficulty.
pub open spec fn packed(c: GameConfig) -> int {
    c.seed + c.difficulty * 0x1_0000_0000
}

impl GameConfig {
    /// Unpacks a configuration from its 64-bit wire form.
    pub fn from_u64(data: u64) -> (c: Self)
        ensures
            c.seed == data as int % 0x1_0000_0000,
            c.difficulty == data as int / 0x1_0000_0000,
    {
        let seed = (data & 0xffff_ffffu64) as u32;
        let difficulty = ((data >> 32u64) & 0xffff_ffffu64) as u32;
        proof {
            assert((data & 0xffff_ffffu64) == data % 0x1_0000_0000 && ((data >> 32u64)
                & 0xffff_ffffu64) == data / 0x1_0000_0000) by (bit_vector);
        }
        Self { seed, difficulty }
    }

    /// Packs the configuration into its 64-bit wire form.
    pub fn as_u64(&self) -> (r: u64)
        ensures
            r == packed(*self),
    {
        let s = self.seed;
        let d = self.difficulty;
        let r = s as u64 | ((d as u64) << 32u64);
        proof {
            assert(r == s + d * 0x1_0000_0000) by (bit_vector)
                requires
                    r == s as u64 | ((d as u64) << 32u64),
            ;
        }
        r
    }
}

/// Law: unpacking a packed configuration gives back the seed and difficulty
/// it was built from.
pub proof fn lemma_pack_unpack(c: GameConfig)
    ensures
        packed(c) % 0x1_0000_0000 == c.seed,
        packed(c) / 0x1_0000_0000 == c.difficulty,
{
    vstd::arithmetic::div_mod::lemma_fundamental_div_mod_converse(
        packed(c),
        0x1_0000_0000,
        c.difficulty as int,
        c.seed as int,
    );
}

/// Law: packing the configuration decoded from a 64-bit value gives back
/// that value.
pub proof fn lemma_unpack_pack(data: u64)
    ensures
        (data as int % 0x1_0000_0000) + (data as int / 0x1_0000_0000) * 0x1_0000_0000
            == data,
{
    vstd::arithmetic::div_mod::lemma_fundamental_div_mod(data as int, 0x1_0000_0000);
}

/// The unsigned value eight bytes spell in big-endian order.
pub open spec fn be_u64_of(b: Seq<u8>) -> int
    recommends
        b.len() == 8,
{
    b[0] * 0x100_0000_0000_0000 + b[1] * 0x1_0000_0000_0000 + b[2] * 0x100_0000_0000 + b[3]
        * 0x1_0000_0000 + b[4] * 0x100_0000 + b[5] * 0x1_0000 + b[6] * 0x100 + b[7]
}

/// The eight big-endian bytes of a 64-bit value, highest first.
pub open spec fn u64_be_bytes_spec(x: u64) -> Seq<u8> {
    seq![
        (x >> 56u64) as u8,
        (x >> 48u64) as u8,
        (x >> 40u64) as u8,
        (x >> 32u64) as u8,
        (x >> 24u64) as u8,
        (x >> 16u64) as u8,
        (x >> 8u64) as u8,
        x as u8,
    ]
}

/// Splits a 64-bit value into its eight big-endian bytes.
pub fn u64_to_be_bytes(x: u64) -> (r: Vec<u8>)
    ensures
        r@.len() == 8,
        be_u64_of(r@) == x,
        r@ == u64_be_bytes_spec(x),
{
    let b0 = (x >> 56u64) as u8;
    let b1 = (x >> 48u64) as u8;
    let b2 = (x >> 40u64) as u8;
    let b3 = (x >> 32u64) as u8;
    let b4 = (x >> 24u64) as u8;
    let b5 = (x >> 16u64) as u8;
    let b6 = (x >> 8u64) as u8;
    let b7 = x as u8;
    proof {
        assert(((x >> 56u64) as u8) * 0x100_0000_0000_0000 + ((x >> 48u64) as u8)
            * 0x1_0000_0000_0000 + ((x >> 40u64) as u8) * 0x100_0000_0000 + ((x >> 32u64) as u8)
            * 0x1_0000_0000 + ((x >> 24u64) as u8) * 0x100_0000 + ((x >> 16u64) as u8) * 0x1_0000
            + ((x >> 8u64) as u8) * 0x100 + (x as u8) == x) by (bit_vector);
    }
    let mut r: Vec<u8> = Vec::new();
    r.push(b0);
    r.push(b1);
    r.push(b2);
    r.push(b3);
    r.push(b4);
    r.push(b5);
    r.push(b6);
    r.push(b7);
    assert(r@ =~= seq![b0, b1, b2, b3, b4, b5, b6, b7]);
    assert(r@ =~= u64_be_bytes_spec(x));
    r
}

/// Reads the eight bytes starting at `off` as a big-endian 64-bit value.
pub fn u64_from_be_bytes(b: &Vec<u8>, off: usize) -> (r: u64)
    requires
        off + 8 <= b@.len(),
    ensures
        r == be_u64_of(b@.subrange(off as int, off as int + 8)),
{
    let n = b.len();
    assert(off + 8 <= n);
    let b0 = b[off];
    let b1 = b[off + 1];
    let b2 = b[off + 2];
    let b3 = b[off + 3];
    let b4 = b[off + 4];
    let b5 = b[off + 5];
    let b6 = b[off + 6];
    let b7 = b[off + 7];
    let r = ((b0 as u64) << 56u64) | ((b1 as u64) << 48u64) | ((b2 as u64) << 40u64) | ((
    b3 as u64) << 32u64) | ((b4 as u64) << 24u64) | ((b5 as u64) << 16u64) | ((b6 as u64)
        << 8u64) | (b7 as u64);
    proof {
        assert(((b0 as u64) << 56u64) | ((b1 as u64) << 48u64) | ((b2 as u64) << 40u64) | ((
        b3 as u64) << 32u64) | ((b4 as u64) << 24u64) | ((b5 as u64) << 16u64) | ((b6 as u64)
            << 8u64) | (b7 as u64) == b0 * 0x100_0000_0000_0000 + b1 * 0x1_0000_0000_0000 + b2
            * 0x100_0000_0000 + b3 * 0x1_0000_0000 + b4 * 0x100_0000 + b5 * 0x1_0000 + b6 * 0x100
            + b7) by (bit_vector);
        assert(b@.subrange(off as int, off as int + 8) =~= seq![b0, b1, b2, b3, b4, b5, b6, b7]);
    }
    r
}

} // verus!
