//! MD5 (RFC 1321) of a firmware image, as lowercase hex, to compare with the digest
//! that the ROM bootloader computes over the flash after writing.
use vstd::prelude::*;
use crate::bytes::{from_le4, le_u32, push_u32_le, u32_from_le};
use crate::text::push_char;

verus! {

/// Per-step left-rotation amounts.
pub open spec fn md5_s(i: int) -> u32 {
    let r = i % 4;
    if i < 16 {
        if r == 0 { 7u32 } else if r == 1 { 12u32 } else if r == 2 { 17u32 } else { 22u32 }
    } else if i < 32 {
        if r == 0 { 5u32 } else if r == 1 { 9u32 } else if r == 2 { 14u32 } else { 20u32 }
    } else if i < 48 {
        if r == 0 { 4u32 } else if r == 1 { 11u32 } else if r == 2 { 16u32 } else { 23u32 }
    } else {
        if r == 0 { 6u32 } else if r == 1 { 10u32 } else if r == 2 { 15u32 } else { 21u32 }
    }
}

/// The table `K[i] = floor(abs(sin(i + 1)) * 2^32)`.
pub open spec fn md5_k_table() -> Seq<u32> {
    seq![
        0xd76aa478u32, 0xe8c7b756, 0x242070db, 0xc1bdceee, 0xf57c0faf, 0x4787c62a, 0xa8304613,
        0xfd469501, 0x698098d8, 0x8b44f7af, 0xffff5bb1, 0x895cd7be, 0x6b901122, 0xfd987193,
        0xa679438e, 0x49b40821, 0xf61e2562, 0xc040b340, 0x265e5a51, 0xe9b6c7aa, 0xd62f105d,
        0x02441453, 0xd8a1e681, 0xe7d3fbc8, 0x21e1cde6, 0xc33707d6, 0xf4d50d87, 0x455a14ed,
        0xa9e3e905, 0xfcefa3f8, 0x676f02d9, 0x8d2a4c8a, 0xfffa3942, 0x8771f681, 0x6d9d6122,
        0xfde5380c, 0xa4beea44, 0x4bdecfa9, 0xf6bb4b60, 0xbebfbc70, 0x289b7ec6, 0xeaa127fa,
        0xd4ef3085, 0x04881d05, 0xd9d4d039, 0xe6db99e5, 0x1fa27cf8, 0xc4ac5665, 0xf4292244,
        0x432aff97, 0xab9423a7, 0xfc93a039, 0x655b59c3, 0x8f0ccc92, 0xffeff47d, 0x85845dd1,
        0x6fa87e4f, 0xfe2ce6e0, 0xa3014314, 0x4e0811a1, 0xf7537e82, 0xbd3af235, 0x2ad7d2bb,
        0xeb86d391,
    ]
}

/// The round function of step `i`.
pub open spec fn md5_f(i: int, b: u32, c: u32, d: u32) -> u32 {
    if i < 16 {
        (b & c) | (!b & d)
    } else if i < 32 {
        (d & b) | (!d & c)
    } else if i < 48 {
        b ^ c ^ d
    } else {
        c ^ (b | !d)
    }
}

/// The message word read by step `i`.
pub open spec fn md5_g(i: int) -> int {
    if i < 16 {
        i
    } else if i < 32 {
        (5 * i + 1) % 16
    } else if i < 48 {
        (3 * i + 5) % 16
    } else {
        (7 * i) % 16
    }
}

/// Rotation of a 32-bit word to the left by `s` bits (`0 < s < 32`).
pub open spec fn rotl(x: u32, s: u32) -> u32 {
    ((x << s) | (x >> ((32 - s) as u32))) as u32
}

/// The four-word state `(a, b, c, d)`.
pub type Md5State = (u32, u32, u32, u32);

/// One step of the compression function.
pub open spec fn md5_step(st: Md5State, m: Seq<u32>, i: int) -> Md5State {
    let sum = st.0.wrapping_add(md5_f(i, st.1, st.2, st.3)).wrapping_add(
        md5_k_table()[i],
    ).wrapping_add(m[md5_g(i)]);
    (st.3, st.1.wrapping_add(rotl(sum, md5_s(i))), st.1, st.2)
}

/// The state after the first `n` steps.
pub open spec fn md5_rounds(st: Md5State, m: Seq<u32>, n: int) -> Md5State
    decreases n,
{
    if n <= 0 {
        st
    } else {
        md5_step(md5_rounds(st, m, n - 1), m, n - 1)
    }
}

/// Compress one block of sixteen words into the state.
pub open spec fn md5_compress(st: Md5State, m: Seq<u32>) -> Md5State {
    let r = md5_rounds(st, m, 64);
    (st.0.wrapping_add(r.0), st.1.wrapping_add(r.1), st.2.wrapping_add(r.2), st.3.wrapping_add(r.3))
}

/// The sixteen little-endian words of a 64-byte block.
pub open spec fn md5_words(block: Seq<u8>) -> Seq<u32> {
    Seq::new(
        16,
        |j: int| from_le4(block[4 * j], block[4 * j + 1], block[4 * j + 2], block[4 * j + 3]) as u32,
    )
}

/// The initial state.
pub open spec fn md5_init() -> Md5State {
    (0x67452301u32, 0xefcdab89u32, 0x98badcfeu32, 0x10325476u32)
}

/// Number of zero bytes that follow the `0x80` marker for a message of `n` bytes.
pub open spec fn md5_zero_count(n: int) -> int {
    (119 - n % 64) % 64
}

/// The eight little-endian bytes of `x`.
pub open spec fn le_u64(x: u64) -> Seq<u8> {
    le_u32((x % 0x1_0000_0000) as u32) + le_u32((x / 0x1_0000_0000) as u32)
}

/// The padded message: data, `0x80`, zeros up to 56 mod 64, bit length as `u64` LE.
pub open spec fn md5_pad(data: Seq<u8>) -> Seq<u8> {
    data + seq![0x80u8] + Seq::new(md5_zero_count(data.len() as int) as nat, |_i: int| 0u8)
        + le_u64(((data.len() * 8) % 0x1_0000_0000_0000_0000) as u64)
}

/// The state after the first `n` blocks of a padded message.
pub open spec fn md5_blocks(msg: Seq<u8>, n: int) -> Md5State
    decreases n,
{
    if n <= 0 {
        md5_init()
    } else {
        md5_compress(
            md5_blocks(msg, n - 1),
            md5_words(msg.subrange(64 * (n - 1), 64 * n)),
        )
    }
}

/// The sixteen digest bytes of `data`.
pub open spec fn md5_digest(data: Seq<u8>) -> Seq<u8> {
    let msg = md5_pad(data);
    let st = md5_blocks(msg, msg.len() as int / 64);
    le_u32(st.0) + le_u32(st.1) + le_u32(st.2) + le_u32(st.3)
}

/// Lowercase hex digit of a value below 16.
pub open spec fn hex_char(n: int) -> char {
    if n < 10 {
        (('0' as int) + n) as char
    } else {
        (('a' as int) + n - 10) as char
    }
}

/// Two lowercase hex digits per byte, high nibble first.
pub open spec fn hex_string(bytes: Seq<u8>) -> Seq<char> {
    Seq::new(
        2 * bytes.len(),
        |j: int|
            if j % 2 == 0 {
                hex_char(bytes[j / 2] as int / 16)
            } else {
                hex_char(bytes[j / 2] as int % 16)
            },
    )
}

/// The MD5 of `data` as 32 lowercase hex characters.
pub open spec fn spec_md5_hex(data: Seq<u8>) -> Seq<char> {
    hex_string(md5_digest(data))
}

/// Rotation amount of step `i`.
fn md5_shift(i: usize) -> (s: u32)
    requires
        i < 64,
    ensures
        s == md5_s(i as int),
        0 < s < 32,
{
    let r = i % 4;
    if i < 16 {
        if r == 0 { 7 } else if r == 1 { 12 } else if r == 2 { 17 } else { 22 }
    } else if i < 32 {
        if r == 0 { 5 } else if r == 1 { 9 } else if r == 2 { 14 } else { 20 }
    } else if i < 48 {
        if r == 0 { 4 } else if r == 1 { 11 } else if r == 2 { 16 } else { 23 }
    } else {
        if r == 0 { 6 } else if r == 1 { 10 } else if r == 2 { 15 } else { 21 }
    }
}

/// Rotate a word left by `s` bits.
fn rotate_left(x: u32, s: u32) -> (r: u32)
    requires
        0 < s < 32,
    ensures
        r == rotl(x, s),
{
    (x << s) | (x >> (32 - s))
}

/// The table of step constants.
fn md5_k_vec() -> (k: Vec<u32>)
    ensures
        k@ == md5_k_table(),
{
    let k: Vec<u32> = vec![
        0xd76aa478, 0xe8c7b756, 0x242070db, 0xc1bdceee, 0xf57c0faf, 0x4787c62a, 0xa8304613,
        0xfd469501, 0x698098d8, 0x8b44f7af, 0xffff5bb1, 0x895cd7be, 0x6b901122, 0xfd987193,
        0xa679438e, 0x49b40821, 0xf61e2562, 0xc040b340, 0x265e5a51, 0xe9b6c7aa, 0xd62f105d,
        0x02441453, 0xd8a1e681, 0xe7d3fbc8, 0x21e1cde6, 0xc33707d6, 0xf4d50d87, 0x455a14ed,
        0xa9e3e905, 0xfcefa3f8, 0x676f02d9, 0x8d2a4c8a, 0xfffa3942, 0x8771f681, 0x6d9d6122,
        0xfde5380c, 0xa4beea44, 0x4bdecfa9, 0xf6bb4b60, 0xbebfbc70, 0x289b7ec6, 0xeaa127fa,
        0xd4ef3085, 0x04881d05, 0xd9d4d039, 0xe6db99e5, 0x1fa27cf8, 0xc4ac5665, 0xf4292244,
        0x432aff97, 0xab9423a7, 0xfc93a039, 0x655b59c3, 0x8f0ccc92, 0xffeff47d, 0x85845dd1,
        0x6fa87e4f, 0xfe2ce6e0, 0xa3014314, 0x4e0811a1, 0xf7537e82, 0xbd3af235, 0x2ad7d2bb,
        0xeb86d391,
    ];
    proof {
        assert(k@ =~= md5_k_table());
    }
    k
}

/// Compress one block of sixteen words into the state.
fn compress_block(st: Md5State, m: &Vec<u32>, k: &Vec<u32>) -> (r: Md5State)
    requires
        m@.len() == 16,
        k@ == md5_k_table(),
    ensures
        r == md5_compress(st, m@),
{
    let (mut a, mut b, mut c, mut d) = st;
    let mut i: usize = 0;
    while i < 64
        invariant
            i <= 64,
            m@.len() == 16,
            k@ == md5_k_table(),
            (a, b, c, d) == md5_rounds(st, m@, i as int),
        decreases 64 - i,
    {
        let f: u32;
        let g: usize;
        if i < 16 {
            f = (b & c) | (!b & d);
            g = i;
        } else if i < 32 {
            f = (d & b) | (!d & c);
            g = (5 * i + 1) % 16;
        } else if i < 48 {
            f = b ^ c ^ d;
            g = (3 * i + 5) % 16;
        } else {
            f = c ^ (b | !d);
            g = (7 * i) % 16;
        }
        let sum = a.wrapping_add(f).wrapping_add(k[i]).wrapping_add(m[g]);
        let temp = d;
        d = c;
        c = b;
        b = b.wrapping_add(rotate_left(sum, md5_shift(i)));
        a = temp;
        i = i + 1;
    }
    (a.wrapping_add(st.0), b.wrapping_add(st.1), c.wrapping_add(st.2), d.wrapping_add(st.3))
}

/// The `c`-th block of a padded message as sixteen words.
fn block_words(msg: &Vec<u8>, c: usize) -> (m: Vec<u32>)
    requires
        64 * c + 64 <= msg@.len(),
    ensures
        m@ == md5_words(msg@.subrange(64 * c as int, 64 * c + 64)),
{
    let ghost block = msg@.subrange(64 * c as int, 64 * c + 64);
    let len = msg.len();
    let base: usize = 64 * c;
    let mut m: Vec<u32> = Vec::new();
    let mut j: usize = 0;
    while j < 16
        invariant
            base == 64 * c,
            base + 64 <= msg@.len(),
            block == msg@.subrange(base as int, base + 64),
            j <= 16,
            m@ =~= md5_words(block).take(j as int),
        decreases 16 - j,
    {
        let o = base + 4 * j;
        let w = u32_from_le(msg[o], msg[o + 1], msg[o + 2], msg[o + 3]);
        m.push(w);
        j = j + 1;
    }
    proof {
        assert(md5_words(block).take(16) =~= md5_words(block));
    }
    m
}

/// The message with MD5 padding and length suffix.
fn pad_message(data: &[u8]) -> (msg: Vec<u8>)
    requires
        data@.len() + 72 <= usize::MAX,
    ensures
        msg@ == md5_pad(data@),
        msg@.len() % 64 == 0,
{
    let n = data.len();
    let bit_len: u64 = (n as u64).wrapping_mul(8);
    let mut msg: Vec<u8> = Vec::new();
    let mut i: usize = 0;
    while i < n
        invariant
            n == data@.len(),
            i <= n,
            msg@ == data@.take(i as int),
        decreases n - i,
    {
        msg.push(data[i]);
        proof {
            assert(data@.take(i + 1) =~= data@.take(i as int).push(data@[i as int]));
        }
        i = i + 1;
    }
    proof {
        assert(data@.take(n as int) =~= data@);
    }
    msg.push(0x80);
    let ghost head = data@ + seq![0x80u8];
    assert(msg@ =~= head);
    let zero_count: usize = (119 - n % 64) % 64;
    let mut z: usize = 0;
    while z < zero_count
        invariant
            n == data@.len(),
            n + 72 <= usize::MAX,
            zero_count == md5_zero_count(n as int),
            head == data@ + seq![0x80u8],
            z <= zero_count,
            msg@ == head + Seq::new(z as nat, |_i: int| 0u8),
        decreases zero_count - z,
    {
        msg.push(0);
        z = z + 1;
        proof {
            assert(msg@ =~= head + Seq::new(z as nat, |_i: int| 0u8));
        }
    }
    assert((n + 1 + zero_count + 8) % 64 == 0) by (nonlinear_arith)
        requires
            zero_count == (119 - n % 64) % 64,
    ;
    let ghost zeros = msg@;
    let low = (bit_len & 0xffff_ffff) as u32;
    let high = (bit_len >> 32) as u32;
    assert(low == bit_len % 0x1_0000_0000 && high == bit_len / 0x1_0000_0000) by (bit_vector)
        requires
            low == (bit_len & 0xffff_ffff) as u32,
            high == (bit_len >> 32) as u32,
    ;
    push_u32_le(&mut msg, low);
    push_u32_le(&mut msg, high);
    proof {
        assert(bit_len == ((n * 8) % 0x1_0000_0000_0000_0000) as u64);
        assert(msg@ =~= md5_pad(data@));
    }
    msg
}

/// Lowercase hex digit of a value below 16.
fn hex_digit(v: u8) -> (ch: char)
    requires
        v < 16,
    ensures
        ch == hex_char(v as int),
{
    if v < 10 {
        ((0x30u8 + v) as char)
    } else {
        ((0x61u8 + v - 10) as char)
    }
}

/// MD5 of `data` as 32 lowercase hex characters (bytes in little-endian word order).
pub fn md5_of(data: &[u8]) -> (hex: String)
    requires
        data@.len() + 72 <= usize::MAX,
    ensures
        hex@ == spec_md5_hex(data@),
        hex@.len() == 32,
        forall|i: int| 0 <= i < 32 ==> is_lower_hex(#[trigger] hex@[i]),
{
    let msg = pad_message(data);
    let k = md5_k_vec();
    let nblocks = msg.len() / 64;
    let mut st: Md5State = (0x67452301, 0xefcdab89, 0x98badcfe, 0x10325476);
    let mut c: usize = 0;
    while c < nblocks
        invariant
            nblocks == msg@.len() / 64,
            k@ == md5_k_table(),
            c <= nblocks,
            st == md5_blocks(msg@, c as int),
        decreases nblocks - c,
    {
        let m = block_words(&msg, c);
        st = compress_block(st, &m, &k);
        c = c + 1;
    }
    let mut digest: Vec<u8> = Vec::new();
    push_u32_le(&mut digest, st.0);
    push_u32_le(&mut digest, st.1);
    push_u32_le(&mut digest, st.2);
    push_u32_le(&mut digest, st.3);
    proof {
        assert(digest@ =~= md5_digest(data@));
    }
    let mut hex = String::new();
    let mut j: usize = 0;
    while j < 16
        invariant
            digest@ == md5_digest(data@),
            digest@.len() == 16,
            j <= 16,
            hex@ =~= hex_string(digest@).take(2 * j as int),
        decreases 16 - j,
    {
        let byte = digest[j];
        push_char(&mut hex, hex_digit(byte / 16));
        push_char(&mut hex, hex_digit(byte % 16));
        j = j + 1;
    }
    proof {
        assert(hex_string(digest@).take(32) =~= hex_string(digest@));
        lemma_hex_string_digits(digest@);
    }
    hex
}

/// A lowercase hex digit.
pub open spec fn is_lower_hex(c: char) -> bool {
    ('0' <= c <= '9') || ('a' <= c <= 'f')
}

/// Every character of a hex string is a lowercase hex digit.
pub proof fn lemma_hex_string_digits(bytes: Seq<u8>)
    ensures
        forall|i: int| 0 <= i < hex_string(bytes).len() ==> is_lower_hex(#[trigger] hex_string(bytes)[i]),
{
    assert forall|i: int| 0 <= i < hex_string(bytes).len() implies is_lower_hex(
        #[trigger] hex_string(bytes)[i],
    ) by {
        let b = bytes[i / 2] as int;
        assert(0 <= b / 16 < 16);
        assert(0 <= b % 16 < 16);
    }
}

} // verus!
