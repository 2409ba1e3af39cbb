//! Preparing a firmware image for the ROM bootloader: 4-byte padding and the
//! 1 KB write blocks.
use vstd::prelude::*;
use crate::bootloader::{num_blocks, spec_num_blocks, FLASH_BLOCK_SIZE};
use crate::md5::{md5_of, spec_md5_hex};

verus! {

/// `len` rounded up to a multiple of 4.
pub open spec fn spec_padded_len(len: int) -> int {
    ((len + 3) / 4) * 4
}

/// The image length once padded to a 4-byte boundary.
pub fn padded_len(len: u32) -> (p: u32)
    requires
        len + 3 <= u32::MAX,
    ensures
        p == spec_padded_len(len as int),
{
    let s = len + 3;
    let low: u32 = 3;
    let mask: u32 = !low;
    let p = s & mask;
    assert(p == s - s % 4) by (bit_vector)
        requires
            low == 3u32,
            mask == !low,
            p == s & mask,
    ;
    p
}

/// The image followed by `0xFF` bytes up to the next multiple of 4.
pub open spec fn spec_pad_firmware(fw: Seq<u8>) -> Seq<u8> {
    fw + Seq::new((spec_padded_len(fw.len() as int) - fw.len()) as nat, |_i: int| 0xFFu8)
}

/// Pad the image with `0xFF` to a multiple of 4 bytes (esptool `pad_to(image, 4)`).
pub fn pad_firmware(fw: &[u8]) -> (out: Vec<u8>)
    requires
        fw@.len() + 3 <= u32::MAX,
    ensures
        out@ == spec_pad_firmware(fw@),
        out@.len() % 4 == 0,
        fw@.len() <= out@.len() < fw@.len() + 4,
{
    let target = padded_len(fw.len() as u32) as usize;
    let mut out: Vec<u8> = Vec::new();
    let n = fw.len();
    let mut i: usize = 0;
    while i < n
        invariant
            n == fw@.len(),
            i <= n,
            out@ == fw@.take(i as int),
        decreases n - i,
    {
        out.push(fw[i]);
        proof {
            assert(fw@.take(i + 1) =~= fw@.take(i as int).push(fw@[i as int]));
        }
        i = i + 1;
    }
    proof {
        assert(fw@.take(n as int) =~= fw@);
    }
    while out.len() < target
        invariant
            n == fw@.len(),
            target == spec_padded_len(n as int),
            n <= out@.len() <= target,
            out@ == fw@ + Seq::new((out@.len() - n) as nat, |_i: int| 0xFFu8),
        decreases target - out.len(),
    {
        out.push(0xFF);
        proof {
            assert(out@ =~= fw@ + Seq::new((out@.len() - n) as nat, |_i: int| 0xFFu8));
        }
    }
    out
}

/// Write block `i` of `image`: its `i`-th 1 KB slice, with the last slice filled up
/// to 1 KB with `0xFF`.
pub open spec fn spec_flash_block(image: Seq<u8>, i: int) -> Seq<u8> {
    Seq::new(
        1024,
        |k: int|
            if 1024 * i + k < image.len() {
                image[1024 * i + k]
            } else {
                0xFFu8
            },
    )
}

/// The `i`-th write block of the image.
pub fn flash_block(image: &[u8], i: usize) -> (block: Vec<u8>)
    requires
        1024 * i < image@.len(),
    ensures
        block@ == spec_flash_block(image@, i as int),
{
    let len = image.len();
    let start: usize = i * 1024;
    let mut block: Vec<u8> = Vec::new();
    let mut k: usize = 0;
    while k < 1024
        invariant
            start == 1024 * i,
            start < image@.len(),
            k <= 1024,
            block@ =~= spec_flash_block(image@, i as int).take(k as int),
        decreases 1024 - k,
    {
        if k < image.len() - start {
            block.push(image[start + k]);
        } else {
            block.push(0xFF);
        }
        k = k + 1;
    }
    proof {
        assert(spec_flash_block(image@, i as int).take(1024) =~= spec_flash_block(
            image@,
            i as int,
        ));
    }
    block
}

/// Kilobytes written once block `i` (counting from 0) is done, for an image of `total`
/// bytes.
pub fn written_kb(i: u32, total: u32) -> (kb: u32)
    requires
        (i + 1) * 1024 <= u32::MAX,
    ensures
        kb == (if (i + 1) * 1024 <= total { (i + 1) * 1024 } else { total as int }) / 1024,
{
    let done = (i + 1) * FLASH_BLOCK_SIZE;
    let w = if done <= total { done } else { total };
    w / 1024
}

/// Every byte of the image is carried, at its place, by one of the write blocks, and
/// exactly `ceil(len / 1024)` blocks are needed.
pub proof fn lemma_blocks_cover_image(image: Seq<u8>, k: int)
    requires
        0 <= k < image.len(),
        image.len() + 1023 <= u32::MAX,
    ensures
        spec_flash_block(image, k / 1024)[k % 1024] == image[k],
        k / 1024 < spec_num_blocks(image.len() as u32, 1024),
        spec_num_blocks(image.len() as u32, 1024) * 1024 >= image.len(),
        (spec_num_blocks(image.len() as u32, 1024) - 1) * 1024 < image.len(),
{
    let n = image.len() as int;
    assert(1024 * (k / 1024) + k % 1024 == k) by (nonlinear_arith)
        requires
            k >= 0,
    ;
    assert(k / 1024 < (n + 1023) / 1024) by (nonlinear_arith)
        requires
            0 <= k < n,
    ;
    assert(((n + 1023) / 1024) * 1024 >= n) by (nonlinear_arith)
        requires
            n >= 0,
    ;
    assert(((n + 1023) / 1024 - 1) * 1024 < n) by (nonlinear_arith)
        requires
            n > 0,
    ;
}

/// Padding keeps the image, adds fewer than four `0xFF` bytes, and ends on a
/// 4-byte boundary.
pub proof fn lemma_pad_firmware(fw: Seq<u8>)
    ensures
        spec_pad_firmware(fw).take(fw.len() as int) == fw,
        spec_pad_firmware(fw).len() % 4 == 0,
        spec_pad_firmware(fw).len() - fw.len() < 4,
        forall|k: int|
            fw.len() <= k < spec_pad_firmware(fw).len() ==> spec_pad_firmware(fw)[k] == 0xFFu8,
{
    assert(spec_pad_firmware(fw).take(fw.len() as int) =~= fw);
}

/// A firmware image ready to be written: padded, with its block count and digest.
pub struct FlashImage {
    pub image: Vec<u8>,
    pub total_size: u32,
    pub num_blocks: u32,
    /// MD5 of the padded image, lowercase hex.
    pub md5: String,
}

/// Pad the image and compute what the flashing sequence needs to know about it.
pub fn prepare_image(fw: &[u8]) -> (img: FlashImage)
    requires
        fw@.len() + 3 + 1023 <= u32::MAX,
        fw@.len() + 80 <= usize::MAX,
    ensures
        img.image@ == spec_pad_firmware(fw@),
        img.total_size == img.image@.len(),
        img.num_blocks == spec_num_blocks(img.total_size, 1024),
        img.md5@ == spec_md5_hex(img.image@),
{
    let image = pad_firmware(fw);
    let total_size = image.len() as u32;
    let blocks = num_blocks(total_size, FLASH_BLOCK_SIZE);
    let md5 = md5_of(image.as_slice());
    FlashImage { image, total_size, num_blocks: blocks, md5 }
}

} // verus!
