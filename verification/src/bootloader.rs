//! Packets of the ESP32-S3 ROM bootloader protocol and the decisions of the flashing
//! sequence (what to send, how to read a reply, how the image is cut into blocks).
//! The serial port itself is driven by the application.
use vstd::prelude::*;
use crate::bytes::{le_u16, le_u32, push_u16_le, push_u32_le};
use crate::text::{lowercase, spec_lowercase, utf8_text};
use crate::slip::{
    lemma_decode_body, lemma_extract_single_frame, slip_escape, spec_slip_encode,
    extract_slip_frames, frames_view, slip_decode, spec_extract_slip_frames, spec_slip_decode,
};

verus! {

pub const CMD_SYNC: u8 = 0x08;
pub const CMD_CHANGE_BAUDRATE: u8 = 0x0F;
pub const CMD_SPI_SET_PARAMS: u8 = 0x0B;
pub const CMD_SPI_ATTACH: u8 = 0x0D;
pub const CMD_FLASH_BEGIN: u8 = 0x02;
pub const CMD_FLASH_DATA: u8 = 0x03;
pub const CMD_FLASH_END: u8 = 0x04;
pub const CMD_SPI_FLASH_MD5: u8 = 0x13;

/// Write block size (esptool `FLASH_WRITE_SIZE`).
pub const FLASH_BLOCK_SIZE: u32 = 0x400;
/// Flash sector size, the minimum erase unit.
pub const FLASH_SECTOR_SIZE: u32 = 0x1000;
pub const INITIAL_BAUD: u32 = 115200;
pub const FLASH_BAUD: u32 = 460800;
/// Attempts for each FLASH_DATA block.
pub const WRITE_BLOCK_ATTEMPTS: usize = 3;
/// Attempts for the SYNC handshake.
pub const SYNC_ATTEMPTS: usize = 10;
/// Size of the flash chip announced with SPI_SET_PARAMS (16 MB).
pub const FLASH_SIZE_16MB: u32 = 0x0100_0000;

/// XOR of all bytes, seeded with `0xEF`.
pub open spec fn spec_xor_checksum(data: Seq<u8>) -> u8
    decreases data.len(),
{
    if data.len() == 0 {
        0xEFu8
    } else {
        spec_xor_checksum(data.drop_last()) ^ data.last()
    }
}

/// The checksum the bootloader expects in a FLASH_DATA header.
pub fn xor_checksum(data: &[u8]) -> (chk: u32)
    ensures
        chk == spec_xor_checksum(data@) as u32,
{
    let mut chk: u8 = 0xEF;
    let n = data.len();
    let mut i: usize = 0;
    while i < n
        invariant
            n == data@.len(),
            i <= n,
            chk == spec_xor_checksum(data@.take(i as int)),
        decreases n - i,
    {
        proof {
            assert(data@.take(i + 1).drop_last() =~= data@.take(i as int));
        }
        chk = chk ^ data[i];
        i = i + 1;
    }
    proof {
        assert(data@.take(n as int) =~= data@);
    }
    chk as u32
}

/// The checksum is the XOR of all bytes, seeded with `0xEF`.
pub proof fn lemma_xor_checksum_fold(data: Seq<u8>)
    ensures
        spec_xor_checksum(data) == data.fold_left(0xEFu8, |c: u8, x: u8| c ^ x),
    decreases data.len(),
{
    if data.len() > 0 {
        lemma_xor_checksum_fold(data.drop_last());
    }
}

/// The checksum of two pieces put together is the XOR of their checksums and the seed.
pub proof fn lemma_xor_checksum_concat(a: Seq<u8>, b: Seq<u8>)
    ensures
        spec_xor_checksum(a + b) == spec_xor_checksum(a) ^ spec_xor_checksum(b) ^ 0xEFu8,
    decreases b.len(),
{
    let ca = spec_xor_checksum(a);
    if b.len() == 0 {
        assert(a + b =~= a);
        assert(ca ^ 0xEFu8 ^ 0xEFu8 == ca) by (bit_vector);
    } else {
        let b1 = b.drop_last();
        let l = b.last();
        lemma_xor_checksum_concat(a, b1);
        assert((a + b).drop_last() =~= a + b1);
        assert((a + b).last() == l);
        let cb1 = spec_xor_checksum(b1);
        assert((ca ^ cb1 ^ 0xEFu8) ^ l == ca ^ (cb1 ^ l) ^ 0xEFu8) by (bit_vector);
    }
}

/// The checksum does not depend on the order of the pieces.
pub proof fn lemma_xor_checksum_swap(a: Seq<u8>, b: Seq<u8>)
    ensures
        spec_xor_checksum(a + b) == spec_xor_checksum(b + a),
{
    lemma_xor_checksum_concat(a, b);
    lemma_xor_checksum_concat(b, a);
    let ca = spec_xor_checksum(a);
    let cb = spec_xor_checksum(b);
    assert(ca ^ cb ^ 0xEFu8 == cb ^ ca ^ 0xEFu8) by (bit_vector);
}

/// A command packet: direction `0x00`, command, payload size (`u16`, the length cut to
/// 16 bits), checksum (`u32`), payload.
pub open spec fn spec_build_command(cmd: u8, data: Seq<u8>, checksum: u32) -> Seq<u8> {
    seq![0x00u8, cmd] + le_u16(data.len() as u16) + le_u32(checksum) + data
}

/// Build a bootloader command packet (before SLIP framing).
pub fn build_command(cmd: u8, data: &[u8], checksum: u32) -> (pkt: Vec<u8>)
    requires
        data@.len() + 8 <= usize::MAX,
    ensures
        pkt@ == spec_build_command(cmd, data@, checksum),
{
    let size = data.len() as u16;
    let mut pkt: Vec<u8> = Vec::new();
    pkt.push(0x00);
    pkt.push(cmd);
    push_u16_le(&mut pkt, size);
    push_u32_le(&mut pkt, checksum);
    let ghost head = pkt@;
    let n = data.len();
    let mut i: usize = 0;
    while i < n
        invariant
            n == data@.len(),
            n + 8 <= usize::MAX,
            head.len() == 8,
            i <= n,
            pkt@ == head + data@.take(i as int),
        decreases n - i,
    {
        pkt.push(data[i]);
        proof {
            assert(data@.take(i + 1) =~= data@.take(i as int).push(data@[i as int]));
        }
        i = i + 1;
    }
    proof {
        assert(data@.take(n as int) =~= data@);
        assert(pkt@ =~= spec_build_command(cmd, data@, checksum));
    }
    pkt
}

/// SYNC payload: `07 07 12 20` followed by 32 bytes `0x55`.
pub open spec fn spec_sync_payload() -> Seq<u8> {
    seq![0x07u8, 0x07u8, 0x12u8, 0x20u8] + Seq::new(32, |_i: int| 0x55u8)
}

/// The payload of the SYNC command.
pub fn sync_payload() -> (p: Vec<u8>)
    ensures
        p@ == spec_sync_payload(),
{
    let mut p: Vec<u8> = vec![0x07, 0x07, 0x12, 0x20];
    let mut i: usize = 0;
    while i < 32
        invariant
            i <= 32,
            p@ == seq![0x07u8, 0x07u8, 0x12u8, 0x20u8] + Seq::new(i as nat, |_i: int| 0x55u8),
        decreases 32 - i,
    {
        p.push(0x55);
        i = i + 1;
        proof {
            assert(p@ =~= seq![0x07u8, 0x07u8, 0x12u8, 0x20u8] + Seq::new(
                i as nat,
                |_i: int| 0x55u8,
            ));
        }
    }
    p
}

/// CHANGE_BAUDRATE payload: new baud, then `0` (the ROM reads it as "current baud").
pub fn change_baudrate_payload(new_baud: u32) -> (p: Vec<u8>)
    ensures
        p@ == le_u32(new_baud) + le_u32(0),
{
    let mut p: Vec<u8> = Vec::new();
    push_u32_le(&mut p, new_baud);
    push_u32_le(&mut p, 0);
    proof {
        assert(p@ =~= le_u32(new_baud) + le_u32(0));
    }
    p
}

/// SPI_ATTACH payload: eight zero bytes (standard, non-legacy attach).
pub fn spi_attach_payload() -> (p: Vec<u8>)
    ensures
        p@ == Seq::new(8, |_i: int| 0u8),
{
    let p: Vec<u8> = vec![0, 0, 0, 0, 0, 0, 0, 0];
    proof {
        assert(p@ =~= Seq::new(8, |_i: int| 0u8));
    }
    p
}

/// SPI_SET_PARAMS payload: flash id 0, total size, 64 KB block, 4 KB sector,
/// 256 B page, status mask `0xFFFF`.
pub open spec fn spec_spi_set_params_payload(flash_size: u32) -> Seq<u8> {
    le_u32(0) + le_u32(flash_size) + le_u32(0x10000) + le_u32(0x1000) + le_u32(256) + le_u32(
        0xFFFF,
    )
}

/// The payload that announces the flash chip geometry.
pub fn spi_set_params_payload(flash_size: u32) -> (p: Vec<u8>)
    ensures
        p@ == spec_spi_set_params_payload(flash_size),
        p@.len() == 24,
{
    let mut p: Vec<u8> = Vec::new();
    push_u32_le(&mut p, 0);
    push_u32_le(&mut p, flash_size);
    push_u32_le(&mut p, 64 * 1024);
    push_u32_le(&mut p, 4 * 1024);
    push_u32_le(&mut p, 256);
    push_u32_le(&mut p, 0xFFFF);
    proof {
        assert(p@ =~= spec_spi_set_params_payload(flash_size));
    }
    p
}

/// Number of blocks of `block_size` bytes needed for `total` bytes.
pub open spec fn spec_num_blocks(total: u32, block_size: u32) -> int {
    (total + block_size - 1) / (block_size as int)
}

/// `total` rounded up to a whole number of 4 KB sectors.
pub open spec fn spec_erase_size(total: u32) -> int {
    ((total + 4095) / 4096) * 4096
}

/// Number of write blocks for an image of `total` bytes.
pub fn num_blocks(total: u32, block_size: u32) -> (n: u32)
    requires
        block_size > 0,
        total + block_size - 1 <= u32::MAX,
    ensures
        n == spec_num_blocks(total, block_size),
{
    (total + (block_size - 1)) / block_size
}

/// Erase size aligned to the sector boundary.
pub fn erase_size(total: u32) -> (e: u32)
    requires
        total + 4095 <= u32::MAX,
    ensures
        e == spec_erase_size(total),
        e >= total,
        e % 4096 == 0,
        e - total < 4096,
{
    let s = total + (FLASH_SECTOR_SIZE - 1);
    let low: u32 = FLASH_SECTOR_SIZE - 1;
    let mask: u32 = !low;
    assert(mask == 0xFFFF_F000u32) by (bit_vector)
        requires
            low == 0xFFFu32,
            mask == !low,
    ;
    let e = s & mask;
    assert(e == s - s % 4096) by (bit_vector)
        requires
            e == s & 0xFFFF_F000u32,
    ;
    e
}

/// FLASH_BEGIN payload: erase size, block count, block size, offset, and `0`
/// (no ROM-encrypted write).
pub open spec fn spec_flash_begin_payload(offset: u32, total: u32, block_size: u32) -> Seq<u8> {
    le_u32(spec_erase_size(total) as u32) + le_u32(spec_num_blocks(total, block_size) as u32)
        + le_u32(block_size) + le_u32(offset) + le_u32(0)
}

/// The payload that starts a flash write (and erases the target region).
pub fn flash_begin_payload(offset: u32, total: u32, block_size: u32) -> (p: Vec<u8>)
    requires
        block_size > 0,
        total + block_size - 1 <= u32::MAX,
        total + 4095 <= u32::MAX,
    ensures
        p@ == spec_flash_begin_payload(offset, total, block_size),
        p@.len() == 20,
{
    let blocks = num_blocks(total, block_size);
    let erase = erase_size(total);
    let mut p: Vec<u8> = Vec::new();
    push_u32_le(&mut p, erase);
    push_u32_le(&mut p, blocks);
    push_u32_le(&mut p, block_size);
    push_u32_le(&mut p, offset);
    push_u32_le(&mut p, 0);
    proof {
        assert(p@ =~= spec_flash_begin_payload(offset, total, block_size));
    }
    p
}

/// FLASH_DATA payload: data length, sequence number, two reserved zero words, data.
pub open spec fn spec_flash_data_payload(seq_no: u32, data: Seq<u8>) -> Seq<u8> {
    le_u32(data.len() as u32) + le_u32(seq_no) + le_u32(0) + le_u32(0) + data
}

/// The payload that writes one block.
pub fn flash_data_payload(seq_no: u32, data: &[u8]) -> (p: Vec<u8>)
    requires
        data@.len() + 16 <= usize::MAX,
    ensures
        p@ == spec_flash_data_payload(seq_no, data@),
{
    let data_len = data.len() as u32;
    let mut p: Vec<u8> = Vec::new();
    push_u32_le(&mut p, data_len);
    push_u32_le(&mut p, seq_no);
    push_u32_le(&mut p, 0);
    push_u32_le(&mut p, 0);
    let ghost head = p@;
    let n = data.len();
    let mut i: usize = 0;
    while i < n
        invariant
            n == data@.len(),
            n + 16 <= usize::MAX,
            head.len() == 16,
            i <= n,
            p@ == head + data@.take(i as int),
        decreases n - i,
    {
        p.push(data[i]);
        proof {
            assert(data@.take(i + 1) =~= data@.take(i as int).push(data@[i as int]));
        }
        i = i + 1;
    }
    proof {
        assert(data@.take(n as int) =~= data@);
        assert(p@ =~= spec_flash_data_payload(seq_no, data@));
    }
    p
}

/// FLASH_END payload: `0` to run the application, `1` to stay in the bootloader.
pub fn flash_end_payload(reboot: bool) -> (p: Vec<u8>)
    ensures
        p@ == le_u32(if reboot { 0u32 } else { 1u32 }),
{
    let flag: u32 = if reboot { 0 } else { 1 };
    let mut p: Vec<u8> = Vec::new();
    push_u32_le(&mut p, flag);
    proof {
        assert(p@ =~= le_u32(flag));
    }
    p
}

/// SPI_FLASH_MD5 payload: address, size, two reserved zero words.
pub fn flash_md5_payload(addr: u32, size: u32) -> (p: Vec<u8>)
    ensures
        p@ == le_u32(addr) + le_u32(size) + le_u32(0) + le_u32(0),
{
    let mut p: Vec<u8> = Vec::new();
    push_u32_le(&mut p, addr);
    push_u32_le(&mut p, size);
    push_u32_le(&mut p, 0);
    push_u32_le(&mut p, 0);
    proof {
        assert(p@ =~= le_u32(addr) + le_u32(size) + le_u32(0) + le_u32(0));
    }
    p
}

/// Reply timeout of the MD5 command: 8 s plus the larger of 3 s and 8 ms per MB.
pub fn md5_timeout_ms(size: u32) -> (t: u64)
    ensures
        t == 8000 + (if size * 8 / 1_000_000 >= 3000 { size * 8 / 1_000_000 } else { 3000 }),
{
    let scaled: u64 = (size as u64) * 8 / 1_000_000;
    let extra: u64 = if scaled >= 3000 { scaled } else { 3000 };
    8000 + extra
}


/// Whether a decoded frame is the bootloader's reply to `cmd`:
/// at least the 8-byte header, direction `0x01`, and the same command.
pub open spec fn is_reply_to(d: Seq<u8>, cmd: u8) -> bool {
    d.len() >= 8 && d[0] == 0x01 && d[1] == cmd
}

/// The first frame from index `i` on whose decoded bytes are a reply to `cmd`.
pub open spec fn first_reply_from(frames: Seq<Seq<u8>>, cmd: u8, i: int) -> Option<Seq<u8>>
    decreases frames.len() - i,
{
    if i < 0 || i >= frames.len() {
        None
    } else if is_reply_to(spec_slip_decode(frames[i]), cmd) {
        Some(spec_slip_decode(frames[i]))
    } else {
        first_reply_from(frames, cmd, i + 1)
    }
}

/// The first reply to `cmd` carried by the complete frames of `raw`.
pub open spec fn first_reply(raw: Seq<u8>, cmd: u8) -> Option<Seq<u8>> {
    first_reply_from(spec_extract_slip_frames(raw), cmd, 0)
}

/// What the bytes received so far say about a command.
pub enum ReplyScan {
    /// No reply to the command yet: keep reading.
    Pending,
    /// The decoded reply packet, with a zero status (or too short to carry one).
    Accepted(Vec<u8>),
    /// The reply carries a non-zero status.
    Rejected { status: u8, error: u8 },
}

/// The verdict on a decoded reply `d`.
pub open spec fn reply_verdict_ok(d: Seq<u8>) -> bool {
    !(d.len() >= 10 && d[8] != 0)
}

/// Look for the reply to `cmd` in the bytes read so far: the first complete frame
/// whose decoded packet has direction `0x01` and command `cmd` decides; its status
/// byte (offset 8, when the packet has at least 10 bytes) must be zero.
pub fn scan_reply(raw: &[u8], cmd: u8) -> (r: ReplyScan)
    ensures
        match first_reply(raw@, cmd) {
            None => r is Pending,
            Some(d) => if reply_verdict_ok(d) {
                r matches ReplyScan::Accepted(v) && v@ == d
            } else {
                r matches ReplyScan::Rejected { status, error } && status == d[8] && error == d[9]
            },
        },
{
    let frames = extract_slip_frames(raw);
    let ghost fv = frames_view(frames@);
    let n = frames.len();
    let mut i: usize = 0;
    while i < n
        invariant
            n == frames@.len(),
            fv == frames_view(frames@),
            fv == spec_extract_slip_frames(raw@),
            i <= n,
            first_reply_from(fv, cmd, 0) == first_reply_from(fv, cmd, i as int),
        decreases n - i,
    {
        let decoded = slip_decode(&frames[i]);
        proof {
            assert(fv[i as int] == frames@[i as int]@);
        }
        if decoded.len() >= 8 && decoded[0] == 0x01 && decoded[1] == cmd {
            if decoded.len() >= 10 && decoded[8] != 0 {
                return ReplyScan::Rejected { status: decoded[8], error: decoded[9] };
            }
            return ReplyScan::Accepted(decoded);
        }
        i = i + 1;
    }
    ReplyScan::Pending
}

/// Whether a decoded frame is the ROM's MD5 reply: header, 32 ASCII hex digits,
/// then the status bytes.
pub open spec fn is_md5_reply(d: Seq<u8>) -> bool {
    d.len() >= 42 && d[0] == 0x01 && d[1] == CMD_SPI_FLASH_MD5
}

/// The first frame from index `i` on that is an MD5 reply.
pub open spec fn first_md5_reply_from(frames: Seq<Seq<u8>>, i: int) -> Option<Seq<u8>>
    decreases frames.len() - i,
{
    if i < 0 || i >= frames.len() {
        None
    } else if is_md5_reply(spec_slip_decode(frames[i])) {
        Some(spec_slip_decode(frames[i]))
    } else {
        first_md5_reply_from(frames, i + 1)
    }
}

/// The first MD5 reply carried by the complete frames of `raw`.
pub open spec fn first_md5_reply(raw: Seq<u8>) -> Option<Seq<u8>> {
    first_md5_reply_from(spec_extract_slip_frames(raw), 0)
}

/// The 32 digest bytes of an MD5 reply.
pub open spec fn md5_reply_digest(d: Seq<u8>) -> Seq<u8> {
    d.subrange(8, 40)
}

/// What the bytes received so far say about the MD5 command.
pub enum Md5Scan {
    /// No MD5 reply yet: keep reading.
    Pending,
    /// The reply carries a non-zero status (offset 40).
    Rejected { status: u8, error: u8 },
    /// The digest field is not UTF-8 text.
    NotText,
    /// The digest reported by the chip, lower-cased.
    Digest(String),
}

/// Look for the ROM's MD5 reply in the bytes read so far and read its digest.
pub fn scan_md5_reply(raw: &[u8]) -> (r: Md5Scan)
    ensures
        match first_md5_reply(raw@) {
            None => r is Pending,
            Some(d) => if d[40] != 0 {
                r matches Md5Scan::Rejected { status, error } && status == d[40] && error == d[41]
            } else if !vstd::utf8::valid_utf8(md5_reply_digest(d)) {
                r is NotText
            } else {
                r matches Md5Scan::Digest(s) && s@ == spec_lowercase(
                    vstd::utf8::decode_utf8(md5_reply_digest(d)),
                )
            },
        },
{
    let frames = extract_slip_frames(raw);
    let ghost fv = frames_view(frames@);
    let n = frames.len();
    let mut i: usize = 0;
    while i < n
        invariant
            n == frames@.len(),
            fv == frames_view(frames@),
            fv == spec_extract_slip_frames(raw@),
            i <= n,
            first_md5_reply_from(fv, 0) == first_md5_reply_from(fv, i as int),
        decreases n - i,
    {
        let decoded = slip_decode(&frames[i]);
        proof {
            assert(fv[i as int] == frames@[i as int]@);
        }
        if decoded.len() >= 42 && decoded[0] == 0x01 && decoded[1] == CMD_SPI_FLASH_MD5 {
            if decoded[40] != 0 {
                return Md5Scan::Rejected { status: decoded[40], error: decoded[41] };
            }
            let mut digest: Vec<u8> = Vec::new();
            let mut k: usize = 8;
            while k < 40
                invariant
                    8 <= k <= 40,
                    decoded@.len() >= 42,
                    digest@ == decoded@.subrange(8, k as int),
                decreases 40 - k,
            {
                digest.push(decoded[k]);
                proof {
                    assert(decoded@.subrange(8, k + 1) =~= decoded@.subrange(8, k as int).push(
                        decoded@[k as int],
                    ));
                }
                k = k + 1;
            }
            return match utf8_text(digest.as_slice()) {
                None => Md5Scan::NotText,
                Some(text) => Md5Scan::Digest(lowercase(text.as_str())),
            };
        }
        i = i + 1;
    }
    Md5Scan::Pending
}

/// Outcome of the post-write MD5 comparison.
pub enum Md5Check {
    /// The chip's digest equals the one computed over the image.
    Verified,
    /// The digests differ: the flash is corrupt.
    Mismatch,
    /// The chip gave no digest; the flash is kept (some boards reset too early).
    Unavailable,
}

/// Compare the digest computed locally with the one the chip reported, if any.
pub fn md5_check(expected: &String, reported: Option<&String>) -> (r: Md5Check)
    ensures
        match reported {
            None => r is Unavailable,
            Some(got) => if got@ == expected@ {
                r is Verified
            } else {
                r is Mismatch
            },
        },
{
    match reported {
        None => Md5Check::Unavailable,
        Some(got) => {
            if *got == *expected {
                Md5Check::Verified
            } else {
                Md5Check::Mismatch
            }
        },
    }
}

/// Flash offset for the target chosen in the flasher: 0 full image, 1 factory
/// partition, 2 `ota_0`; anything else the factory partition.
pub fn flash_offset_for_index(idx: i32) -> (off: u32)
    ensures
        off == (if idx == 0 {
            0u32
        } else if idx == 2 {
            0x220000u32
        } else {
            0x20000u32
        }),
{
    match idx {
        0 => 0x0,
        1 => 0x20000,
        2 => 0x220000,
        _ => 0x20000,
    }
}

/// A reply packet sent in one SLIP frame is found by the scanner: a packet with
/// direction `0x01`, command `cmd`, at least 8 bytes and a zero status is accepted
/// as it was sent, and one with a non-zero status is rejected with that status.
pub proof fn lemma_reply_found(pkt: Seq<u8>, cmd: u8)
    requires
        is_reply_to(pkt, cmd),
    ensures
        first_reply(spec_slip_encode(pkt), cmd) == Some(pkt),
{
    lemma_extract_single_frame(pkt);
    lemma_decode_body(pkt);
    let frames = spec_extract_slip_frames(spec_slip_encode(pkt));
    assert(frames[0] == slip_escape(pkt));
    assert(first_reply_from(frames, cmd, 0) == Some(pkt));
}

/// The bootloader never takes a command for its own reply: a command packet
/// (direction `0x00`) echoed back on the line leaves the scanner waiting.
pub proof fn lemma_echo_ignored(cmd: u8, data: Seq<u8>, checksum: u32, other: u8)
    ensures
        first_reply(spec_slip_encode(spec_build_command(cmd, data, checksum)), other) is None,
{
    let pkt = spec_build_command(cmd, data, checksum);
    assert(pkt[0] == 0x00u8);
    lemma_extract_single_frame(pkt);
    lemma_decode_body(pkt);
    let frames = spec_extract_slip_frames(spec_slip_encode(pkt));
    assert(first_reply_from(frames, other, 1) is None);
    assert(first_reply_from(frames, other, 0) is None);
}

} // verus!
