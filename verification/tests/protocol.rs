use kesp_controller::bootloader::{
    build_command, change_baudrate_payload, erase_size, flash_data_payload, flash_end_payload,
    flash_md5_payload, flash_offset_for_index, md5_check, md5_timeout_ms, num_blocks,
    scan_md5_reply, scan_reply, spi_attach_payload, sync_payload, Md5Check,
    Md5Scan, ReplyScan, CMD_SPI_FLASH_MD5, CMD_SYNC,
};
use kesp_controller::bytes::{u16_from_le, u32_from_le};
use kesp_controller::firmware::{flash_block, pad_firmware, prepare_image, written_kb};
use kesp_controller::flash_seq::{first_step, next_step, FlashStep};
use kesp_controller::md5::md5_of;
use kesp_controller::slip::{extract_slip_frames, slip_decode, slip_encode};

#[test]
fn slip_encode_empty_is_two_delimiters() {
    assert_eq!(slip_encode(&[]), vec![0xC0, 0xC0]);
}

#[test]
fn slip_decode_unknown_escape_keeps_byte() {
    assert_eq!(slip_decode(&[0xDB, 0x41, 0x42]), vec![0x41, 0x42]);
}

#[test]
fn extract_frames_skips_garbage_and_partial() {
    let raw = vec![0x55, 0x66, 0xC0, 0x01, 0x02, 0xC0, 0x77, 0xC0, 0xC0, 0x03, 0xC0, 0xC0, 0x09];
    let frames = extract_slip_frames(&raw);
    assert_eq!(frames, vec![vec![0x01, 0x02], vec![0x03]]);
}

#[test]
fn extract_frames_of_encoded_data_gives_escaped_body() {
    let data = vec![0x10, 0xC0, 0xDB];
    let frames = extract_slip_frames(&slip_encode(&data));
    assert_eq!(frames, vec![vec![0x10, 0xDB, 0xDC, 0xDB, 0xDD]]);
    assert_eq!(slip_decode(&frames[0]), data);
}

fn reply(cmd: u8, status: u8, error: u8) -> Vec<u8> {
    vec![0x01, cmd, 0x04, 0x00, 0, 0, 0, 0, status, error, 0, 0]
}

#[test]
fn scan_reply_accepts_matching_reply() {
    let pkt = reply(CMD_SYNC, 0, 0);
    let mut raw = vec![0x42, 0x42]; // boot log garbage
    raw.extend(slip_encode(&pkt));
    match scan_reply(&raw, CMD_SYNC) {
        ReplyScan::Accepted(d) => assert_eq!(d, pkt),
        _ => panic!("expected an accepted reply"),
    }
}

#[test]
fn scan_reply_rejects_error_status() {
    let raw = slip_encode(&reply(CMD_SYNC, 1, 0x05));
    match scan_reply(&raw, CMD_SYNC) {
        ReplyScan::Rejected { status, error } => {
            assert_eq!(status, 1);
            assert_eq!(error, 5);
        }
        _ => panic!("expected a rejected reply"),
    }
}

#[test]
fn scan_reply_waits_for_other_command_and_echo() {
    let mut raw = slip_encode(&reply(0x02, 0, 0));
    raw.extend(slip_encode(&build_command(CMD_SYNC, &[1, 2, 3], 0)));
    raw.extend(vec![0xC0, 0x01, CMD_SYNC]); // unfinished frame
    assert!(matches!(scan_reply(&raw, CMD_SYNC), ReplyScan::Pending));
}

#[test]
fn scan_reply_short_reply_is_accepted_without_status() {
    let pkt = vec![0x01, CMD_SYNC, 0, 0, 0, 0, 0, 0, 7];
    match scan_reply(&slip_encode(&pkt), CMD_SYNC) {
        ReplyScan::Accepted(d) => assert_eq!(d, pkt),
        _ => panic!("expected an accepted reply"),
    }
}

fn md5_reply(digest: &[u8], status: u8) -> Vec<u8> {
    let mut pkt = vec![0x01, CMD_SPI_FLASH_MD5, 0x24, 0x00, 0, 0, 0, 0];
    pkt.extend_from_slice(digest);
    pkt.extend_from_slice(&[status, 0x0A, 0, 0]);
    pkt
}

#[test]
fn scan_md5_reply_lowercases_digest() {
    let digest = b"D41D8CD98F00B204E9800998ECF8427E";
    match scan_md5_reply(&slip_encode(&md5_reply(digest, 0))) {
        Md5Scan::Digest(s) => assert_eq!(s, "d41d8cd98f00b204e9800998ecf8427e"),
        _ => panic!("expected a digest"),
    }
}

#[test]
fn scan_md5_reply_errors() {
    match scan_md5_reply(&slip_encode(&md5_reply(&[0x30; 32], 1))) {
        Md5Scan::Rejected { status, error } => {
            assert_eq!(status, 1);
            assert_eq!(error, 0x0A);
        }
        _ => panic!("expected a rejection"),
    }
    let mut bad = [0x30u8; 32];
    bad[3] = 0xFF;
    assert!(matches!(scan_md5_reply(&slip_encode(&md5_reply(&bad, 0))), Md5Scan::NotText));
    assert!(matches!(scan_md5_reply(&slip_encode(&reply(CMD_SPI_FLASH_MD5, 0, 0))), Md5Scan::Pending));
}

#[test]
fn md5_check_outcomes() {
    let expected = "900150983cd24fb0d6963f7d28e17f72".to_string();
    let same = expected.clone();
    let other = "00".to_string();
    assert!(matches!(md5_check(&expected, Some(&same)), Md5Check::Verified));
    assert!(matches!(md5_check(&expected, Some(&other)), Md5Check::Mismatch));
    assert!(matches!(md5_check(&expected, None), Md5Check::Unavailable));
}

#[test]
fn payload_layouts() {
    let mut sync = vec![0x07, 0x07, 0x12, 0x20];
    sync.extend_from_slice(&[0x55; 32]);
    assert_eq!(sync_payload(), sync);
    assert_eq!(change_baudrate_payload(460800), vec![0x00, 0x08, 0x07, 0x00, 0, 0, 0, 0]);
    assert_eq!(spi_attach_payload(), vec![0u8; 8]);
    assert_eq!(flash_end_payload(true), vec![0, 0, 0, 0]);
    assert_eq!(flash_end_payload(false), vec![1, 0, 0, 0]);
    assert_eq!(
        flash_md5_payload(0x20000, 0x1234),
        vec![0x00, 0x00, 0x02, 0x00, 0x34, 0x12, 0, 0, 0, 0, 0, 0, 0, 0, 0, 0]
    );
    let p = flash_data_payload(7, &[0xAA, 0xBB, 0xCC]);
    assert_eq!(p, vec![3, 0, 0, 0, 7, 0, 0, 0, 0, 0, 0, 0, 0, 0, 0, 0, 0xAA, 0xBB, 0xCC]);
}

#[test]
fn build_command_truncates_size_to_16_bits() {
    let data = vec![0u8; 0x10002];
    let pkt = build_command(0x03, &data, 0);
    assert_eq!(pkt[2], 0x02);
    assert_eq!(pkt[3], 0x00);
    assert_eq!(pkt.len(), 8 + 0x10002);
}

#[test]
fn geometry_formulas() {
    assert_eq!(num_blocks(0, 1024), 0);
    assert_eq!(num_blocks(1, 1024), 1);
    assert_eq!(num_blocks(2048, 1024), 2);
    assert_eq!(num_blocks(2049, 1024), 3);
    assert_eq!(erase_size(0), 0);
    assert_eq!(erase_size(1), 0x1000);
    assert_eq!(erase_size(0x1000), 0x1000);
    assert_eq!(erase_size(0x1001), 0x2000);
    assert_eq!(md5_timeout_ms(1_000_000), 11_000);
    assert_eq!(md5_timeout_ms(500_000_000), 12_000);
}

#[test]
fn flash_offsets() {
    assert_eq!(flash_offset_for_index(0), 0);
    assert_eq!(flash_offset_for_index(1), 0x20000);
    assert_eq!(flash_offset_for_index(2), 0x220000);
    assert_eq!(flash_offset_for_index(7), 0x20000);
}

#[test]
fn little_endian_readers() {
    assert_eq!(u16_from_le(0x34, 0x12), 0x1234);
    assert_eq!(u32_from_le(0x78, 0x56, 0x34, 0x12), 0x12345678);
}

#[test]
fn firmware_padding_and_blocks() {
    let fw = vec![0xE9u8; 5];
    assert_eq!(pad_firmware(&fw), vec![0xE9, 0xE9, 0xE9, 0xE9, 0xE9, 0xFF, 0xFF, 0xFF]);
    assert_eq!(pad_firmware(&[1, 2, 3, 4]), vec![1, 2, 3, 4]);
    let image: Vec<u8> = (0..1500u32).map(|i| (i % 251) as u8).collect();
    let b0 = flash_block(&image, 0);
    assert_eq!(&b0[..], &image[..1024]);
    let b1 = flash_block(&image, 1);
    assert_eq!(b1.len(), 1024);
    assert_eq!(&b1[..476], &image[1024..]);
    assert!(b1[476..].iter().all(|&b| b == 0xFF));
    assert_eq!(written_kb(0, 1500), 1);
    assert_eq!(written_kb(1, 1500), 1);
    assert_eq!(written_kb(3, 10_000), 4);
}

#[test]
fn prepare_image_pads_and_hashes() {
    let img = prepare_image(b"abc");
    assert_eq!(img.image, vec![b'a', b'b', b'c', 0xFF]);
    assert_eq!(img.total_size, 4);
    assert_eq!(img.num_blocks, 1);
    assert_eq!(img.md5, md5_of(&[b'a', b'b', b'c', 0xFF]));
}

#[test]
fn md5_more_vectors() {
    assert_eq!(md5_of(b"a"), "0cc175b9c0f1b6a831c399e269772661");
    assert_eq!(md5_of(b"message digest"), "f96b697d7cb7938d525a2f31aaf161d0");
    assert_eq!(md5_of(b"abcdefghijklmnopqrstuvwxyz"), "c3fcd3d76192e4007dfb496cca67e13b");
    assert_eq!(
        md5_of(b"ABCDEFGHIJKLMNOPQRSTUVWXYZabcdefghijklmnopqrstuvwxyz0123456789"),
        "d174ab98d277d9f5a5611c2c9f419d9f"
    );
    assert_eq!(
        md5_of(b"12345678901234567890123456789012345678901234567890123456789012345678901234567890"),
        "57edf4a22be3c955ac49da2e2107b67a"
    );
    assert_eq!(
        md5_of(b"The quick brown fox jumps over the lazy dog"),
        "9e107d9d372bb6826bd81d3542a419d6"
    );
}

#[test]
fn flash_sequence_success_and_retries() {
    let mut step = first_step();
    let mut seen = Vec::new();
    while step != FlashStep::Finished && step != FlashStep::Failed && seen.len() < 100 {
        seen.push(step);
        step = next_step(step, true, 2);
    }
    assert_eq!(step, FlashStep::Finished);
    assert_eq!(
        seen,
        vec![
            FlashStep::Sync { attempt: 0 },
            FlashStep::ChangeBaud,
            FlashStep::SpiAttach,
            FlashStep::SetParams,
            FlashStep::Begin,
            FlashStep::WriteBlock { seq: 0, attempt: 0 },
            FlashStep::WriteBlock { seq: 1, attempt: 0 },
            FlashStep::End,
            FlashStep::VerifyMd5,
            FlashStep::Reset,
        ]
    );
    assert_eq!(next_step(FlashStep::Begin, true, 0), FlashStep::End);
    assert_eq!(next_step(FlashStep::Sync { attempt: 8 }, false, 2), FlashStep::Sync { attempt: 9 });
    assert_eq!(next_step(FlashStep::Sync { attempt: 9 }, false, 2), FlashStep::Failed);
    assert_eq!(
        next_step(FlashStep::WriteBlock { seq: 1, attempt: 1 }, false, 2),
        FlashStep::WriteBlock { seq: 1, attempt: 2 }
    );
    assert_eq!(next_step(FlashStep::WriteBlock { seq: 1, attempt: 2 }, false, 2), FlashStep::Failed);
    assert_eq!(next_step(FlashStep::End, false, 2), FlashStep::VerifyMd5);
    assert_eq!(next_step(FlashStep::VerifyMd5, false, 2), FlashStep::Failed);
    assert_eq!(next_step(FlashStep::SpiAttach, false, 2), FlashStep::Failed);
}
