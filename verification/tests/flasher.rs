use kesp_controller::bootloader::{
    build_command, flash_begin_payload, spi_set_params_payload, xor_checksum, FLASH_BLOCK_SIZE,
};
use kesp_controller::firmware::padded_len;
use kesp_controller::md5::md5_of;
use kesp_controller::slip::{slip_decode, slip_encode};

#[test]
fn slip_encode_no_special() {
    let data = vec![0x01, 0x02, 0x03];
    let encoded = slip_encode(&data);
    assert_eq!(encoded, vec![0xC0, 0x01, 0x02, 0x03, 0xC0]);
}

#[test]
fn slip_encode_with_end_byte() {
    let data = vec![0x01, 0xC0, 0x03];
    let encoded = slip_encode(&data);
    assert_eq!(encoded, vec![0xC0, 0x01, 0xDB, 0xDC, 0x03, 0xC0]);
}

#[test]
fn slip_encode_with_esc_byte() {
    let data = vec![0x01, 0xDB, 0x03];
    let encoded = slip_encode(&data);
    assert_eq!(encoded, vec![0xC0, 0x01, 0xDB, 0xDD, 0x03, 0xC0]);
}

#[test]
fn slip_roundtrip() {
    let payload = vec![0xC0, 0xDB, 0x00, 0xFF, 0xC0];
    let encoded = slip_encode(&payload);
    let decoded = slip_decode(&encoded);
    assert_eq!(decoded, payload);
}

#[test]
fn xor_checksum_basic() {
    let data = vec![0x01, 0x02, 0x03];
    let chk = xor_checksum(&data);
    let expected = 0xEF ^ 0x01 ^ 0x02 ^ 0x03;
    assert_eq!(chk, expected as u32);
}

#[test]
fn xor_checksum_empty() {
    let chk = xor_checksum(&[]);
    assert_eq!(chk, 0xEF);
}

#[test]
fn build_command_format() {
    let data = vec![0xAA, 0xBB];
    let pkt = build_command(0x08, &data, 0x12345678);
    assert_eq!(pkt[0], 0x00); // direction
    assert_eq!(pkt[1], 0x08); // command
    assert_eq!(pkt[2], 0x02); // size low
    assert_eq!(pkt[3], 0x00); // size high
    assert_eq!(pkt[4], 0x78); // checksum byte 0
    assert_eq!(pkt[5], 0x56); // checksum byte 1
    assert_eq!(pkt[6], 0x34); // checksum byte 2
    assert_eq!(pkt[7], 0x12); // checksum byte 3
    assert_eq!(pkt[8], 0xAA); // data
    assert_eq!(pkt[9], 0xBB);
}

#[test]
fn spi_set_params_payload_length() {
    // Payload must be exactly 24 bytes (6 x u32)
    let flash_size: u32 = 16 * 1024 * 1024;
    let payload = spi_set_params_payload(flash_size);
    assert_eq!(payload.len(), 24);
    let mut expected = Vec::with_capacity(24);
    expected.extend_from_slice(&0u32.to_le_bytes());
    expected.extend_from_slice(&flash_size.to_le_bytes());
    expected.extend_from_slice(&(64u32 * 1024).to_le_bytes());
    expected.extend_from_slice(&(4u32 * 1024).to_le_bytes());
    expected.extend_from_slice(&256u32.to_le_bytes());
    expected.extend_from_slice(&0xFFFFu32.to_le_bytes());
    assert_eq!(payload, expected);
}

#[test]
fn flash_begin_payload_has_5_fields() {
    // ESP32-S3 flash_begin must have 5 fields (20 bytes), not 4 (16 bytes)
    let offset: u32 = 0x20000;
    let payload = flash_begin_payload(offset, 0x1000, FLASH_BLOCK_SIZE);
    assert_eq!(payload.len(), 20);
    let mut expected = Vec::with_capacity(20);
    expected.extend_from_slice(&0x1000u32.to_le_bytes()); // erase size
    expected.extend_from_slice(&4u32.to_le_bytes()); // blocks of 1 KB
    expected.extend_from_slice(&FLASH_BLOCK_SIZE.to_le_bytes());
    expected.extend_from_slice(&offset.to_le_bytes());
    expected.extend_from_slice(&0u32.to_le_bytes());
    assert_eq!(payload, expected);
}

#[test]
fn md5_empty_string() {
    assert_eq!(md5_of(b""), "d41d8cd98f00b204e9800998ecf8427e");
}

#[test]
fn md5_abc() {
    assert_eq!(md5_of(b"abc"), "900150983cd24fb0d6963f7d28e17f72");
}

#[test]
fn md5_known_long() {
    let input = b"abcdbcdecdefdefgefghfghighijhijkijkljklmklmnlmnomnopnopq";
    assert_eq!(md5_of(input), "8215ef0796a20bcaaae116d3876c664a");
}

#[test]
fn firmware_padding_to_4_bytes() {
    // Firmware of odd length must be padded to 4-byte boundary with 0xFF
    let fw = vec![0xE9u8; 5]; // 5 bytes, not aligned
    let padded_len = padded_len(fw.len() as u32);
    assert_eq!(padded_len, 8);
}
