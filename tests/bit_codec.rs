use ezdwg::bit_codec::{read_handle_ref, read_modular_int};
use ezdwg::bit_reader::{BitReader, Endian, ONE_BITS};
use ezdwg::error::ErrorKind;

#[test]
fn read_b_is_msb_first() {
    let data = [0b1010_0000u8];
    let mut r = BitReader::new(&data);
    assert_eq!(r.read_b().unwrap(), 1);
    assert_eq!(r.read_b().unwrap(), 0);
    assert_eq!(r.read_b().unwrap(), 1);
    assert_eq!(r.read_b().unwrap(), 0);
    assert_eq!(r.tell_bits(), 4);
}

#[test]
fn read_rc_unaligned_takes_next_eight_bits() {
    let data = [0x12u8, 0x34];
    let mut r = BitReader::new(&data);
    r.read_b().unwrap();
    assert_eq!(r.read_rc().unwrap(), 0x24);
    assert_eq!(r.get_pos(), (1, 1));
}

#[test]
fn read_rc_past_last_bit_is_io_error() {
    let data = [0xFFu8];
    let mut r = BitReader::new(&data);
    r.set_pos(0, 4);
    let e = r.read_rc().unwrap_err();
    assert_eq!(e.kind, ErrorKind::Io);
    assert_eq!(e.offset, Some(0));
    assert_eq!(r.get_pos(), (0, 4));
}

#[test]
fn read_rc_past_end_is_io_error() {
    let data = [0x01u8];
    let mut r = BitReader::new(&data);
    r.read_rc().unwrap();
    let e = r.read_rc().unwrap_err();
    assert_eq!(e.kind, ErrorKind::Io);
    assert_eq!(e.offset, Some(1));
}

#[test]
fn read_rs_and_rl_endianness() {
    let data = [0x34u8, 0x12, 0x78, 0x56];
    let mut r = BitReader::new(&data);
    assert_eq!(r.read_rs(Endian::Little).unwrap(), 0x1234);
    let mut r = BitReader::new(&data);
    assert_eq!(r.read_rs(Endian::Big).unwrap(), 0x3412);
    let mut r = BitReader::new(&data);
    assert_eq!(r.read_rl(Endian::Little).unwrap(), 0x5678_1234);
}

#[test]
fn read_rd_returns_encoding() {
    let v: f64 = 50.0;
    let bytes = v.to_le_bytes();
    let mut r = BitReader::new(&bytes);
    let bits = r.read_rd(Endian::Little).unwrap();
    assert_eq!(f64::from_bits(bits), 50.0);
}

#[test]
fn read_bs_selectors() {
    let data = [0x6Au8, 0xC0];
    let mut r = BitReader::new(&data);
    assert_eq!(r.read_bs().unwrap(), 0xAB);
    let data = [0b1000_0000u8];
    let mut r = BitReader::new(&data);
    assert_eq!(r.read_bs().unwrap(), 0);
    let data = [0b1100_0000u8];
    let mut r = BitReader::new(&data);
    assert_eq!(r.read_bs().unwrap(), 256);
    let data = [0b0000_0000u8, 0b0100_0000, 0b1100_0000];
    let mut r = BitReader::new(&data);
    assert_eq!(r.read_bs().unwrap(), 0x0301);
}

#[test]
fn read_bl_selectors() {
    let data = [0x6Au8, 0xC0];
    let mut r = BitReader::new(&data);
    assert_eq!(r.read_bl().unwrap(), 0xAB);
    let data = [0b1100_0000u8];
    let mut r = BitReader::new(&data);
    assert_eq!(r.read_bl().unwrap(), 0);
}

#[test]
fn read_bd_one_and_zero() {
    let data = [0b0110_0000u8];
    let mut r = BitReader::new(&data);
    assert_eq!(r.read_bd().unwrap(), ONE_BITS);
    assert_eq!(f64::from_bits(ONE_BITS), 1.0);
    assert_eq!(r.read_bd().unwrap(), 0);
}

#[test]
fn read_dd_selector_zero_keeps_default() {
    let default = 12.5f64.to_bits();
    let data = [0x00u8];
    let mut r = BitReader::new(&data);
    assert_eq!(r.read_dd(default).unwrap(), default);
    assert_eq!(r.tell_bits(), 2);
}

#[test]
fn read_dd_between_aligned_reads_keeps_default() {
    let default = 100.0f64.to_bits();
    let data = [0x7Fu8, 0x00, 0x00, 0x33];
    let mut r = BitReader::new(&data);
    assert_eq!(r.read_rc().unwrap(), 0x7F);
    assert_eq!(f64::from_bits(r.read_dd(default).unwrap()), 100.0);
    r.align_byte();
    assert_eq!(r.read_rc().unwrap(), 0x00);
    assert_eq!(f64::from_bits(r.read_dd(default).unwrap()), 100.0);
}

#[test]
fn read_dd_selector_one_replaces_low_four_bytes() {
    let default: u64 = 0x1122_3344_5566_7788;
    let data = [0x40u8, 0x40, 0x80, 0xC1, 0x00];
    let mut r = BitReader::new(&data);
    assert_eq!(r.read_dd(default).unwrap(), 0x1122_3344_0403_0201);
}

#[test]
fn read_bt_and_be_defaults() {
    let data = [0b1100_0000u8];
    let mut r = BitReader::new(&data);
    assert_eq!(r.read_bt().unwrap(), 0);
    assert_eq!(r.read_be().unwrap(), (0, 0, ONE_BITS));
}

#[test]
fn read_bits_more_than_64_is_decode_error() {
    let data = [0u8; 16];
    let mut r = BitReader::new(&data);
    assert_eq!(r.read_bits_msb(65).unwrap_err().kind, ErrorKind::Decode);
    assert_eq!(r.read_bits_msb(3).unwrap(), 0);
}

#[test]
fn read_bll_big_endian_bytes() {
    let data = [0b0100_0000u8, 0b0010_0000, 0b0100_0000];
    let mut r = BitReader::new(&data);
    assert_eq!(r.read_bll().unwrap(), 0x0102);
}

#[test]
fn modular_char_values() {
    let data = [0x05u8];
    let mut r = BitReader::new(&data);
    assert_eq!(r.read_mc().unwrap(), 5);
    let data = [0x45u8];
    let mut r = BitReader::new(&data);
    assert_eq!(read_modular_int(&mut r).unwrap(), -5);
    let data = [0x81u8, 0x01];
    let mut r = BitReader::new(&data);
    assert_eq!(r.read_mc().unwrap(), 129);
    let data = [0x81u8, 0x41];
    let mut r = BitReader::new(&data);
    assert_eq!(r.read_mc().unwrap(), -129);
}

#[test]
fn modular_short_and_unsigned_char() {
    let data = [0x05u8, 0x00];
    let mut r = BitReader::new(&data);
    assert_eq!(r.read_ms().unwrap(), 5);
    let data = [0x01u8, 0x80, 0x02, 0x00];
    let mut r = BitReader::new(&data);
    assert_eq!(r.read_ms().unwrap(), 65537);
    let data = [0x85u8, 0x01];
    let mut r = BitReader::new(&data);
    assert_eq!(r.read_umc().unwrap(), 133);
}

#[test]
fn object_type_r2010_selectors() {
    let data = [0x04u8, 0xC0];
    let mut r = BitReader::new(&data);
    assert_eq!(r.read_ot_r2010().unwrap(), 0x13);
    let data = [0b0100_0000u8, 0b0100_0000];
    let mut r = BitReader::new(&data);
    assert_eq!(r.read_ot_r2010().unwrap(), 0x01F1);
}

#[test]
fn handle_reference_fields() {
    let data = [0x41u8, 0x12];
    let mut r = BitReader::new(&data);
    let h = r.read_h().unwrap();
    assert_eq!((h.code, h.counter, h.value), (4, 1, 0x12));
    let data = [0x52u8, 0x01, 0x02];
    let mut r = BitReader::new(&data);
    assert_eq!(read_handle_ref(&mut r).unwrap(), (5, 0x0102));
}

#[test]
fn handle_counter_above_four_is_format_error() {
    let data = [0x05u8, 0, 0, 0, 0, 0];
    let mut r = BitReader::new(&data);
    assert_eq!(r.read_h().unwrap_err().kind, ErrorKind::Format);
}

#[test]
fn text_drops_nul_and_masks_high_bytes() {
    let data = [0x40u8, 0xD0, 0x40, 0x20, 0x00];
    let mut r = BitReader::new(&data);
    assert_eq!(r.read_tv().unwrap(), "A*");
}

#[test]
fn crc_aligns_first() {
    let data = [0xFFu8, 0x34, 0x12];
    let mut r = BitReader::new(&data);
    r.read_b().unwrap();
    assert_eq!(r.read_crc().unwrap(), 0x1234);
}

#[test]
fn positions_and_alignment() {
    let data = [0u8; 8];
    let mut r = BitReader::new(&data);
    r.set_bit_pos(13);
    assert_eq!(r.get_pos(), (1, 5));
    r.align_byte();
    assert_eq!(r.tell_bits(), 16);
    r.set_pos(3, 9);
    assert_eq!(r.get_pos(), (3, 7));
    assert_eq!(r.read_rcs(2).unwrap().len(), 2);
    assert!(r.read_rcs(10).is_err());
}
