use ezdwg::byte_reader::ByteReader;
use ezdwg::error::{DwgError, ErrorKind, ParseConfig};
use ezdwg::r2004::{decompress_r18, magic_sequence, read_header_data};
use ezdwg::r2007::{align_up, decode_reed_solomon, decompress_r21, div_ceil};
use ezdwg::section_directory::{parse, parse_with_config, SectionKind, SectionLocatorRecord};
use ezdwg::section_loader::{load_all_sections, load_section};
use ezdwg::stream_view::StreamView;
use ezdwg::version::{detect_version, DwgVersion};

const SENTINEL: [u8; 16] = [
    0x95, 0xA0, 0x4E, 0x28, 0x99, 0x82, 0x1A, 0xE5, 0x5E, 0x41, 0xE0, 0x5F, 0x9D, 0x3A, 0x4D, 0x00,
];

fn directory_file(count: u32, records: &[(u8, u32, u32)], sentinel: &[u8; 16]) -> Vec<u8> {
    let mut v = b"AC1015".to_vec();
    v.resize(0x15, 0);
    v.extend_from_slice(&count.to_le_bytes());
    for (n, off, size) in records {
        v.push(*n);
        v.extend_from_slice(&off.to_le_bytes());
        v.extend_from_slice(&size.to_le_bytes());
    }
    v.extend_from_slice(&[0xAA, 0xBB]);
    v.extend_from_slice(sentinel);
    v
}

#[test]
fn detects_the_five_dialects() {
    assert_eq!(detect_version(b"AC1015xx").unwrap(), DwgVersion::R2000);
    assert_eq!(detect_version(b"AC1018").unwrap(), DwgVersion::R2004);
    assert_eq!(detect_version(b"AC1021").unwrap(), DwgVersion::R2007);
    assert_eq!(detect_version(b"AC1024").unwrap(), DwgVersion::R2010);
    assert_eq!(detect_version(b"AC1027").unwrap(), DwgVersion::R2013);
    assert_eq!(DwgVersion::R2007.as_str(), "AC1021");
    assert!(DwgVersion::R2013.is_supported());
}

#[test]
fn unknown_tag_is_unknown_and_short_input_fails() {
    let v = detect_version(b"AC1009....").unwrap();
    assert_eq!(v, DwgVersion::Unknown("AC1009".to_string()));
    assert!(!v.is_supported());
    assert_eq!(v.as_str(), "AC1009");
    assert_eq!(detect_version(b"AC10").unwrap_err().kind, ErrorKind::Format);
}

#[test]
fn parses_section_directory() {
    let bytes = directory_file(2, &[(2, 0x40, 0x10), (1, 0x50, 0x08)], &SENTINEL);
    let dir = parse(&bytes).unwrap();
    assert_eq!(dir.record_count, 2);
    assert_eq!(dir.records[0], SectionLocatorRecord { record_no: 2, offset: 0x40, size: 0x10 });
    assert_eq!(dir.records[1].kind(), SectionKind::Classes);
    assert_eq!(dir.crc, 0xBBAA);
    assert!(dir.sentinel_ok);
}

#[test]
fn directory_count_above_64_is_format_error() {
    let bytes = directory_file(65, &[], &SENTINEL);
    assert_eq!(parse(&bytes).unwrap_err().kind, ErrorKind::Format);
}

#[test]
fn directory_truncated_is_io_error_and_tiny_file_is_format_error() {
    let mut bytes = directory_file(1, &[(0, 1, 2)], &SENTINEL);
    bytes.truncate(bytes.len() - 3);
    assert_eq!(parse(&bytes).unwrap_err().kind, ErrorKind::Io);
    assert_eq!(parse(b"AC1015").unwrap_err().kind, ErrorKind::Format);
}

#[test]
fn wrong_sentinel_fails_only_in_strict_mode() {
    let bytes = directory_file(0, &[], &[0u8; 16]);
    let dir = parse(&bytes).unwrap();
    assert!(!dir.sentinel_ok);
    let strict = ParseConfig { strict: true, ..ParseConfig::default() };
    assert_eq!(parse_with_config(&bytes, &strict).unwrap_err().kind, ErrorKind::Format);
}

#[test]
fn section_kind_labels() {
    assert_eq!(SectionKind::from_record_no(0), SectionKind::HeaderVariables);
    assert_eq!(SectionKind::from_record_no(4).label(), "Measurement");
    assert_eq!(SectionKind::from_record_no(9), SectionKind::Unknown(9));
    assert_eq!(SectionKind::Unknown(9).label(), "Unknown");
}

#[test]
fn loads_sections_with_bounds() {
    let bytes: Vec<u8> = (0u8..32).collect();
    let config = ParseConfig::default();
    let rec = SectionLocatorRecord { record_no: 2, offset: 4, size: 3 };
    let s = load_section(&bytes, rec, &config).unwrap();
    assert_eq!(s.data, &[4u8, 5, 6]);
    let view = StreamView::new(s);
    assert_eq!(view.offset(), 4);
    assert_eq!(view.size(), 3);
    assert_eq!(view.as_bytes(), &[4u8, 5, 6]);
    let mut br = view.byte_reader();
    assert_eq!(br.read_u8().unwrap(), 4);
    let too_far = SectionLocatorRecord { record_no: 2, offset: 30, size: 3 };
    assert_eq!(load_section(&bytes, too_far, &config).unwrap_err().kind, ErrorKind::Format);
    let small = ParseConfig { max_section_bytes: 2, ..ParseConfig::default() };
    assert_eq!(load_section(&bytes, rec, &small).unwrap_err().kind, ErrorKind::Format);
    let dir_bytes = directory_file(1, &[(2, 0, 4)], &SENTINEL);
    let dir = parse(&dir_bytes).unwrap();
    let all = load_all_sections(&dir_bytes, &dir, &config).unwrap();
    assert_eq!(all[0].data, b"AC10");
}

#[test]
fn default_config_limits() {
    let c = ParseConfig::default();
    assert!(!c.strict);
    assert_eq!(c.max_objects, 1_000_000);
    assert_eq!(c.max_section_bytes, 256 * 1024 * 1024);
}

#[test]
fn error_constructors() {
    let e = DwgError::new(ErrorKind::Resolve, "x").with_offset(7);
    assert_eq!(e.kind, ErrorKind::Resolve);
    assert_eq!(e.message, "x");
    assert_eq!(e.offset, Some(7));
    assert_eq!(DwgError::not_implemented("y").kind, ErrorKind::NotImplemented);
    assert_eq!(ErrorKind::NotImplemented.label(), "not_implemented");
}

#[test]
fn byte_reader_reads_and_bounds() {
    let data = [0x01u8, 0x02, 0x03, 0x04, 0xFF, 0xFF, 0xFF, 0xFF];
    let mut r = ByteReader::new(&data);
    assert_eq!(r.len(), 8);
    assert!(!r.is_empty());
    assert_eq!(r.read_u16_le().unwrap(), 0x0201);
    assert_eq!(r.remaining(), 6);
    assert_eq!(r.peek_bytes(2).unwrap(), &[3u8, 4]);
    r.skip(2).unwrap();
    assert_eq!(r.read_i32_le().unwrap(), -1);
    assert_eq!(r.read_u8().unwrap_err().kind, ErrorKind::Io);
    r.seek(0).unwrap();
    assert_eq!(r.read_u32_le().unwrap(), 0x0403_0201);
    assert_eq!(r.read_i8().unwrap(), -1);
    assert!(r.seek(9).is_err());
    assert_eq!(r.tell(), 5);
}

#[test]
fn r18_literal_then_end_marker() {
    let src = [0x01u8, 10, 20, 30, 40, 0x11, 99, 99];
    assert_eq!(decompress_r18(&src, 4).unwrap(), vec![10, 20, 30, 40]);
    assert_eq!(decompress_r18(&src, 6).unwrap(), vec![10, 20, 30, 40, 0, 0]);
}

#[test]
fn r18_back_reference() {
    let src = [0x01u8, 1, 2, 3, 4, 0x21, 0x0C, 0x00, 0x11];
    assert_eq!(decompress_r18(&src, 7).unwrap(), vec![1, 2, 3, 4, 1, 2, 3]);
    assert!(decompress_r18(&[], 4).is_err());
}

#[test]
fn r2004_header_mask() {
    let m = magic_sequence();
    assert_eq!(m.len(), 0x6c);
    assert_eq!(&m[..4], &[0x29, 0x23, 0xBE, 0x84]);
    let bytes = vec![0u8; 0x80 + 0x6c];
    let h = read_header_data(&bytes).unwrap();
    assert_eq!(h.section_page_map_id, 0xF214_4FAD);
    assert_eq!(h.section_page_map_address, 0xB730_C46B_D066_4044);
    assert_eq!(h.section_map_id, 0x22A1_3B32);
    assert_eq!(read_header_data(&bytes[..0x80]).unwrap_err().kind, ErrorKind::Format);
}

#[test]
fn reed_solomon_method_four_round_trip() {
    let data = [1u8, 2, 3, 4, 5, 6];
    let laid = [1u8, 3, 5, 2, 4, 6];
    assert_eq!(decode_reed_solomon(&laid, 2, 3, 4).unwrap(), data.to_vec());
    assert_eq!(decode_reed_solomon(&laid, 2, 3, 1).unwrap(), laid.to_vec());
    assert_eq!(decode_reed_solomon(&laid, 2, 3, 2).unwrap_err().kind, ErrorKind::NotImplemented);
    assert_eq!(decode_reed_solomon(&laid[..4], 2, 3, 4).unwrap_err().kind, ErrorKind::Decode);
    assert!(decode_reed_solomon(&laid, 0, 3, 4).unwrap().is_empty());
}

#[test]
fn r21_literal_run() {
    let src = [0x00u8, 1, 2, 3, 4, 5, 6, 7, 8];
    assert_eq!(decompress_r21(&src, 8).unwrap(), vec![1, 2, 3, 4, 5, 6, 7, 8]);
    assert_eq!(decompress_r21(&[], 4).unwrap_err().kind, ErrorKind::Decode);
    assert!(decompress_r21(&[], 0).unwrap().is_empty());
}

#[test]
fn alignment_helpers() {
    assert_eq!(align_up(10, 8).unwrap(), 16);
    assert_eq!(align_up(16, 8).unwrap(), 16);
    assert!(align_up(1, 0).is_err());
    assert_eq!(div_ceil(10, 8), 2);
    assert_eq!(div_ceil(0, 8), 0);
    assert_eq!(div_ceil(239 * 3, 239), 3);
}

#[test]
fn r18_literal_run_ignores_bytes_after_end() {
    let src = [0x05u8, 1, 2, 3, 4, 5, 6, 7, 8, 0x11];
    assert_eq!(decompress_r18(&src, 8).unwrap(), vec![1, 2, 3, 4, 5, 6, 7, 8]);
    let trailing = [0x05u8, 1, 2, 3, 4, 5, 6, 7, 8, 0x11, 0xAA, 0xBB];
    assert_eq!(decompress_r18(&trailing, 8).unwrap(), vec![1, 2, 3, 4, 5, 6, 7, 8]);
}

#[test]
fn r18_overlapping_and_distant_back_references() {
    let overlap = [0x01u8, 1, 2, 3, 4, 0x50, 0x00, 0x11];
    assert_eq!(decompress_r18(&overlap, 8).unwrap(), vec![1, 2, 3, 4, 4, 4, 4, 4]);
    let distant = [0x01u8, 1, 2, 3, 4, 0x50, 0x10, 0x11];
    assert_eq!(decompress_r18(&distant, 8).unwrap(), vec![1, 2, 3, 4, 0, 0, 0, 0]);
}

#[test]
fn directory_parse_error_kinds() {
    let mut b = [0u8; 0x19];
    b[0x15] = 0x41;
    assert_eq!(parse(&b).unwrap_err().kind, ErrorKind::Format);
}

#[test]
fn r21_literal_run_uses_fixed_piece_order() {
    let src = [0x01u8, 1, 2, 3, 4, 5, 6, 7, 8, 9];
    assert_eq!(decompress_r21(&src, 9).unwrap(), vec![9, 1, 2, 3, 4, 5, 6, 7, 8]);
}
