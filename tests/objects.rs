use ezdwg::api::list_object_headers_by_type;
use ezdwg::bit_reader::BitReader;
use ezdwg::common::{read_entity_handles, read_handle_reference, CommonEntityHeader};
use ezdwg::decoder::Decoder;
use ezdwg::error::{ErrorKind, ParseConfig};
use ezdwg::object_header_r2000::parse_at;
use ezdwg::object_map::parse_object_map;
use ezdwg::object_record::parse_object_record;
use ezdwg::object_type::{object_type_class, object_type_info, object_type_name, ObjectClass};
use ezdwg::objects::{Handle, ObjectIndex, ObjectRef};
use ezdwg::polyline::{PolylineCurveType, PolylineFlagsInfo};

#[test]
fn object_map_accumulates_deltas() {
    let map = [0x00u8, 0x06, 0x01, 0x0A, 0x01, 0x14, 0x12, 0x34, 0x00, 0x02];
    let idx = parse_object_map(&map, 1000).unwrap();
    assert_eq!(idx.len(), 2);
    assert_eq!(idx.objects[0], ObjectRef { handle: Handle(1), offset: 10 });
    assert_eq!(idx.objects[1], ObjectRef { handle: Handle(2), offset: 30 });
}

#[test]
fn object_map_terminator_ignores_trailing_bytes() {
    let map = [0x00u8, 0x04, 0x01, 0x0A, 0x00, 0x00, 0x00, 0x02, 0xFF, 0x00, 0x01];
    let idx = parse_object_map(&map, 1000).unwrap();
    assert_eq!(idx.objects, vec![ObjectRef { handle: Handle(1), offset: 10 }]);
    let only_end = [0x00u8, 0x02, 0x7F, 0x7F, 0x7F];
    assert!(parse_object_map(&only_end, 1000).unwrap().is_empty());
}

#[test]
fn object_map_rejects_negative_totals_and_bad_sizes() {
    let negative = [0x00u8, 0x04, 0x41, 0x01, 0x00, 0x00];
    assert_eq!(parse_object_map(&negative, 1000).unwrap_err().kind, ErrorKind::Format);
    let tiny = [0x00u8, 0x01];
    assert_eq!(parse_object_map(&tiny, 1000).unwrap_err().kind, ErrorKind::Format);
    let past = [0x00u8, 0x10, 0x01];
    assert_eq!(parse_object_map(&past, 1000).unwrap_err().kind, ErrorKind::Format);
    let limited = [0x00u8, 0x06, 0x01, 0x0A, 0x01, 0x14, 0x00, 0x00];
    assert_eq!(parse_object_map(&limited, 1).unwrap_err().kind, ErrorKind::Format);
}

#[test]
fn object_map_negative_delta_inside_block() {
    let map = [0x00u8, 0x06, 0x05, 0x10, 0x41, 0x01, 0x00, 0x00];
    let idx = parse_object_map(&map, 10).unwrap();
    assert_eq!(idx.objects[1], ObjectRef { handle: Handle(4), offset: 17 });
}

#[test]
fn object_index_lookup_takes_last_duplicate() {
    let idx = ObjectIndex::from_objects(vec![
        ObjectRef { handle: Handle(5), offset: 1 },
        ObjectRef { handle: Handle(6), offset: 2 },
        ObjectRef { handle: Handle(5), offset: 3 },
    ]);
    assert_eq!(idx.get(Handle(5)).unwrap().offset, 3);
    assert!(idx.get(Handle(7)).is_none());
}

#[test]
fn object_record_fits_in_data() {
    let data = [0x03u8, 0x00, 0x44, 0xC0, 0x00, 0xAA, 0xBB];
    let rec = parse_object_record(&data, 0).unwrap();
    assert_eq!(rec.size, 3);
    assert_eq!((rec.body_start, rec.body_bit_pos), (2, 0));
    assert!(rec.offset as usize + rec.size as usize + 2 <= data.len());
    assert_eq!(rec.body, &[0x44u8, 0xC0, 0x00]);
    assert_eq!(rec.record_range(), (0, 7));
    assert_eq!(parse_object_record(&data[..6], 0).unwrap_err().kind, ErrorKind::Format);
    assert_eq!(parse_object_record(&data, 9).unwrap_err().kind, ErrorKind::Format);
    let zero = [0x00u8, 0x00, 0x00, 0x00];
    assert_eq!(parse_object_record(&zero, 0).unwrap_err().kind, ErrorKind::Format);
}

#[test]
fn object_header_reads_type_code() {
    let data = [0x03u8, 0x00, 0x44, 0xC0, 0x00, 0xAA, 0xBB];
    let h = parse_at(&data, 0).unwrap();
    assert_eq!(h.type_code, 0x13);
    assert_eq!(h.data_size, 3);
    assert_eq!(h.total_size(), 7);
    assert_eq!(h.data_range(), (2, 5));
    assert_eq!(object_type_name(h.type_code), "LINE");
}

#[test]
fn object_type_table() {
    let info = object_type_info(0x4D);
    assert_eq!(info.name, "LWPOLYLINE");
    assert_eq!(info.class, ObjectClass::Entity);
    assert_eq!(object_type_class(0x52), ObjectClass::Object);
    assert_eq!(object_type_class(0x52).as_str(), "O");
    assert_eq!(object_type_name(0x99), "UNKNOWN(0x99)");
    assert_eq!(object_type_name(0x1234), "UNKNOWN(0x1234)");
    assert_eq!(object_type_name(0x1F0), "UNKNOWN(0x1F0)");
    assert_eq!(object_type_info(0x0F).name, "POLYLINE_2D");
}

#[test]
fn handle_references_resolve_against_base() {
    let cases: [(u8, u64); 6] = [(0x60, 11), (0x80, 9), (0xA1, 15), (0xC1, 5), (0x31, 5), (0x51, 5)];
    for (byte, expected) in cases {
        let data = [byte, 0x05];
        let mut r = BitReader::new(&data);
        assert_eq!(read_handle_reference(&mut r, 10).unwrap(), expected);
    }
    let data = [0x60u8];
    let mut r = BitReader::new(&data);
    assert_eq!(read_handle_reference(&mut r, u64::MAX).unwrap(), u64::MAX);
}

#[test]
fn handle_stream_starts_at_obj_size() {
    let header = CommonEntityHeader {
        obj_size: 8,
        handle: 10,
        entity_mode: 1,
        num_of_reactors: 0,
        xdic_missing_flag: 1,
        ltype_flags: 0,
        plotstyle_flags: 0,
    };
    let data = [0xFFu8, 0x60];
    let mut r = BitReader::new(&data);
    let handles = read_entity_handles(&mut r, &header).unwrap();
    assert_eq!(handles.layer, 11);
    assert!(handles.owner_ref.is_none());
    assert!(r.tell_bits() >= 8 && r.tell_bits() <= 16);
}

#[test]
fn polyline_flags_and_curve_types() {
    let f = PolylineFlagsInfo::from_flags(0x81);
    assert!(f.closed && f.continuous_linetype && !f.curve_fit && !f.is_3d_mesh);
    assert_eq!(PolylineCurveType::from_code(5), PolylineCurveType::QuadraticBSpline);
    assert_eq!(PolylineCurveType::from_code(0).label(), "None");
    assert_eq!(PolylineCurveType::from_code(7), PolylineCurveType::Unknown(7));
    assert_eq!(PolylineCurveType::from_code(7).label(), "Unknown");
}

#[test]
fn unknown_dialect_is_unsupported() {
    let bytes = b"AC1009 some data";
    let d = Decoder::new(bytes, ParseConfig::default()).unwrap();
    assert_eq!(d.ensure_supported().unwrap_err().kind, ErrorKind::Unsupported);
    assert_eq!(d.build_object_index().unwrap_err().kind, ErrorKind::Unsupported);
    assert_eq!(d.section_directory().unwrap_err().kind, ErrorKind::Unsupported);
    let ok = Decoder::new(b"AC1015 rest", ParseConfig::default()).unwrap();
    assert!(ok.ensure_supported().is_ok());
    assert!(ok.dynamic_type_map().unwrap().is_empty());
    assert!(Decoder::new(b"AC1", ParseConfig::default()).is_err());
}

#[test]
fn empty_type_filter_reads_nothing() {
    let rows = list_object_headers_by_type(b"not a drawing", &vec![], None).unwrap();
    assert!(rows.is_empty());
    assert!(list_object_headers_by_type(b"not a drawing", &vec![0x13], None).is_err());
}
