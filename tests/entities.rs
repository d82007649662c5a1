use ezdwg::bit_reader::BitReader;
use ezdwg::common::parse_common_entity_header;
use ezdwg::entities::{decode_circle, decode_line, decode_lwpolyline, lwpolyline_vertex_widths};
use ezdwg::polyline::{decode_seqend, polyline_vertex_plan};

const LINE: [u8; 43] = [
    0x00, 0x00, 0x00, 0x00, 0x01, 0x2A, 0x95, 0x90, 0x80, 0x20, 0x00, 0x00, 0x00, 0x00, 0x00, 0x09,
    0x28, 0x18, 0x00, 0x00, 0x00, 0x00, 0x00, 0x02, 0xCA, 0x00, 0x00, 0x00, 0x00, 0x00, 0x00, 0x02,
    0x4A, 0x06, 0x00, 0x00, 0x00, 0x00, 0x00, 0x00, 0xB2, 0x81, 0x80,
];

const CIRCLE: [u8; 37] = [
    0x14, 0x01, 0x00, 0x00, 0x01, 0x2B, 0x95, 0x90, 0x80, 0x00, 0x00, 0x00, 0x00, 0x00, 0x00, 0x05,
    0x94, 0x00, 0x00, 0x00, 0x00, 0x00, 0x00, 0x01, 0x65, 0x02, 0x00, 0x00, 0x00, 0x00, 0x00, 0x00,
    0x12, 0x50, 0x35, 0x11, 0x00,
];

const LWPOLYLINE: [u8; 69] = [
    0x00, 0x00, 0x00, 0x00, 0x01, 0x2C, 0x95, 0x90, 0x80, 0x10, 0x40, 0x00, 0x00, 0x00, 0x00, 0x00,
    0x00, 0x01, 0x01, 0x03, 0x00, 0x00, 0x00, 0x00, 0x00, 0x00, 0x49, 0x40, 0x00, 0x00, 0x00, 0x00,
    0x00, 0x00, 0x49, 0x40, 0xC0, 0x00, 0x00, 0x00, 0x00, 0x00, 0x16, 0x50, 0x30, 0x00, 0x00, 0x00,
    0x00, 0x00, 0x05, 0x94, 0x0C, 0x00, 0x00, 0x00, 0x00, 0x03, 0x01, 0x89, 0x03, 0x00, 0x00, 0x00,
    0x00, 0x00, 0x00, 0x49, 0x40,
];

fn f3(v: (u64, u64, u64)) -> (f64, f64, f64) {
    (f64::from_bits(v.0), f64::from_bits(v.1), f64::from_bits(v.2))
}

#[test]
fn common_preamble_fields() {
    let mut r = BitReader::new(&LINE);
    let h = parse_common_entity_header(&mut r).unwrap();
    assert_eq!(h.handle, 0x2A);
    assert_eq!(h.entity_mode, 2);
    assert_eq!(h.num_of_reactors, 0);
    assert_eq!(h.xdic_missing_flag, 1);
    assert_eq!((h.ltype_flags, h.plotstyle_flags), (0, 0));
    let mut r = BitReader::new(&LINE);
    assert_eq!(decode_seqend(&mut r).unwrap().handle, 0x2A);
}

#[test]
fn single_line_geometry() {
    let mut r = BitReader::new(&LINE);
    let line = decode_line(&mut r).unwrap();
    assert_eq!(line.handle, 0x2A);
    let s = f3(line.start);
    let e = f3(line.end);
    assert!((s.0 - 50.0).abs() < 1e-9 && (s.1 - 50.0).abs() < 1e-9 && s.2 == 0.0);
    assert!((e.0 - 100.0).abs() < 1e-9 && (e.1 - 100.0).abs() < 1e-9 && e.2 == 0.0);
}

#[test]
fn single_circle_geometry_and_layer() {
    let mut r = BitReader::new(&CIRCLE);
    let c = decode_circle(&mut r).unwrap();
    assert_eq!(c.handle, 0x2B);
    assert_eq!(f3(c.center), (100.0, 100.0, 0.0));
    assert!((f64::from_bits(c.radius) - 50.0).abs() < 1e-9);
    assert_eq!(c.layer_handle, 0x10);
}

#[test]
fn lwpolyline_vertices_and_constant_width() {
    let mut r = BitReader::new(&LWPOLYLINE);
    let p = decode_lwpolyline(&mut r).unwrap();
    let pts: Vec<(f64, f64)> =
        p.vertices.iter().map(|v| (f64::from_bits(v.0), f64::from_bits(v.1))).collect();
    assert_eq!(pts, vec![(50.0, 50.0), (100.0, 100.0), (150.0, 50.0)]);
    assert_eq!(p.flags & 0x04, 0x04);
    let widths = lwpolyline_vertex_widths(&p);
    assert_eq!(widths.len(), 3);
    for w in widths {
        assert_eq!((f64::from_bits(w.0), f64::from_bits(w.1)), (2.0, 2.0));
    }
}

#[test]
fn truncated_entity_fails() {
    let mut r = BitReader::new(&LINE[..20]);
    assert!(decode_line(&mut r).is_err());
}

const MTEXT_R2004: [u8; 58] = [
    0xB9, 0x01, 0x00, 0x00, 0x01, 0x2D, 0x95, 0x90, 0x80, 0x00, 0x00, 0x00, 0x00, 0x00, 0x00, 0x04,
    0x94, 0x00, 0x00, 0x00, 0x00, 0x00, 0x00, 0x01, 0x25, 0x02, 0xA5, 0xA0, 0x00, 0x00, 0x00, 0x00,
    0x00, 0x01, 0x65, 0x00, 0x00, 0x00, 0x00, 0x00, 0x00, 0x00, 0x14, 0x40, 0x40, 0x50, 0x1A, 0x41,
    0x52, 0x19, 0x5B, 0x1B, 0x1B, 0xD0, 0x15, 0x28, 0x88, 0x00,
];

#[test]
fn mtext_text_insertion_and_sizes() {
    let mut r = BitReader::new(&MTEXT_R2004);
    let m = ezdwg::entities::decode_mtext_r2004(&mut r).unwrap();
    assert!(m.text.contains("Hello"));
    let ins = f3(m.insertion);
    assert_eq!((ins.0, ins.1), (50.0, 50.0));
    assert!((f64::from_bits(m.text_height) - 5.0).abs() < 1e-9);
    assert!((f64::from_bits(m.rect_width) - 100.0).abs() < 1e-9);
    assert_eq!(m.background_flags, 0);
    assert_eq!(m.layer_handle, 0x10);
}

#[test]
fn polyline_vertices_follow_or_are_owned() {
    let types = vec![0x0Fu16, 0x0A, 0x0A, 0x06, 0x13];
    let handles = vec![1u64, 2, 3, 4, 5];
    let (contiguous, next) = polyline_vertex_plan(&vec![], &types, &handles, 0);
    assert_eq!(contiguous, vec![1, 2]);
    assert_eq!(next, 4);
    let (owned, next) = polyline_vertex_plan(&vec![3, 2], &types, &handles, 0);
    assert_eq!(owned, vec![2, 1]);
    assert_eq!(next, 1);
    let (none, next) = polyline_vertex_plan(&vec![], &vec![0x0Fu16, 0x13], &vec![1u64, 2], 0);
    assert!(none.is_empty());
    assert_eq!(next, 1);
}

const ELLIPSE: [u8; 63] = [
    0xE2, 0x01, 0x00, 0x00, 0x01, 0x2E, 0x95, 0x90, 0x80, 0x00, 0x00, 0x00, 0x00, 0x00, 0x00, 0x05,
    0x94, 0x00, 0x00, 0x00, 0x00, 0x00, 0x00, 0x01, 0x65, 0x02, 0x00, 0x00, 0x00, 0x00, 0x00, 0x00,
    0x12, 0x70, 0x00, 0x00, 0x00, 0x00, 0x00, 0x00, 0x04, 0x9C, 0x0A, 0x92, 0x48, 0x53, 0xFD, 0xE8,
    0x90, 0x9F, 0x6C, 0xFE, 0x06, 0x0B, 0x51, 0x15, 0x3E, 0xC8, 0x46, 0x50, 0x14, 0x44, 0x00,
];

const ARC: [u8; 43] = [
    0x00, 0x00, 0x00, 0x00, 0x01, 0x2F, 0x95, 0x90, 0x80, 0x00, 0x00, 0x00, 0x00, 0x00, 0x0C, 0x05,
    0x24, 0x00, 0x00, 0x00, 0x00, 0x00, 0x00, 0x01, 0x25, 0x02, 0x00, 0x00, 0x00, 0x00, 0x00, 0x00,
    0x0E, 0x50, 0x38, 0x18, 0x2D, 0x44, 0x54, 0xFB, 0x21, 0x09, 0x40,
];

#[test]
fn single_ellipse_geometry() {
    let mut r = BitReader::new(&ELLIPSE);
    let e = ezdwg::entities::decode_ellipse(&mut r).unwrap();
    assert_eq!(f3(e.center), (100.0, 100.0, 0.0));
    assert_eq!(f3(e.major_axis), (-50.0, -50.0, 0.0));
    assert!((f64::from_bits(e.axis_ratio) - 0.4242640687119287).abs() < 1e-12);
    assert_eq!(e.layer_handle, 0x10);
}

#[test]
fn single_arc_geometry() {
    let mut r = BitReader::new(&ARC);
    let a = ezdwg::entities::decode_arc(&mut r).unwrap();
    assert_eq!(f3(a.center), (75.0, 50.0, 0.0));
    assert!((f64::from_bits(a.radius) - 25.0).abs() < 1e-9);
    assert_eq!(f64::from_bits(a.angle_start), 0.0);
    assert!((f64::from_bits(a.angle_end) - std::f64::consts::PI).abs() < 1e-9);
}

const CIRCLE_R2007: [u8; 38] = [
    0x1E, 0x01, 0x00, 0x00, 0x01, 0x30, 0x95, 0x90, 0x00, 0x20, 0x00, 0x00, 0x00, 0x00, 0x00, 0x00,
    0x01, 0x65, 0x00, 0x00, 0x00, 0x00, 0x00, 0x00, 0x00, 0x59, 0x40, 0x80, 0x00, 0x00, 0x00, 0x00,
    0x00, 0x04, 0x94, 0x0D, 0x44, 0x40,
];

const CIRCLE_R2010: [u8; 35] = [
    0x01, 0x31, 0x95, 0x90, 0x00, 0x04, 0x00, 0x00, 0x00, 0x00, 0x00, 0x00, 0x00, 0x2C, 0xA0, 0x00,
    0x00, 0x00, 0x00, 0x00, 0x00, 0x0B, 0x28, 0x10, 0x00, 0x00, 0x00, 0x00, 0x00, 0x00, 0x92, 0x81,
    0xA8, 0x88, 0x80,
];

#[test]
fn circle_in_later_layouts() {
    let mut r = BitReader::new(&CIRCLE_R2007);
    let c = ezdwg::entities::decode_circle_r2007(&mut r).unwrap();
    assert_eq!(c.handle, 0x30);
    assert_eq!(f3(c.center), (100.0, 100.0, 0.0));
    assert_eq!(f64::from_bits(c.radius), 50.0);
    assert_eq!(c.layer_handle, 0x10);
    let mut r = BitReader::new(&CIRCLE_R2010);
    let c = ezdwg::entities::decode_circle_r2010(&mut r, 257).unwrap();
    assert_eq!(c.handle, 0x31);
    assert_eq!(f64::from_bits(c.radius), 50.0);
    assert_eq!(c.layer_handle, 0x11);
}
