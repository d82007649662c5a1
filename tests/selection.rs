use ezdwg::dimension::{dim_linear_variants, field_penalty, select_lowest, DimensionCommonData};

fn common(attachment: Option<u16>, spacing: Option<u16>, flags: u8) -> DimensionCommonData {
    DimensionCommonData {
        handle: 1,
        layer_handle: 2,
        extrusion: (0, 0, 0),
        text_midpoint: (0, 0, 0),
        elevation: 0,
        dim_flags: flags,
        user_text: String::new(),
        text_rotation: 0,
        horizontal_direction: 0,
        insert_scale: (0, 0, 0),
        insert_rotation: 0,
        attachment_point: attachment,
        line_spacing_style: spacing,
        line_spacing_factor: None,
        actual_measurement: None,
        insert_point: None,
        dimstyle_handle: None,
        anonymous_block_handle: None,
    }
}

#[test]
fn lowest_score_wins_first_on_ties() {
    assert_eq!(select_lowest(&vec![Some(5), None, Some(3), Some(3)]), Some(2));
    assert_eq!(select_lowest(&vec![None, None]), None);
    assert_eq!(select_lowest(&vec![]), None);
    assert_eq!(select_lowest(&vec![Some(0)]), Some(0));
}

#[test]
fn integer_field_penalties() {
    assert_eq!(field_penalty(&common(Some(5), Some(1), 0x10)), 0);
    assert_eq!(field_penalty(&common(Some(10), None, 0)), 10_000);
    assert_eq!(field_penalty(&common(None, Some(3), 0x40)), 11_000);
}

#[test]
fn twelve_layouts_in_two_halves() {
    let v = dim_linear_variants();
    assert_eq!(v.len(), 12);
    assert!(v[0].has_attachment && v[0].has_flip_arrow2 && v[0].style_before_common);
    assert!(!v[5].has_attachment && !v[5].has_point12);
    assert!(!v[11].style_before_common);
}
