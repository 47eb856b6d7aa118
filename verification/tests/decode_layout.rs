use raw_processor::dcp::Illuminant;
use raw_processor::decode::{
    decode_frame, effective_black_levels, format_cfa_pattern, layout_from, load_bundled_dcp,
    parse_cfa_pattern_with_offset, sensor_site, SensorSite,
};
use raw_processor::raw::RawFrameInfo;

fn info(crops: [usize; 4], black: [u16; 4]) -> RawFrameInfo {
    RawFrameInfo {
        make: "Canon".to_string(),
        model: "Canon EOS-1D X".to_string(),
        width: 10,
        height: 8,
        crops,
        blacklevels: black,
        whitelevels: [15000, 15001, 15002, 15003],
    }
}

#[test]
fn formats_patterns() {
    assert_eq!(format_cfa_pattern(&[0, 1, 1, 2]), "RGGB");
    assert_eq!(format_cfa_pattern(&[2, 1, 1, 0]), "BGGR");
    assert_eq!(format_cfa_pattern(&[3, 1, 9, 0]), "?G?R");
}

#[test]
fn zero_black_levels_take_the_largest() {
    assert_eq!(effective_black_levels(&[2047, 2047, 2047, 0]), vec![2047, 2047, 2047, 2047]);
    assert_eq!(effective_black_levels(&[0, 512, 0, 600]), vec![600, 512, 600, 600]);
    assert_eq!(effective_black_levels(&[100, 200, 300, 400]), vec![100, 200, 300, 400]);
    assert_eq!(effective_black_levels(&[0, 0, 0, 0]), vec![0, 0, 0, 0]);
}

#[test]
fn pattern_follows_crop_offset() {
    let cfa = rawloader::CFA::new("RGGB");
    assert_eq!(parse_cfa_pattern_with_offset(&cfa, 0, 0), [0, 1, 1, 2]);
    assert_eq!(parse_cfa_pattern_with_offset(&cfa, 1, 0), [1, 2, 0, 1]);
    assert_eq!(parse_cfa_pattern_with_offset(&cfa, 0, 1), [1, 0, 2, 1]);
    assert_eq!(parse_cfa_pattern_with_offset(&cfa, 1, 1), [2, 1, 1, 0]);
    assert_eq!(parse_cfa_pattern_with_offset(&cfa, 50, 52), [0, 1, 1, 2]);
}

#[test]
fn layout_of_cropped_frame() {
    let cfa = rawloader::CFA::new("RGGB");
    let l = layout_from(&info([1, 2, 3, 1], [2047, 2048, 2049, 0]), &cfa);
    assert_eq!((l.full_width, l.full_height), (10, 8));
    assert_eq!((l.crop_top, l.crop_left), (1, 1));
    assert_eq!((l.width, l.height), (7, 4));
    assert_eq!(l.cfa_pattern, [2, 1, 1, 0]);
    assert_eq!(l.cfa_string, "BGGR");
    assert_eq!(l.black_levels, vec![2047, 2048, 2049, 2049]);
    assert_eq!(l.white_levels, vec![15000, 15001, 15002, 15003]);
}

#[test]
fn sites_address_the_full_sensor() {
    let cfa = rawloader::CFA::new("RGGB");
    let l = layout_from(&info([1, 2, 3, 1], [10, 20, 30, 40]), &cfa);
    assert_eq!(
        sensor_site(&l, 0, 0),
        SensorSite { index: 11, cfa_index: 0, black: 40, white: 15003 }
    );
    assert_eq!(
        sensor_site(&l, 0, 1),
        SensorSite { index: 12, cfa_index: 1, black: 30, white: 15002 }
    );
    assert_eq!(
        sensor_site(&l, 3, 6),
        SensorSite { index: 4 * 10 + 7, cfa_index: 2, black: 20, white: 15001 }
    );
}

#[test]
fn even_crop_keeps_pattern_positions() {
    let cfa = rawloader::CFA::new("RGGB");
    let l = layout_from(&info([2, 0, 2, 4], [1, 2, 3, 4]), &cfa);
    for row in 0..l.height {
        for col in 0..l.width {
            let s = sensor_site(&l, row, col);
            assert_eq!(s.black, [1u16, 2, 3, 4][s.cfa_index]);
        }
    }
}

#[test]
fn garbage_is_a_decode_error() {
    let err = decode_frame(&[0u8; 64]).unwrap_err();
    assert!(err.starts_with("RAW decode error: RawLoaderError: \""), "{}", err);
    assert!(err.ends_with('"'));
}

fn tiny_profile() -> Vec<u8> {
    // II, magic, IFD at 8, one entry: CalibrationIlluminant1 = 21 (D65).
    vec![
        0x49, 0x49, 0x52, 0x43, 8, 0, 0, 0, 1, 0, 0x5a, 0xc6, 3, 0, 1, 0, 0, 0, 21, 0, 0, 0,
    ]
}

#[test]
fn bundled_profile_for_eos_1d_x() {
    let p = load_bundled_dcp("Canon", "Canon EOS-1D X", &tiny_profile()).unwrap();
    assert_eq!(p.illuminant1, Illuminant::D65);
}

#[test]
fn no_bundled_profile_for_other_models() {
    assert!(load_bundled_dcp("Canon", "Canon EOS-1D X Mark II", &tiny_profile()).is_none());
    assert!(load_bundled_dcp("Canon", "Canon EOS 5D Mark IV", &tiny_profile()).is_none());
    assert!(load_bundled_dcp("Canon", "EOS-1D", &tiny_profile()).is_none());
}

#[test]
fn unreadable_bundled_profile_gives_none() {
    assert!(load_bundled_dcp("Canon", "Canon EOS-1D X", &[1, 2, 3]).is_none());
}

fn image(crops: [usize; 4]) -> rawloader::RawImage {
    rawloader::RawImage {
        make: "Canon".to_string(),
        model: "Canon EOS-1D X".to_string(),
        clean_make: "Canon".to_string(),
        clean_model: "EOS-1D X".to_string(),
        width: 6,
        height: 4,
        cpp: 1,
        wb_coeffs: [2.0, 1.0, 1.5, 1.0],
        whitelevels: [4000, 4001, 4002, 4003],
        blacklevels: [0, 256, 256, 256],
        xyz_to_cam: [[0.0; 3]; 4],
        cfa: rawloader::CFA::new("GRBG"),
        crops,
        blackareas: Vec::new(),
        orientation: rawloader::Orientation::Normal,
        data: rawloader::RawImageData::Integer((0..24).collect()),
    }
}

#[test]
fn layout_of_decoded_image() {
    let img = image([1, 1, 1, 0]);
    let l = raw_processor::decode::frame_layout(&img).unwrap();
    assert_eq!((l.width, l.height), (5, 2));
    assert_eq!((l.crop_top, l.crop_left), (1, 0));
    assert_eq!(l.cfa_pattern, [2, 1, 1, 0]);
    assert_eq!(l.cfa_string, "BGGR");
    assert_eq!(l.black_levels, vec![256, 256, 256, 256]);
    assert_eq!(l.white_levels, vec![4000, 4001, 4002, 4003]);
    let site = sensor_site(&l, 1, 4);
    assert_eq!(site.index, 2 * 6 + 4);
}

#[test]
fn layout_rejects_oversized_crop() {
    assert!(raw_processor::decode::frame_layout(&image([0, 4, 0, 3])).is_none());
    assert!(raw_processor::decode::frame_layout(&image([3, 0, 2, 0])).is_none());
    assert!(raw_processor::decode::frame_layout(&image([0, 3, 4, 3])).is_some());
}
