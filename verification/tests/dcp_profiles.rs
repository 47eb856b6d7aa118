use raw_processor::dcp::{
    hue_sat_entry_index, parse_dcp, trim_end_nul, DcpProfile, HueSatMapDims, HueSatMapEntry, Illuminant,
    TiffReal,
};

/// Little/big endian writer for building DCP files.
struct Writer {
    le: bool,
    bytes: Vec<u8>,
}

impl Writer {
    fn u16(&mut self, v: u16) {
        if self.le {
            self.bytes.extend_from_slice(&v.to_le_bytes());
        } else {
            self.bytes.extend_from_slice(&v.to_be_bytes());
        }
    }
    fn u32(&mut self, v: u32) {
        if self.le {
            self.bytes.extend_from_slice(&v.to_le_bytes());
        } else {
            self.bytes.extend_from_slice(&v.to_be_bytes());
        }
    }
    fn i32(&mut self, v: i32) {
        self.u32(v as u32);
    }
    fn u64(&mut self, v: u64) {
        if self.le {
            self.bytes.extend_from_slice(&v.to_le_bytes());
        } else {
            self.bytes.extend_from_slice(&v.to_be_bytes());
        }
    }
}

/// An entry: tag, type, count and either inline bytes (<= 4) or out-of-line data.
struct Entry {
    tag: u16,
    typ: u16,
    count: u32,
    data: Vec<u8>,
}

fn build_dcp(le: bool, entries: &[Entry], claimed: Option<u16>) -> Vec<u8> {
    let mut w = Writer { le, bytes: Vec::new() };
    w.bytes.extend_from_slice(if le { b"II" } else { b"MM" });
    w.u16(0x4352);
    w.u32(8);
    w.u16(claimed.unwrap_or(entries.len() as u16));
    let data_start = 8 + 2 + 12 * entries.len();
    let mut data_area: Vec<u8> = Vec::new();
    for e in entries {
        w.u16(e.tag);
        w.u16(e.typ);
        w.u32(e.count);
        if e.data.len() <= 4 {
            let mut inline = e.data.clone();
            inline.resize(4, 0);
            w.bytes.extend_from_slice(&inline);
        } else {
            w.u32((data_start + data_area.len()) as u32);
            data_area.extend_from_slice(&e.data);
        }
    }
    w.bytes.extend_from_slice(&data_area);
    w.bytes
}

fn enc(le: bool, f: impl FnOnce(&mut Writer)) -> Vec<u8> {
    let mut w = Writer { le, bytes: Vec::new() };
    f(&mut w);
    w.bytes
}

fn sample_entries(le: bool) -> Vec<Entry> {
    vec![
        Entry { tag: 50936, typ: 2, count: 7, data: b"Test\0\0\0".to_vec() },
        Entry { tag: 50778, typ: 3, count: 1, data: enc(le, |w| w.u16(21)) },
        Entry { tag: 50779, typ: 3, count: 1, data: enc(le, |w| w.u16(17)) },
        Entry {
            tag: 50721,
            typ: 10,
            count: 9,
            data: enc(le, |w| {
                for i in 0..9 {
                    w.i32(i * 1000 - 4000);
                    w.i32(10000);
                }
            }),
        },
        Entry {
            tag: 50964,
            typ: 11,
            count: 9,
            data: enc(le, |w| {
                for i in 0..9 {
                    w.u32((i as f32 * 0.25).to_bits());
                }
            }),
        },
        Entry {
            tag: 50965,
            typ: 12,
            count: 4,
            data: enc(le, |w| {
                for i in 0..4 {
                    w.u64((i as f64 + 0.5).to_bits());
                }
            }),
        },
        Entry { tag: 50937, typ: 4, count: 3, data: enc(le, |w| {
            w.u32(2);
            w.u32(2);
            w.u32(1);
        }) },
        Entry {
            tag: 50938,
            typ: 11,
            count: 12,
            data: enc(le, |w| {
                for i in 0..12 {
                    w.u32((i as f32).to_bits());
                }
            }),
        },
        Entry { tag: 51107, typ: 4, count: 1, data: enc(le, |w| w.u32(1)) },
        Entry { tag: 1234, typ: 4, count: 1, data: enc(le, |w| w.u32(99)) },
        Entry {
            tag: 50940,
            typ: 11,
            count: 5,
            data: enc(le, |w| {
                for v in [0.0f32, 0.0, 1.0, 1.0, 7.0] {
                    w.u32(v.to_bits());
                }
            }),
        },
        Entry { tag: 50981, typ: 3, count: 3, data: enc(le, |w| {
            w.u16(90);
            w.u16(16);
            w.u16(16);
        }) },
    ]
}

fn check_sample_profile(p: &DcpProfile) {
    assert_eq!(p.name, "Test");
    assert_eq!(p.illuminant1, Illuminant::D65);
    assert_eq!(p.illuminant2, Illuminant::StdA);
    let mut cm = [TiffReal::Zero; 9];
    for i in 0..9 {
        cm[i] = TiffReal::Rational { num: i as i32 * 1000 - 4000, den: 10000 };
    }
    assert_eq!(p.color_matrix_1, Some(cm));
    assert_eq!(p.color_matrix_2, None);
    let mut fm = [TiffReal::Zero; 9];
    for i in 0..9 {
        fm[i] = TiffReal::Single((i as f32 * 0.25).to_bits());
    }
    assert_eq!(p.forward_matrix_1, Some(fm));
    let mut fm2 = [TiffReal::Zero; 9];
    for i in 0..4 {
        fm2[i] = TiffReal::Double((i as f64 + 0.5).to_bits());
    }
    assert_eq!(p.forward_matrix_2, Some(fm2));
    assert_eq!(p.hue_sat_map_dims, Some(HueSatMapDims { hue_divs: 2, sat_divs: 2, val_divs: 1 }));
    let table = p.hue_sat_map_data_1.as_ref().unwrap();
    assert_eq!(table.len(), 4);
    for (i, e) in table.iter().enumerate() {
        assert_eq!(e.hue_shift, TiffReal::Single(((3 * i) as f32).to_bits()));
        assert_eq!(e.sat_scale, TiffReal::Single(((3 * i + 1) as f32).to_bits()));
        assert_eq!(e.val_scale, TiffReal::Single(((3 * i + 2) as f32).to_bits()));
    }
    assert!(p.hue_sat_map_data_2.is_none());
    assert_eq!(p.hue_sat_map_encoding, 1);
    let curve = p.tone_curve.as_ref().unwrap();
    assert_eq!(
        curve,
        &vec![
            (TiffReal::Single(0.0f32.to_bits()), TiffReal::Single(0.0f32.to_bits())),
            (TiffReal::Single(1.0f32.to_bits()), TiffReal::Single(1.0f32.to_bits())),
        ]
    );
    assert_eq!(p.look_table_dims, Some(HueSatMapDims { hue_divs: 90, sat_divs: 16, val_divs: 16 }));
    assert!(p.look_table_data.is_none());
}

#[test]
fn parses_little_endian_profile() {
    let bytes = build_dcp(true, &sample_entries(true), None);
    let p = parse_dcp(&bytes).unwrap();
    check_sample_profile(&p);
}

#[test]
fn parses_big_endian_profile() {
    let bytes = build_dcp(false, &sample_entries(false), None);
    let p = parse_dcp(&bytes).unwrap();
    check_sample_profile(&p);
}

#[test]
fn empty_directory_gives_default_profile() {
    let bytes = build_dcp(true, &[], None);
    let p = parse_dcp(&bytes).unwrap();
    assert_eq!(p.name, "");
    assert_eq!(p.illuminant1, Illuminant::StdA);
    assert_eq!(p.illuminant2, Illuminant::D65);
    assert!(p.color_matrix_1.is_none() && p.forward_matrix_1.is_none());
    assert!(p.hue_sat_map_dims.is_none() && p.tone_curve.is_none());
    assert_eq!(p.hue_sat_map_encoding, 0);
}

#[test]
fn rejects_short_file() {
    assert_eq!(parse_dcp(&[0x49, 0x49, 0x52, 0x43]).unwrap_err(), "DCP file too short");
    assert_eq!(parse_dcp(&[]).unwrap_err(), "DCP file too short");
}

#[test]
fn rejects_bad_byte_order() {
    let bytes = [0x41u8, 0x9c, 0x52, 0x43, 8, 0, 0, 0, 0, 0];
    assert_eq!(parse_dcp(&bytes).unwrap_err(), "Invalid TIFF byte order: 419c");
    let mixed = [0x49u8, 0x4d, 0x52, 0x43, 8, 0, 0, 0, 0, 0];
    assert_eq!(parse_dcp(&mixed).unwrap_err(), "Invalid TIFF byte order: 494d");
}

#[test]
fn rejects_plain_tiff() {
    let bytes = [0x49u8, 0x49, 0x2a, 0x00, 8, 0, 0, 0, 0, 0];
    assert_eq!(parse_dcp(&bytes).unwrap_err(), "Not a DCP file (magic: 0x002a)");
    let be = [0x4du8, 0x4d, 0xab, 0xcd, 0, 0, 0, 8, 0, 0];
    assert_eq!(parse_dcp(&be).unwrap_err(), "Not a DCP file (magic: 0xabcd)");
}

#[test]
fn rejects_ifd_offset_out_of_bounds() {
    let past = [0x49u8, 0x49, 0x52, 0x43, 10, 0, 0, 0, 0, 0];
    assert_eq!(parse_dcp(&past).unwrap_err(), "IFD offset out of bounds");
    // Room for the offset itself but not for the two-byte entry count.
    let last_byte = [0x49u8, 0x49, 0x52, 0x43, 9, 0, 0, 0, 0, 0];
    assert_eq!(parse_dcp(&last_byte).unwrap_err(), "IFD offset out of bounds");
}

#[test]
fn entries_past_end_are_ignored() {
    let entries = vec![
        Entry { tag: 50778, typ: 3, count: 1, data: vec![22, 0] },
        Entry { tag: 50779, typ: 3, count: 1, data: vec![23, 0] },
    ];
    let mut bytes = build_dcp(true, &entries, Some(5));
    // The claimed third entry is cut short.
    bytes.extend_from_slice(&[0x12, 0xc6, 3, 0, 1, 0]);
    let p = parse_dcp(&bytes).unwrap();
    assert_eq!(p.illuminant1, Illuminant::D75);
    assert_eq!(p.illuminant2, Illuminant::D50);
}

#[test]
fn later_entry_wins() {
    let entries = vec![
        Entry { tag: 50778, typ: 3, count: 1, data: vec![22, 0] },
        Entry { tag: 50778, typ: 4, count: 1, data: vec![20, 0, 0, 0] },
    ];
    let p = parse_dcp(&build_dcp(true, &entries, None)).unwrap();
    assert_eq!(p.illuminant1, Illuminant::D55);
}

#[test]
fn name_is_decoded_lossily_and_trimmed() {
    let entries = vec![Entry { tag: 50936, typ: 2, count: 6, data: vec![b'A', 0xff, b'B', 0, 0, 0] }];
    let p = parse_dcp(&build_dcp(true, &entries, None)).unwrap();
    assert_eq!(p.name, "A\u{FFFD}B");
    let inner_nul = vec![Entry { tag: 50936, typ: 2, count: 4, data: vec![b'x', 0, b'y', 0] }];
    let q = parse_dcp(&build_dcp(true, &inner_nul, None)).unwrap();
    assert_eq!(q.name, "x\0y");
}

#[test]
fn name_past_end_is_skipped() {
    let mut bytes = build_dcp(true, &[Entry { tag: 50936, typ: 2, count: 8, data: b"Profile1".to_vec() }], None);
    bytes.truncate(bytes.len() - 1);
    let p = parse_dcp(&bytes).unwrap();
    assert_eq!(p.name, "");
}

#[test]
fn matrix_with_few_elements_is_zero_filled() {
    let entries = vec![Entry {
        tag: 50722,
        typ: 10,
        count: 2,
        data: vec![1, 0, 0, 0, 2, 0, 0, 0, 0xfd, 0xff, 0xff, 0xff, 4, 0, 0, 0],
    }];
    let p = parse_dcp(&build_dcp(true, &entries, None)).unwrap();
    let mut expected = [TiffReal::Zero; 9];
    expected[0] = TiffReal::Rational { num: 1, den: 2 };
    expected[1] = TiffReal::Rational { num: -3, den: 4 };
    assert_eq!(p.color_matrix_2, Some(expected));
}

#[test]
fn matrix_of_other_type_is_zero() {
    let entries = vec![Entry { tag: 50721, typ: 4, count: 9, data: vec![1; 36] }];
    let p = parse_dcp(&build_dcp(true, &entries, None)).unwrap();
    assert_eq!(p.color_matrix_1, Some([TiffReal::Zero; 9]));
}

#[test]
fn matrix_data_past_end_reads_zero() {
    let mut bytes = build_dcp(
        true,
        &[Entry {
            tag: 50964,
            typ: 11,
            count: 9,
            data: enc(true, |w| {
                for _ in 0..9 {
                    w.u32(1.5f32.to_bits());
                }
            }),
        }],
        None,
    );
    bytes.truncate(bytes.len() - 6);
    let p = parse_dcp(&bytes).unwrap();
    let m = p.forward_matrix_1.unwrap();
    assert_eq!(m[6], TiffReal::Single(1.5f32.to_bits()));
    assert_eq!(m[7], TiffReal::Single(0));
    assert_eq!(m[8], TiffReal::Single(0));
}

#[test]
fn double_table_and_curve() {
    let entries = vec![
        Entry {
            tag: 50982,
            typ: 12,
            count: 7,
            data: enc(true, |w| {
                for i in 0..7 {
                    w.u64((i as f64 * 2.0).to_bits());
                }
            }),
        },
        Entry {
            tag: 50940,
            typ: 12,
            count: 2,
            data: enc(true, |w| {
                w.u64(0.25f64.to_bits());
                w.u64(0.75f64.to_bits());
            }),
        },
    ];
    let p = parse_dcp(&build_dcp(true, &entries, None)).unwrap();
    let table = p.look_table_data.unwrap();
    assert_eq!(table.len(), 2);
    assert_eq!(
        table[1],
        HueSatMapEntry {
            hue_shift: TiffReal::Double(6.0f64.to_bits()),
            sat_scale: TiffReal::Double(8.0f64.to_bits()),
            val_scale: TiffReal::Double(10.0f64.to_bits()),
        }
    );
    assert_eq!(
        p.tone_curve.unwrap(),
        vec![(TiffReal::Double(0.25f64.to_bits()), TiffReal::Double(0.75f64.to_bits()))]
    );
}

#[test]
fn table_of_rationals_reads_zero() {
    let entries = vec![Entry { tag: 50939, typ: 10, count: 3, data: vec![1; 24] }];
    let p = parse_dcp(&build_dcp(true, &entries, None)).unwrap();
    assert_eq!(p.hue_sat_map_data_2, Some(vec![HueSatMapEntry::default()]));
}

#[test]
fn illuminant_codes_and_temperatures() {
    assert_eq!(Illuminant::from(17u16), Illuminant::StdA);
    assert_eq!(Illuminant::from(20u16), Illuminant::D55);
    assert_eq!(Illuminant::from(21u16), Illuminant::D65);
    assert_eq!(Illuminant::from(22u16), Illuminant::D75);
    assert_eq!(Illuminant::from(23u16), Illuminant::D50);
    assert_eq!(Illuminant::from(0u16), Illuminant::Unknown);
    assert_eq!(Illuminant::from(24u16), Illuminant::Unknown);
    assert_eq!(Illuminant::StdA.temperature(), 2856);
    assert_eq!(Illuminant::D50.temperature(), 5003);
    assert_eq!(Illuminant::D55.temperature(), 5503);
    assert_eq!(Illuminant::D65.temperature(), 6504);
    assert_eq!(Illuminant::D75.temperature(), 7504);
}

#[test]
fn unknown_illuminant_has_d65_temperature() {
    for code in [0u16, 1, 18, 19, 24, 255, 65535] {
        assert_eq!(Illuminant::from(code).temperature(), Illuminant::D65.temperature());
    }
}

#[test]
fn default_profile() {
    let p = DcpProfile::default();
    assert_eq!(p.name, "");
    assert_eq!(p.illuminant1, Illuminant::StdA);
    assert_eq!(p.illuminant2, Illuminant::D65);
    assert!(p.look_table_dims.is_none());
}

#[test]
fn table_index_is_value_major() {
    let dims = HueSatMapDims { hue_divs: 90, sat_divs: 16, val_divs: 16 };
    assert_eq!(hue_sat_entry_index(&dims, 0, 0, 0, 23040), 0);
    assert_eq!(hue_sat_entry_index(&dims, 5, 0, 0, 23040), 5);
    assert_eq!(hue_sat_entry_index(&dims, 0, 1, 0, 23040), 90);
    assert_eq!(hue_sat_entry_index(&dims, 3, 2, 1, 23040), (16 + 2) * 90 + 3);
    assert_eq!(hue_sat_entry_index(&dims, 89, 15, 15, 23040), 23039);
}

#[test]
fn table_index_clamps_to_last_entry() {
    let dims = HueSatMapDims { hue_divs: 90, sat_divs: 16, val_divs: 16 };
    assert_eq!(hue_sat_entry_index(&dims, 0, 0, 16, 23040), 23039);
    assert_eq!(hue_sat_entry_index(&dims, 5, 5, 5, 10), 9);
    assert_eq!(hue_sat_entry_index(&dims, usize::MAX, usize::MAX, usize::MAX, 7), 6);
}

#[test]
fn trims_only_trailing_nuls() {
    assert_eq!(trim_end_nul("Camera\0\0".to_string()), "Camera");
    assert_eq!(trim_end_nul("\0a\0b".to_string()), "\0a\0b");
    assert_eq!(trim_end_nul("\0\0\0".to_string()), "");
    assert_eq!(trim_end_nul("é\0".to_string()), "é");
    assert_eq!(trim_end_nul(String::new()), "");
}

#[test]
fn inline_ascii_name() {
    let data = [
        0x49u8, 0x49, 0x52, 0x43, 8, 0, 0, 0, 1, 0, 0xF8, 0xC6, 2, 0, 4, 0, 0, 0, 0x41, 0x62, 0, 0,
    ];
    let p = parse_dcp(&data).unwrap();
    assert_eq!(p.name, "Ab");
    assert_eq!(p.illuminant1, Illuminant::StdA);
    assert_eq!(p.illuminant2, Illuminant::D65);
    assert!(p.color_matrix_1.is_none() && p.color_matrix_2.is_none());
    assert!(p.forward_matrix_1.is_none() && p.forward_matrix_2.is_none());
    assert!(p.hue_sat_map_dims.is_none() && p.hue_sat_map_data_1.is_none());
    assert!(p.hue_sat_map_data_2.is_none() && p.look_table_dims.is_none());
    assert!(p.look_table_data.is_none() && p.tone_curve.is_none());
    assert_eq!(p.hue_sat_map_encoding, 0);
}
