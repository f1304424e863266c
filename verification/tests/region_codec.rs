use gateway_dispatcher::error::DispatchError;
use gateway_dispatcher::region::{
    i32_to_string, u64_to_string, Region, RegionParam, RegionParams, TaggedSpreading,
};

fn all_regions() -> Vec<Region> {
    vec![
        Region::Us915,
        Region::Eu868,
        Region::Eu433,
        Region::Cn470,
        Region::Cn779,
        Region::Au915,
        Region::As9231,
        Region::As9231b,
        Region::As9232,
        Region::As9233,
        Region::As9234,
        Region::Kr920,
        Region::In865,
        Region::Cd9001a,
    ]
}

#[test]
fn region_string_round_trip() {
    for r in all_regions() {
        let s = r.render();
        let back = Region::parse(&s).expect("rendered tag must parse");
        assert_eq!(back, r);
    }
}

#[test]
fn region_int_round_trip() {
    for r in all_regions() {
        let v = r.to_i32();
        let back = Region::from_i32(v).expect("encoded tag must decode");
        assert_eq!(back, r);
    }
}

#[test]
fn region_render_exact() {
    assert_eq!(Region::Us915.render(), "US915");
    assert_eq!(Region::As9231.render(), "AS923_1");
    assert_eq!(Region::As9231b.render(), "AS923_1B");
    assert_eq!(Region::Cd9001a.render(), "CD900_1A");
}

#[test]
fn region_wire_values() {
    assert_eq!(Region::Us915.to_i32(), 0);
    assert_eq!(Region::Eu868.to_i32(), 1);
    assert_eq!(Region::Kr920.to_i32(), 7);
    assert_eq!(Region::As9232.to_i32(), 9);
    assert_eq!(Region::As9231b.to_i32(), 12);
    assert_eq!(Region::Cd9001a.to_i32(), 13);
}

#[test]
fn region_parse_rejects_unknown() {
    match Region::parse("us915") {
        Err(DispatchError::Custom(m)) => assert_eq!(m, "unsupported region: us915"),
        other => panic!("expected a custom error, got {:?}", other),
    }
    assert!(Region::parse("").is_err());
    assert!(Region::parse("US915 ").is_err());
}

#[test]
fn region_from_i32_rejects_unknown() {
    match Region::from_i32(14) {
        Err(DispatchError::Custom(m)) => assert_eq!(m, "unsupported region 14"),
        other => panic!("expected a custom error, got {:?}", other),
    }
    match Region::from_i32(-1) {
        Err(DispatchError::Custom(m)) => assert_eq!(m, "unsupported region -1"),
        other => panic!("expected a custom error, got {:?}", other),
    }
}

#[test]
fn decimal_rendering() {
    assert_eq!(u64_to_string(0), "0");
    assert_eq!(u64_to_string(7), "7");
    assert_eq!(u64_to_string(1800), "1800");
    assert_eq!(u64_to_string(1234567890), "1234567890");
    assert_eq!(i32_to_string(-42), "-42");
    assert_eq!(i32_to_string(600), "600");
}

fn sample_params() -> RegionParams {
    let spreading = vec![
        TaggedSpreading { region_spreading: 1, max_packet_size: 25 },
        TaggedSpreading { region_spreading: 3, max_packet_size: 123 },
        TaggedSpreading { region_spreading: 6, max_packet_size: 255 },
    ];
    RegionParams {
        region_params: vec![
            RegionParam { max_eirp: 30, bandwidth: 125000, spreading: spreading.clone() },
            RegionParam { max_eirp: 36, bandwidth: 125000, spreading },
        ],
    }
}

#[test]
fn region_params_max_eirp() {
    assert_eq!(sample_params().max_eirp(), Some(36));
    let empty = RegionParams { region_params: vec![] };
    assert_eq!(empty.max_eirp(), None);
}

#[test]
fn region_params_bandwidth() {
    assert_eq!(sample_params().bandwidth(), Some(125000));
    let empty = RegionParams { region_params: vec![] };
    assert_eq!(empty.bandwidth(), None);
}

#[test]
fn region_params_spreading() {
    let p = sample_params();
    assert_eq!(p.spreading(10), Some("SF7"));
    assert_eq!(p.spreading(25), Some("SF7"));
    assert_eq!(p.spreading(26), Some("SF9"));
    assert_eq!(p.spreading(200), Some("SF12"));
    assert_eq!(p.spreading(256), None);
}

#[test]
fn region_params_spreading_invalid_tag() {
    let p = RegionParams {
        region_params: vec![RegionParam {
            max_eirp: 30,
            bandwidth: 125000,
            spreading: vec![TaggedSpreading { region_spreading: 0, max_packet_size: 255 }],
        }],
    };
    assert_eq!(p.spreading(10), None);
    assert_eq!(p.datarate(10), None);
}

#[test]
fn region_params_datarate() {
    let p = sample_params();
    assert_eq!(p.datarate(10), Some("SF7BW125".to_string()));
    assert_eq!(p.datarate(200), Some("SF12BW125".to_string()));
    assert_eq!(p.datarate(256), None);
}

#[test]
fn region_params_datarate_scales_bandwidth_to_khz() {
    let p = RegionParams {
        region_params: vec![RegionParam {
            max_eirp: 30,
            bandwidth: 500000,
            spreading: vec![TaggedSpreading { region_spreading: 2, max_packet_size: 255 }],
        }],
    };
    assert_eq!(p.datarate(100), Some("SF8BW500".to_string()));
}

#[test]
fn decimal_rendering_extremes() {
    assert_eq!(u64_to_string(u64::MAX), u64::MAX.to_string());
    assert_eq!(i32_to_string(i32::MIN), i32::MIN.to_string());
    assert_eq!(i32_to_string(i32::MAX), i32::MAX.to_string());
}
