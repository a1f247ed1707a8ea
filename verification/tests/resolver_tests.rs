use hqs_core::{
    parse_region, resolve, CaptureMode, CaptureRequest, OutputDescriptor, Region, ResolveError,
};

fn outputs_two() -> Vec<OutputDescriptor> {
    vec![
        OutputDescriptor {
            name: "A".to_string(),
            geometry: Region { x: 0, y: 0, width: 1920, height: 1080 },
            scale_millis: 1000,
        },
        OutputDescriptor {
            name: "B".to_string(),
            geometry: Region { x: 1920, y: 0, width: 1920, height: 1080 },
            scale_millis: 2000,
        },
    ]
}

fn request(
    scale_millis: Option<u32>,
    geometry: Option<&str>,
    output_name: Option<&str>,
    cursor: bool,
) -> CaptureRequest {
    CaptureRequest {
        scale_millis,
        geometry: geometry.map(|s| s.to_string()),
        output_name: output_name.map(|s| s.to_string()),
        cursor,
    }
}

#[test]
fn mode_output_and_region_selects_scoped_capture() {
    let plan = resolve(&request(None, Some("10,20 300x400"), Some("A"), false), &outputs_two())
        .unwrap();
    match plan.mode {
        CaptureMode::SingleOutputWithRegion { name, region } => {
            assert_eq!(name, "A");
            assert_eq!(region, Region { x: 10, y: 20, width: 300, height: 400 });
        }
        other => panic!("wrong mode: {:?}", other),
    }
}

#[test]
fn mode_output_only_selects_single_output() {
    let plan = resolve(&request(None, None, Some("B"), true), &outputs_two()).unwrap();
    match plan.mode {
        CaptureMode::SingleOutput { name } => assert_eq!(name, "B"),
        other => panic!("wrong mode: {:?}", other),
    }
    assert!(plan.cursor);
}

#[test]
fn mode_region_only_selects_region_capture() {
    let plan = resolve(&request(None, Some("0,0 10x10"), None, false), &outputs_two()).unwrap();
    match plan.mode {
        CaptureMode::RegionCapture { region } => {
            assert_eq!(region, Region { x: 0, y: 0, width: 10, height: 10 });
        }
        other => panic!("wrong mode: {:?}", other),
    }
}

#[test]
fn mode_neither_selects_whole_screen() {
    let plan = resolve(&request(None, None, None, false), &outputs_two()).unwrap();
    assert_eq!(plan.mode, CaptureMode::WholeScreen);
}

#[test]
fn unknown_output_fails_with_output_not_found() {
    let err = resolve(&request(None, None, Some("DP-9"), false), &outputs_two()).unwrap_err();
    assert_eq!(err, ResolveError::OutputNotFound("DP-9".to_string()));
}

#[test]
fn default_scale_is_max_among_intersecting_outputs() {
    // The region spans both outputs; the sharper one wins.
    let plan = resolve(&request(None, Some("1000,0 1000x200"), None, false), &outputs_two())
        .unwrap();
    assert_eq!(plan.scale_millis, 2000);
}

#[test]
fn default_scale_with_region_on_one_output_uses_that_output() {
    let plan = resolve(&request(None, Some("10,10 100x100"), None, false), &outputs_two())
        .unwrap();
    assert_eq!(plan.scale_millis, 1000);
}

#[test]
fn default_scale_for_named_output_uses_its_geometry() {
    let plan = resolve(&request(None, None, Some("B"), false), &outputs_two()).unwrap();
    assert_eq!(plan.scale_millis, 2000);
}

#[test]
fn default_scale_with_no_outputs_is_one() {
    let plan = resolve(&request(None, None, None, false), &Vec::new()).unwrap();
    assert_eq!(plan.scale_millis, 1000);
}

#[test]
fn explicit_scale_is_kept_verbatim() {
    let plan = resolve(&request(Some(1500), Some("1000,0 1000x200"), None, false), &outputs_two())
        .unwrap();
    assert_eq!(plan.scale_millis, 1500);
}

#[test]
fn malformed_geometry_fails_with_parse_error() {
    let err = resolve(&request(None, Some("10,20"), None, false), &outputs_two()).unwrap_err();
    assert_eq!(err, ResolveError::GeometryParse("10,20".to_string()));
}

#[test]
fn geometry_error_takes_precedence_over_output_lookup() {
    let err = resolve(&request(None, Some("bogus"), Some("DP-9"), false), &outputs_two())
        .unwrap_err();
    assert_eq!(err, ResolveError::GeometryParse("bogus".to_string()));
}

#[test]
fn parse_region_accepts_plain_literal() {
    assert_eq!(
        parse_region("10,20 300x400").unwrap(),
        Region { x: 10, y: 20, width: 300, height: 400 }
    );
}

#[test]
fn parse_region_accepts_signs() {
    assert_eq!(
        parse_region("-10,+20 30x40").unwrap(),
        Region { x: -10, y: 20, width: 30, height: 40 }
    );
}

#[test]
fn parse_region_accepts_extreme_values() {
    assert_eq!(
        parse_region("2147483647,-2147483648 1x1").unwrap(),
        Region { x: i32::MAX, y: i32::MIN, width: 1, height: 1 }
    );
}

#[test]
fn parse_region_rejects_malformed_texts() {
    for bad in [
        "",
        "-",
        "10,20",
        "10,20 300",
        "10,20 300x400 extra",
        "10 20 300x400",
        "a,b cxd",
        "10,20 300x400x500",
        "10,,20 300x400",
        "2147483648,0 1x1",
        "0,0 1x-2147483649",
        "10, 20 300x400",
    ] {
        let err = parse_region(bad).unwrap_err();
        assert_eq!(err, ResolveError::GeometryParse(bad.to_string()), "input {:?}", bad);
    }
}
