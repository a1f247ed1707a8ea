use hqs_core::{
    parse_crop_px, resolve, CaptureArgs, CaptureMode, CopyFileArgs, FileType, FinalizeArgs,
    OutputDescriptor, Region,
};

#[test]
fn capture_args_carry_over_into_a_request() {
    let args = CaptureArgs {
        scale_millis: Some(2000),
        geometry: Some("0,0 4x4".to_string()),
        filetype: FileType::Png,
        quality: 80,
        level: 6,
        output: Some("A".to_string()),
        cursor: true,
        output_file: None,
    };
    let outputs = vec![OutputDescriptor {
        name: "A".to_string(),
        geometry: Region { x: 0, y: 0, width: 100, height: 100 },
        scale_millis: 1000,
    }];
    let plan = resolve(&args.request(), &outputs).unwrap();
    assert_eq!(plan.scale_millis, 2000);
    assert!(plan.cursor);
    assert!(matches!(plan.mode, CaptureMode::SingleOutputWithRegion { .. }));
}

#[test]
fn finalize_args_hold_the_crop_rectangle() {
    let args = FinalizeArgs {
        base: "shot.png".to_string(),
        crop_px: vec![10, 10, 800, 600],
        delete_base: false,
        output_file: Some("-".to_string()),
    };
    assert_eq!(parse_crop_px(&args.crop_px).unwrap(), [10, 10, 800, 600]);
}

#[test]
fn copy_file_args_hold_their_fields() {
    let args = CopyFileArgs { mime_type: "image/png".to_string(), path: "shot.png".to_string() };
    assert_eq!(args.mime_type, "image/png");
    assert_eq!(args.path, "shot.png");
}
