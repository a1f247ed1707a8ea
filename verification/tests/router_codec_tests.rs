use hqs_core::{
    choose_encoder, encode_capture, encode_ppm, resolve_sink, rgba_to_rgb, route_capture,
    EncodeError, EncoderChoice, FileType, SinkChoice,
};

fn sample_rgba(width: u32, height: u32) -> Vec<u8> {
    let mut data = Vec::new();
    for i in 0..(width as usize * height as usize) {
        data.push((i * 7 % 256) as u8);
        data.push((i * 13 % 256) as u8);
        data.push((i * 29 % 256) as u8);
        data.push(255);
    }
    data
}

#[test]
fn sink_dash_is_stdout_whatever_the_terminal_state() {
    let dest = Some("-".to_string());
    assert_eq!(resolve_sink(&dest, true), SinkChoice::Stdout);
    assert_eq!(resolve_sink(&dest, false), SinkChoice::Stdout);
}

#[test]
fn sink_omitted_on_pipe_is_stdout() {
    assert_eq!(resolve_sink(&None, false), SinkChoice::Stdout);
}

#[test]
fn sink_omitted_on_terminal_derives_default() {
    assert_eq!(resolve_sink(&None, true), SinkChoice::DeriveDefault);
}

#[test]
fn sink_path_is_kept() {
    let dest = Some("shots/out.png".to_string());
    assert_eq!(resolve_sink(&dest, true), SinkChoice::Path("shots/out.png".to_string()));
}

#[test]
fn encoder_choice_applies_default_bypass() {
    assert_eq!(choose_encoder(FileType::Png, 80, 6), EncoderChoice::PngDefault);
    assert_eq!(choose_encoder(FileType::Png, 80, 9), EncoderChoice::PngLevel(9));
    assert_eq!(choose_encoder(FileType::Jpeg, 80, 6), EncoderChoice::JpegDefault);
    assert_eq!(choose_encoder(FileType::Jpeg, 50, 6), EncoderChoice::JpegQuality(50));
    assert_eq!(choose_encoder(FileType::Ppm, 10, 2), EncoderChoice::Ppm);
}

#[test]
fn png_default_and_explicit_level_six_are_byte_identical() {
    let data = sample_rgba(16, 8);
    let a = encode_capture(&data, 16, 8, EncoderChoice::PngDefault).unwrap();
    let b = encode_capture(&data, 16, 8, EncoderChoice::PngLevel(6)).unwrap();
    assert_eq!(a, b);
}

#[test]
fn jpeg_default_and_explicit_quality_eighty_are_byte_identical() {
    let data = sample_rgba(16, 8);
    let a = encode_capture(&data, 16, 8, EncoderChoice::JpegDefault).unwrap();
    let b = encode_capture(&data, 16, 8, EncoderChoice::JpegQuality(80)).unwrap();
    assert_eq!(a, b);
}

#[test]
fn png_level_changes_are_still_valid_png() {
    let data = sample_rgba(16, 8);
    let fast = encode_capture(&data, 16, 8, EncoderChoice::PngLevel(1)).unwrap();
    let decoded = image::load_from_memory(&fast).unwrap();
    assert_eq!(image::GenericImageView::dimensions(&decoded), (16, 8));
}

#[test]
fn png_round_trip_reproduces_the_buffer_exactly() {
    let data = sample_rgba(13, 7);
    let png = encode_capture(&data, 13, 7, EncoderChoice::PngDefault).unwrap();
    let decoded = image::load_from_memory(&png).unwrap();
    assert_eq!(image::GenericImageView::dimensions(&decoded), (13, 7));
    assert_eq!(decoded.to_rgba8().into_raw(), data);
}

#[test]
fn jpeg_output_is_a_decodable_jpeg() {
    let data = sample_rgba(16, 8);
    let jpeg = encode_capture(&data, 16, 8, EncoderChoice::JpegQuality(90)).unwrap();
    let decoded = image::load_from_memory(&jpeg).unwrap();
    assert_eq!(image::GenericImageView::dimensions(&decoded), (16, 8));
}

#[test]
fn ppm_encoding_is_exact() {
    let data = vec![1, 2, 3, 255, 4, 5, 6, 255];
    let ppm = encode_ppm(&data, 2, 1);
    let mut expected = b"P6\n2 1\n255\n".to_vec();
    expected.extend_from_slice(&[1, 2, 3, 4, 5, 6]);
    assert_eq!(ppm, expected);
}

#[test]
fn rgba_to_rgb_drops_every_fourth_byte() {
    let data = vec![9, 8, 7, 0, 6, 5, 4, 1];
    assert_eq!(rgba_to_rgb(&data), vec![9, 8, 7, 6, 5, 4]);
}

#[test]
fn zero_sized_png_is_an_encoder_failure() {
    let data: Vec<u8> = Vec::new();
    let err = encode_capture(&data, 0, 0, EncoderChoice::PngDefault).unwrap_err();
    assert!(matches!(err, EncodeError::EncoderFailure(_)));
}

#[test]
fn oversized_jpeg_dimension_is_an_encoder_failure() {
    let data = vec![0u8; 4 * 65536];
    let err = encode_capture(&data, 65536, 1, EncoderChoice::JpegDefault).unwrap_err();
    assert!(matches!(err, EncodeError::EncoderFailure(_)));
}

#[test]
fn wrong_buffer_length_is_rejected_with_sizes() {
    let data = vec![0u8; 10];
    let err = encode_capture(&data, 2, 2, EncoderChoice::PngDefault).unwrap_err();
    assert_eq!(err, EncodeError::BufferSizeMismatch { expected: 16, got: 10 });
}

#[test]
fn route_capture_combines_sink_and_encoding() {
    let data = sample_rgba(4, 4);
    let routed = route_capture(&data, 4, 4, FileType::Ppm, 80, 6, &Some("-".to_string()), true)
        .unwrap();
    assert_eq!(routed.sink, SinkChoice::Stdout);
    assert_eq!(routed.bytes, encode_ppm(&data, 4, 4));
}

#[test]
fn route_capture_png_matches_direct_encoding() {
    let data = sample_rgba(4, 4);
    let routed = route_capture(&data, 4, 4, FileType::Png, 80, 6, &None, false).unwrap();
    assert_eq!(routed.sink, SinkChoice::Stdout);
    let direct = encode_capture(&data, 4, 4, EncoderChoice::PngDefault).unwrap();
    assert_eq!(routed.bytes, direct);
}
