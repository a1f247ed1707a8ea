use hqs_core::{
    capture_filename_at, choose_output_dir, expand_home_dir, finalize_filename_at,
    generate_default_filename, generate_default_finalize_filename, join_path,
    pictures_dir_from_lines, FileType,
};

#[test]
fn capture_filename_formats_the_timestamp() {
    assert_eq!(
        capture_filename_at(2024, 10, 4, 10, 30, 45, FileType::Png),
        "20241004_10h30m45s_hqs.png"
    );
    assert_eq!(
        capture_filename_at(2024, 1, 2, 3, 4, 5, FileType::Jpeg),
        "20240102_03h04m05s_hqs.jpeg"
    );
    assert_eq!(
        capture_filename_at(2024, 1, 2, 3, 4, 5, FileType::Ppm),
        "20240102_03h04m05s_hqs.ppm"
    );
}

#[test]
fn finalize_filename_carries_the_final_marker() {
    assert_eq!(
        finalize_filename_at(2024, 10, 4, 10, 30, 45, FileType::Png),
        "20241004_10h30m45s_hqs_final.png"
    );
}

#[test]
fn years_are_zero_padded_to_four_digits() {
    assert_eq!(capture_filename_at(3, 1, 2, 3, 4, 5, FileType::Png), "00030102_03h04m05s_hqs.png");
    assert_eq!(
        capture_filename_at(12345, 1, 2, 3, 4, 5, FileType::Png),
        "123450102_03h04m05s_hqs.png"
    );
    assert_eq!(
        capture_filename_at(-1, 1, 2, 3, 4, 5, FileType::Png),
        "-00010102_03h04m05s_hqs.png"
    );
}

#[test]
fn default_filenames_follow_the_patterns() {
    let name = generate_default_filename(FileType::Png);
    assert!(name.ends_with("_hqs.png"), "unexpected name {:?}", name);
    assert_eq!(name.len(), "20241004_10h30m45s_hqs.png".len());
    let name = generate_default_finalize_filename();
    assert!(name.ends_with("_hqs_final.png"), "unexpected name {:?}", name);
}

#[test]
fn join_path_inserts_one_separator() {
    assert_eq!(join_path("a", "b.png"), "a/b.png");
    assert_eq!(join_path("a/", "b.png"), "a/b.png");
    assert_eq!(join_path("", "b.png"), "b.png");
    assert_eq!(join_path(".", "b.png"), "./b.png");
}

#[test]
fn output_dir_precedence_follows_the_override_chain() {
    let over = Some("/tmp/shots".to_string());
    let pics = Some("/home/u/Pictures".to_string());
    assert_eq!(choose_output_dir(&over, true, &pics, true), "/tmp/shots");
    assert_eq!(choose_output_dir(&over, false, &pics, true), "/home/u/Pictures");
    assert_eq!(choose_output_dir(&None, false, &pics, true), "/home/u/Pictures");
    assert_eq!(choose_output_dir(&None, false, &pics, false), ".");
    assert_eq!(choose_output_dir(&over, false, &None, false), ".");
}

#[test]
fn home_expansion_applies_only_with_a_leading_pattern_and_a_home() {
    let home = Some("/home/u".to_string());
    assert_eq!(expand_home_dir("$HOME/Pictures", &home), "/home/u/Pictures");
    assert_eq!(expand_home_dir("/data/Pictures", &home), "/data/Pictures");
    assert_eq!(expand_home_dir("$HOME/Pictures", &None), "$HOME/Pictures");
    assert_eq!(expand_home_dir("$HOME/$HOME", &home), "/home/u//home/u");
    assert_eq!(expand_home_dir("$HOM", &home), "$HOM");
}

#[test]
fn pictures_dir_is_read_from_user_dirs_lines() {
    let home = Some("/home/u".to_string());
    let lines = vec![
        "# user dirs".to_string(),
        "".to_string(),
        "XDG_DESKTOP_DIR=\"$HOME/Desktop\"".to_string(),
        "  XDG_PICTURES_DIR=\"$HOME/Pictures\"  ".to_string(),
    ];
    assert_eq!(pictures_dir_from_lines(&lines, &home), Some("/home/u/Pictures".to_string()));
}

#[test]
fn pictures_dir_respects_single_quotes_and_absence() {
    let home = Some("/home/u".to_string());
    let lines = vec!["XDG_PICTURES_DIR='/pics'".to_string()];
    assert_eq!(pictures_dir_from_lines(&lines, &home), Some("/pics".to_string()));
    let lines = vec!["XDG_DESKTOP_DIR=\"$HOME/Desktop\"".to_string()];
    assert_eq!(pictures_dir_from_lines(&lines, &home), None);
    assert_eq!(pictures_dir_from_lines(&Vec::new(), &home), None);
}

#[test]
fn commented_pictures_lines_are_skipped() {
    let home = Some("/home/u".to_string());
    let lines = vec![
        "# XDG_PICTURES_DIR=\"/a\"".to_string(),
        "XDG_PICTURES_DIR=\"/b\"".to_string(),
    ];
    assert_eq!(pictures_dir_from_lines(&lines, &home), Some("/b".to_string()));
}
