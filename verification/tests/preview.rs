use gototerm::highlight::Highlighter;
use gototerm::preview::{
    diff_args, is_image_path, looks_binary, plan_image, read_diff, read_image, read_tail,
    tail_lines, FilePreview, ImagePlan, PreviewContent, PreviewLines, PreviewRead, ReadStatus,
};

#[test]
fn tail_lines_reads_valid_utf8() {
    assert_eq!(
        tail_lines("one\ntwo\nthree".as_bytes(), 2),
        vec!["two".to_owned(), "three".to_owned()]
    );
}

#[test]
fn tail_lines_uses_lossy_utf8() {
    assert_eq!(tail_lines(b"a\xffb", 10), vec!["a\u{fffd}b".to_owned()]);
}

#[test]
fn detects_nul_in_binary_scan_window() {
    assert!(looks_binary(b"abc\0def"));
}

#[test]
fn empty_input_has_no_lines() {
    assert!(tail_lines(b"", 10).is_empty());
}

#[test]
fn preserves_trailing_newline_as_empty_last_line() {
    assert_eq!(
        tail_lines(b"one\ntwo\n", 10),
        vec!["one".to_owned(), "two".to_owned(), String::new()]
    );
}

#[test]
fn handles_without_trailing_newline() {
    assert_eq!(
        tail_lines(b"one\ntwo", 10),
        vec!["one".to_owned(), "two".to_owned()]
    );
}

#[test]
fn expands_tabs_to_four_spaces() {
    assert_eq!(tail_lines(b"a\tb", 10), vec!["a    b".to_owned()]);
}

#[test]
fn preview_lines_exposes_diff_content() {
    let mut preview = FilePreview::new();
    preview.content = PreviewContent::Diff(vec!["+added".to_owned()]);

    match preview.lines() {
        PreviewLines::Diff(lines) => assert_eq!(*lines, vec!["+added".to_owned()]),
        _ => panic!("expected diff preview lines"),
    }
    assert!(preview.is_diff());
}

#[test]
fn detects_image_extensions_case_insensitively() {
    assert!(is_image_path("a.png"));
    assert!(is_image_path("b.JPG"));
    assert!(is_image_path("dir/c.jpeg"));
    assert!(is_image_path("d.WebP"));
    assert!(!is_image_path("e.txt"));
    assert!(!is_image_path("f.rs"));
    assert!(!is_image_path("noext"));
}

#[test]
fn a_missing_file_is_shown_as_deleted() {
    let h = Highlighter::new().unwrap();
    assert!(matches!(
        read_tail(None, 0, "a.txt", &h),
        PreviewContent::Deleted
    ));
    assert!(matches!(
        read_tail(Some(b"a\0b".to_vec()), 3, "a.txt", &h),
        PreviewContent::Binary
    ));
}

#[test]
fn a_changed_file_is_asked_for_by_its_directory() {
    assert_eq!(
        diff_args("/repo/src/a.rs"),
        Some(vec![
            "-C".to_owned(),
            "/repo/src".to_owned(),
            "diff".to_owned(),
            "HEAD".to_owned(),
            "--no-color".to_owned(),
            "--".to_owned(),
            "/repo/src/a.rs".to_owned(),
        ])
    );
    assert_eq!(diff_args("/"), None);
}

#[test]
fn a_failed_or_empty_diff_is_none() {
    assert!(read_diff(false, &b"+a\n".to_vec()).is_none());
    assert!(read_diff(true, &Vec::new()).is_none());
    assert_eq!(
        read_diff(true, &b"+a\n-b".to_vec()),
        Some(vec!["+a".to_owned(), "-b".to_owned()])
    );
}

/// A picture of two by one pixels: red and green.
fn two_pixels() -> Vec<u8> {
    let mut bytes: Vec<u8> = Vec::new();
    let img = image::RgbImage::from_raw(2, 1, vec![255, 0, 0, 0, 255, 0]).unwrap();
    image::DynamicImage::ImageRgb8(img)
        .write_to(&mut std::io::Cursor::new(&mut bytes), image::ImageFormat::Png)
        .unwrap();
    bytes
}

#[test]
fn a_small_picture_keeps_its_size() {
    let bytes = two_pixels();
    match read_image(Some(bytes.len() as u64), Some(bytes), (640, 480)) {
        PreviewContent::Image { rgb, w, h } => {
            assert_eq!((w, h), (2, 1));
            assert_eq!(rgb, vec![255, 0, 0, 0, 255, 0]);
        }
        other => panic!("{other:?}"),
    }
}

#[test]
fn a_large_picture_is_made_to_fit() {
    let mut bytes: Vec<u8> = Vec::new();
    image::DynamicImage::new_rgb8(100, 40)
        .write_to(&mut std::io::Cursor::new(&mut bytes), image::ImageFormat::Png)
        .unwrap();
    match read_image(Some(bytes.len() as u64), Some(bytes), (50, 50)) {
        PreviewContent::Image { rgb, w, h } => {
            assert_eq!((w, h), (50, 20));
            assert_eq!(rgb.len(), 50 * 20 * 3);
        }
        other => panic!("{other:?}"),
    }
}

#[test]
fn a_broken_picture_is_told() {
    match read_image(Some(3), Some(b"abc".to_vec()), (10, 10)) {
        PreviewContent::Text(t) => {
            assert_eq!(t.lines[0], "(この画像は表示できませんでした)");
            assert!(t.lines[1].len() > 2);
        }
        other => panic!("{other:?}"),
    }
    match read_image(Some(33 * 1024 * 1024), None, (10, 10)) {
        PreviewContent::Text(t) => {
            assert_eq!(t.lines, vec!["(画像が大きすぎるため表示しません)".to_owned()]);
        }
        other => panic!("{other:?}"),
    }
    assert!(matches!(
        read_image(None, None, (10, 10)),
        PreviewContent::Deleted
    ));
}

#[test]
fn a_read_of_another_file_is_ignored() {
    let mut p = FilePreview::new();
    let q = p.set_target_abs("/r/a.txt", "a.txt", 0).unwrap();
    assert_eq!(q.abs_path, "/r/a.txt");
    assert_eq!(q.display_path, "a.txt");
    let (changed, next) = p.poll(
        ReadStatus::Done(PreviewRead {
            target: "b.txt".to_owned(),
            content: PreviewContent::Binary,
        }),
        1,
    );
    assert!(!changed);
    assert!(next.is_none());
    assert!(matches!(p.content, PreviewContent::Empty));
}

#[test]
fn fewer_lines_are_the_last_of_all() {
    let bytes = b"one\r\n\ttwo\nthree\xff\n";
    let all = tail_lines(bytes, usize::MAX);
    assert_eq!(all, vec!["one", "    two", "three\u{fffd}", ""]);
    for max in 0..=4 {
        assert_eq!(tail_lines(bytes, max), all[4 - max..].to_vec());
    }
}

#[test]
fn a_line_feed_behind_a_broken_sequence_stays() {
    assert_eq!(tail_lines(b"\xe3\x81\n", 10), vec!["\u{fffd}", ""]);
    assert_eq!(tail_lines(b"\xf0", 10), vec!["\u{fffd}"]);
}

fn png(img: image::DynamicImage) -> Vec<u8> {
    let mut bytes: Vec<u8> = Vec::new();
    img.write_to(&mut std::io::Cursor::new(&mut bytes), image::ImageFormat::Png)
        .unwrap();
    bytes
}

/// A white picture with 16 bits for each sample.
fn deep_white(w: u32, h: u32) -> Vec<u8> {
    let white = image::Rgb([u16::MAX; 3]);
    png(image::DynamicImage::ImageRgb16(image::ImageBuffer::from_pixel(w, h, white)))
}

#[test]
fn a_deep_picture_is_averaged_while_that_is_possible() {
    let bytes = deep_white(300, 300);
    match read_image(Some(bytes.len() as u64), Some(bytes), (2, 2)) {
        PreviewContent::Image { rgb, w, h } => {
            assert_eq!((w, h), (2, 2));
            assert_eq!(rgb, vec![255; 12]);
        }
        other => panic!("{other:?}"),
    }
    let bytes = deep_white(256, 256);
    match read_image(Some(bytes.len() as u64), Some(bytes), (1, 1)) {
        PreviewContent::Image { rgb, w, h } => {
            assert_eq!((w, h), (1, 1));
            assert_eq!(rgb, vec![255; 3]);
        }
        other => panic!("{other:?}"),
    }
    // The samples of so many pixels cannot be added up.
    let bytes = deep_white(300, 300);
    match read_image(Some(bytes.len() as u64), Some(bytes), (1, 1)) {
        PreviewContent::Text(t) => {
            assert_eq!(t.lines, vec!["(画像が大きすぎるため表示しません)".to_owned()]);
        }
        other => panic!("{other:?}"),
    }
}

#[test]
fn a_picture_of_bytes_shrinks_to_a_point() {
    let white = image::Rgb([u8::MAX; 3]);
    let img = image::ImageBuffer::from_pixel(1000, 700, white);
    let bytes = png(image::DynamicImage::ImageRgb8(img));
    match read_image(Some(bytes.len() as u64), Some(bytes), (0, 0)) {
        PreviewContent::Image { rgb, w, h } => {
            assert_eq!((w, h), (1, 1));
            assert_eq!(rgb, vec![255; 3]);
        }
        other => panic!("{other:?}"),
    }
}

#[test]
fn how_a_picture_is_shown_goes_by_its_size_and_depth() {
    let shallow = |w: u32, h: u32| Ok(((w, h), (24u16, 3u8)));
    let deep = |w: u32, h: u32| Ok(((w, h), (64u16, 4u8)));
    assert_eq!(plan_image(&shallow(640, 480), (640, 480)), ImagePlan::Whole);
    assert_eq!(plan_image(&shallow(641, 480), (640, 480)), ImagePlan::Shrunk);
    assert_eq!(plan_image(&shallow(6000, 4000), (2, 2)), ImagePlan::Shrunk);
    assert_eq!(plan_image(&shallow(6000, 4000), (1, 1)), ImagePlan::TooLarge);
    assert_eq!(plan_image(&shallow(0x0100_0001, 1), (640, 480)), ImagePlan::TooLarge);
    assert_eq!(plan_image(&deep(6000, 4000), (640, 480)), ImagePlan::Shrunk);
    assert_eq!(plan_image(&deep(6000, 4000), (23, 15)), ImagePlan::TooLarge);
    assert_eq!(plan_image(&deep(0, 5000), (1, 1)), ImagePlan::Whole);
    assert_eq!(plan_image(&Err("broken".to_owned()), (1, 1)), ImagePlan::Whole);
}
