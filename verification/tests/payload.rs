use networking::error::LibError;
use networking::message::MessageType;
use networking::payload::{has_png_extension, image_plan, ReadOutcome};

fn png(width: u32, height: u32) -> Vec<u8> {
    let picture = image::DynamicImage::ImageRgb8(image::RgbImage::from_fn(width, height, |x, y| {
        image::Rgb([(x * 40) as u8, (y * 60) as u8, 200])
    }));
    let mut out = std::io::Cursor::new(Vec::new());
    picture.write_to(&mut out, image::ImageFormat::Png).unwrap();
    out.into_inner()
}

#[test]
fn an_image_needs_the_extension_png() {
    for path in ["photo.jpg", "notes.txt", "photo", "photo.PNG", ".png", "photo.png.bak", ""] {
        assert!(!has_png_extension(path), "{:?}", path);
        for outcome in [ReadOutcome::Content(vec![1, 2]), ReadOutcome::Failed] {
            match MessageType::from_image(path, outcome) {
                MessageType::Text(text) => {
                    assert_eq!(text, "Wrong image extension. Only PNG images are supported.")
                }
                other => panic!("unexpected: {:?}", other),
            }
        }
        match MessageType::refuse_image(path) {
            Some(MessageType::Text(text)) => {
                assert_eq!(text, "Wrong image extension. Only PNG images are supported.")
            }
            other => panic!("unexpected: {:?}", other),
        }
    }
}

#[test]
fn an_image_that_was_read_is_sent_as_it_is() {
    for path in ["photo.png", "dir/photo.png", "a.b.png", "photo.png/"] {
        assert!(has_png_extension(path), "{:?}", path);
        assert!(MessageType::refuse_image(path).is_none());
        match MessageType::from_image(path, ReadOutcome::Content(vec![9, 8, 7])) {
            MessageType::Image(bytes) => assert_eq!(bytes, vec![9, 8, 7]),
            other => panic!("unexpected: {:?}", other),
        }
    }
}

#[test]
fn an_image_that_was_not_read_is_a_text() {
    match MessageType::from_image("gone.png", ReadOutcome::Failed) {
        MessageType::Text(text) => assert_eq!(text, "Error reading image: \"gone.png\""),
        other => panic!("unexpected: {:?}", other),
    }
}

#[test]
fn a_file_is_named_by_its_base_name() {
    for (path, name) in [
        ("notes.txt", "notes.txt"),
        ("dir/sub/notes.txt", "notes.txt"),
        ("/abs/data.bin", "data.bin"),
        ("dir/", "dir"),
        ("./x", "x"),
    ] {
        assert!(MessageType::refuse_file(path).is_none());
        match MessageType::from_file(path, ReadOutcome::Content(b"abc".to_vec())) {
            MessageType::File { name: n, content } => {
                assert_eq!(n, name);
                assert_eq!(content, b"abc");
            }
            other => panic!("unexpected: {:?}", other),
        }
    }
}

#[test]
fn a_missing_file_is_a_text() {
    match MessageType::from_file("missing.csv", ReadOutcome::Failed) {
        MessageType::Text(text) => assert_eq!(text, "Error reading file: \"missing.csv\""),
        other => panic!("unexpected: {:?}", other),
    }
    match MessageType::from_file("a \"b\"\n.txt", ReadOutcome::Failed) {
        MessageType::Text(text) => {
            assert_eq!(text, "Error reading file: \"a \\\"b\\\"\\n.txt\"")
        }
        other => panic!("unexpected: {:?}", other),
    }
}

#[test]
fn a_path_without_a_name_gives_no_file() {
    for path in ["", "/", "..", "a/..", "."] {
        for outcome in [ReadOutcome::Content(vec![1]), ReadOutcome::Failed] {
            match MessageType::from_file(path, outcome) {
                MessageType::Text(text) => assert_eq!(text, "Error parsing file name"),
                other => panic!("unexpected: {:?}", other),
            }
        }
        assert!(matches!(MessageType::refuse_file(path), Some(MessageType::Text(_))));
    }
}

#[test]
fn a_file_goes_under_files() {
    let message = MessageType::File { name: "notes.txt".to_string(), content: vec![1, 2, 3] };
    let plan = message.to_file().unwrap();
    assert_eq!(plan.directory, "files");
    assert_eq!(plan.path, "files/notes.txt");
    assert_eq!(plan.bytes, vec![1, 2, 3]);
}

#[test]
fn to_file_takes_files_only() {
    for message in [
        MessageType::from_text("x"),
        MessageType::Image(vec![1]),
        MessageType::Quit,
    ] {
        match message.to_file() {
            Err(LibError::WrongMessageType) => {}
            other => panic!("unexpected: {:?}", other),
        }
    }
}

#[test]
fn to_image_takes_images_only() {
    for message in [
        MessageType::from_text("x"),
        MessageType::File { name: "a.png".to_string(), content: png(1, 1) },
        MessageType::Quit,
    ] {
        match message.to_image() {
            Err(LibError::WrongMessageType) => {}
            other => panic!("unexpected: {:?}", other),
        }
    }
}

#[test]
fn an_image_goes_under_images_by_its_time() {
    let plan = MessageType::Image(png(3, 2)).to_image().unwrap();
    assert_eq!(plan.directory, "images");
    let stamp = plan
        .path
        .strip_prefix("images/")
        .and_then(|rest| rest.strip_suffix(".png"))
        .unwrap();
    // YYYY-MM-DD_HH-MM-SS
    assert_eq!(stamp.len(), 19);
    for (i, c) in stamp.chars().enumerate() {
        match i {
            4 | 7 | 13 | 16 => assert_eq!(c, '-'),
            10 => assert_eq!(c, '_'),
            _ => assert!(c.is_ascii_digit()),
        }
    }
}

#[test]
fn a_saved_image_has_the_pixels_of_the_received_one() {
    let sent = png(4, 3);
    let plan = MessageType::Image(sent.clone()).to_image().unwrap();
    let before = image::load_from_memory(&sent).unwrap().to_rgb8();
    let after = image::load_from_memory(&plan.bytes).unwrap().to_rgb8();
    assert_eq!(image::guess_format(&plan.bytes).unwrap(), image::ImageFormat::Png);
    assert_eq!(before.dimensions(), (4, 3));
    assert_eq!(before, after);
}

#[test]
fn bytes_that_are_no_image_are_not_saved() {
    for bytes in [vec![], vec![1, 2, 3], png(2, 2)[..20].to_vec()] {
        match MessageType::Image(bytes).to_image() {
            Err(LibError::ImageSavingError(why)) => assert!(!why.is_empty()),
            other => panic!("unexpected: {:?}", other),
        }
    }
}

#[test]
fn the_plan_for_an_image_is_made_of_stamp_and_bytes() {
    let plan = image_plan("2024-05-06_07-08-09", Ok(vec![1, 2])).unwrap();
    assert_eq!(plan.directory, "images");
    assert_eq!(plan.path, "images/2024-05-06_07-08-09.png");
    assert_eq!(plan.bytes, vec![1, 2]);
    match image_plan("2024-05-06_07-08-09", Err("broken".to_string())) {
        Err(error @ LibError::ImageSavingError(_)) => {
            assert_eq!(error.message(), "Image error: broken")
        }
        other => panic!("unexpected: {:?}", other),
    }
}

#[test]
fn a_picture_in_another_format_is_not_saved() {
    // The first bytes of a JPEG, a GIF and a BMP file: the format is known,
    // and is not one that is read.
    let others: [&[u8]; 3] = [
        &[0xff, 0xd8, 0xff, 0xe0, 0, 16, b'J', b'F', b'I', b'F', 0],
        b"GIF89a\x01\x00\x01\x00\x00\x00\x00;",
        b"BM\x46\x00\x00\x00\x00\x00\x00\x00\x36\x00\x00\x00",
    ];
    for bytes in others {
        match MessageType::Image(bytes.to_vec()).to_image() {
            Err(LibError::ImageSavingError(why)) => assert!(!why.is_empty()),
            other => panic!("unexpected: {:?}", other),
        }
    }
}

#[test]
fn sixteen_bits_and_transparency_are_kept() {
    let picture = image::DynamicImage::ImageRgba16(image::ImageBuffer::from_fn(3, 2, |x, y| {
        image::Rgba([x as u16 * 20_000, y as u16 * 30_000, 1, 65_535 - x as u16])
    }));
    let mut out = std::io::Cursor::new(Vec::new());
    picture.write_to(&mut out, image::ImageFormat::Png).unwrap();
    let plan = MessageType::Image(out.into_inner()).to_image().unwrap();
    assert_eq!(
        image::load_from_memory(&plan.bytes).unwrap().to_rgba16(),
        picture.to_rgba16()
    );
}

#[test]
fn saving_the_same_image_twice_gives_the_same_bytes() {
    let sent = png(7, 3);
    let first = MessageType::Image(sent.clone()).to_image().unwrap();
    let second = MessageType::Image(sent).to_image().unwrap();
    assert_eq!(first.bytes, second.bytes);
    let broken = MessageType::Image(vec![0x89, b'P', b'N', b'G']);
    match (broken.to_image(), broken.to_image()) {
        (Err(a), Err(b)) => assert_eq!(a.message(), b.message()),
        other => panic!("unexpected: {:?}", other),
    }
}
