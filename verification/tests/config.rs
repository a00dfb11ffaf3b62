use photo_gallery::options::{Options, OptionsError};
use photo_gallery::photo::{Photo, PhotoError, DERIVATIVE_EXTENSION};
use photo_gallery::metadata::MetadataError;
use photo_gallery::time::{Date, Timestamp};

fn some(s: &str) -> Option<String> {
    Some(s.to_string())
}

/// A little-endian TIFF file with the capture time and offset fields.
fn container(time: &[u8], offset: &[u8]) -> Vec<u8> {
    let mut out = vec![b'I', b'I', 0x2a, 0x00];
    out.extend_from_slice(&8u32.to_le_bytes());
    out.extend_from_slice(&1u16.to_le_bytes());
    out.extend_from_slice(&0x8769u16.to_le_bytes());
    out.extend_from_slice(&4u16.to_le_bytes());
    out.extend_from_slice(&1u32.to_le_bytes());
    out.extend_from_slice(&26u32.to_le_bytes());
    out.extend_from_slice(&0u32.to_le_bytes());
    let data_at = 26 + 2 + 12 * 2 + 4;
    out.extend_from_slice(&2u16.to_le_bytes());
    let mut data = Vec::new();
    for (tag, text) in [(0x9003u16, time), (0x9011u16, offset)] {
        out.extend_from_slice(&tag.to_le_bytes());
        out.extend_from_slice(&2u16.to_le_bytes());
        out.extend_from_slice(&(text.len() as u32 + 1).to_le_bytes());
        out.extend_from_slice(&((data_at + data.len()) as u32).to_le_bytes());
        data.extend_from_slice(text);
        data.push(0);
        while data.len() % 8 != 0 {
            data.push(0);
        }
    }
    out.extend_from_slice(&0u32.to_le_bytes());
    out.extend_from_slice(&data);
    out
}

#[test]
fn output_defaults_to_the_sibling_web_directory() {
    let options = Options::resolve(some("/photos/in"), None).unwrap();
    assert_eq!(options.input_dir, "/photos/in");
    assert_eq!(options.output_dir, "/photos/web");
    assert_eq!(options.thumbnail_dir, "/photos/web/thumbnail");
    assert_eq!(options.img_dir, "/photos/web/img");
}

#[test]
fn input_defaults_to_the_current_directory() {
    let options = Options::resolve(None, None).unwrap();
    assert_eq!(options.input_dir, "./");
    assert_eq!(options.output_dir, "./../web");
    assert_eq!(options.thumbnail_dir, "./../web/thumbnail");
    assert_eq!(options.img_dir, "./../web/img");
}

#[test]
fn default_output_is_beside_an_input_that_ends_in_no_name() {
    for (input, output) in [
        (".", "./../web"),
        ("./", "./../web"),
        ("..", "../../web"),
        ("photos/..", "photos/../../web"),
        ("/photos/in/.", "/photos/web"),
        ("/photos/in/", "/photos/web"),
        ("in", "web"),
    ] {
        let options = Options::resolve(some(input), None).unwrap();
        assert_eq!(options.input_dir, input);
        assert_eq!(options.output_dir, output, "input {input}");
        assert_ne!(
            std::path::Path::new(&options.output_dir).parent(),
            Some(std::path::Path::new(input)),
            "input {input}"
        );
    }
}

#[test]
fn given_output_directory_is_taken_as_it_is() {
    let options = Options::resolve(some("in"), some("/srv/gallery")).unwrap();
    assert_eq!(options.input_dir, "in");
    assert_eq!(options.output_dir, "/srv/gallery");
    assert_eq!(options.thumbnail_dir, "/srv/gallery/thumbnail");
    assert_eq!(options.img_dir, "/srv/gallery/img");
    let options = Options::resolve(some("/"), some("out")).unwrap();
    assert_eq!(options.output_dir, "out");
}

#[test]
fn input_without_parent_has_no_default_output() {
    assert_eq!(Options::resolve(some("/"), None), Err(OptionsError::NoParentDirectory));
    assert_eq!(Options::resolve(some(""), None), Err(OptionsError::NoParentDirectory));
}

#[test]
fn relative_path_strips_the_output_directory() {
    let options = Options::resolve(some("/in"), some("/out")).unwrap();
    assert_eq!(options.relative_path("/out/img/a.jpg"), some("img/a.jpg"));
    assert_eq!(options.relative_path("/out/thumbnail/a.jpg"), some("thumbnail/a.jpg"));
    assert_eq!(options.relative_path("/out"), some(""));
    assert_eq!(options.relative_path("/outside/a.jpg"), None);
    assert_eq!(options.relative_path("/in/a.jpg"), None);
    assert_eq!(options.relative_path("out/img/a.jpg"), None);
}

#[test]
fn derivative_takes_the_file_name_and_the_fixed_extension() {
    let options = Options::resolve(some("/in"), some("/out")).unwrap();
    assert_eq!(DERIVATIVE_EXTENSION, "jpg");
    assert_eq!(
        Photo::derivative_path::<true>("/in/holiday.png", &options),
        some("/out/thumbnail/holiday.jpg")
    );
    assert_eq!(
        Photo::derivative_path::<false>("/in/holiday.png", &options),
        some("/out/img/holiday.jpg")
    );
    assert_eq!(Photo::derivative_path::<true>("a.b.heic", &options), some("/out/thumbnail/a.b.jpg"));
    assert_eq!(Photo::derivative_path::<false>("/in/raw", &options), some("/out/img/raw.jpg"));
    assert_eq!(Photo::derivative_path::<false>("/in/x.jpg", &options), some("/out/img/x.jpg"));
}

#[test]
fn path_without_file_name_has_no_derivative() {
    let options = Options::resolve(some("/in"), some("/out")).unwrap();
    assert_eq!(Photo::derivative_path::<true>("/in/..", &options), None);
    assert_eq!(Photo::derivative_path::<false>("/", &options), None);
    assert_eq!(Photo::derivative_path::<false>("", &options), None);
}

#[test]
fn photo_holds_capture_time_and_derivative_paths() {
    let options = Options::resolve(some("/in"), some("/out")).unwrap();
    let bytes = container(b"2024:01:02 10:30:05", b"-03:00");
    let photo = Photo::new("/in/holiday.png".to_string(), &bytes, &options).unwrap();
    assert_eq!(
        photo,
        Photo {
            original_path: "/in/holiday.png".to_string(),
            captured_at: Timestamp {
                date: Date { year: 2024, month: 1, day: 2 },
                second_of_day: 37_805,
                nanosecond: 0,
            },
            thumbnail_path: "/out/thumbnail/holiday.jpg".to_string(),
            display_path: "/out/img/holiday.jpg".to_string(),
        }
    );
}

#[test]
fn photo_without_capture_time_is_refused() {
    let options = Options::resolve(some("/in"), some("/out")).unwrap();
    assert_eq!(
        Photo::new("/in/a.png".to_string(), b"plain text", &options),
        Err(PhotoError::Metadata(MetadataError::Unreadable))
    );
    let bytes = container(b"yesterday", b"-03:00");
    assert_eq!(
        Photo::new("/in/a.png".to_string(), &bytes, &options),
        Err(PhotoError::Metadata(MetadataError::MalformedCaptureTime))
    );
    assert_eq!(
        Photo::new("/in/..".to_string(), &bytes, &options),
        Err(PhotoError::Metadata(MetadataError::MalformedCaptureTime))
    );
}

#[test]
fn photo_without_file_name_is_refused() {
    let options = Options::resolve(some("/in"), some("/out")).unwrap();
    let bytes = container(b"2024:01:02 10:30:05", b"-03:00");
    assert_eq!(Photo::new("/in/..".to_string(), &bytes, &options), Err(PhotoError::NoFileName));
}
