use guestbook::chars::{from_chars, str_eq, to_chars};
use guestbook::media::{
    check_size, check_type, image_filename, is_file_field, new_image_filename, upload_path, validate_media,
    MediaRejection, MediaType, MAX_IMAGE_SIZE,
};

#[test]
fn allowed_types_map_to_extensions() {
    assert_eq!(check_type(Some("image/jpeg")), Ok(MediaType::Jpeg));
    assert_eq!(check_type(Some("image/jpg")), Ok(MediaType::Jpeg));
    assert_eq!(check_type(Some("image/png")), Ok(MediaType::Png));
    assert_eq!(check_type(Some("image/webp")), Ok(MediaType::Webp));
    assert_eq!(MediaType::Jpeg.extension(), "jpg");
    assert_eq!(MediaType::Png.extension(), "png");
    assert_eq!(MediaType::Webp.extension(), "webp");
}

#[test]
fn other_types_are_refused() {
    for ct in ["image/gif", "text/plain", "image/PNG", "image/png ", "", "application/octet-stream"] {
        assert_eq!(check_type(Some(ct)), Err(MediaRejection::BadType));
    }
    assert_eq!(check_type(None), Err(MediaRejection::BadType));
}

#[test]
fn size_limit_is_inclusive() {
    assert_eq!(MAX_IMAGE_SIZE, 5 * 1024 * 1024);
    assert_eq!(check_size(5 * 1024 * 1024), Ok(()));
    assert_eq!(check_size(5 * 1024 * 1024 + 1), Err(MediaRejection::TooLarge));
    assert_eq!(check_size(0), Ok(()));
}

#[test]
fn type_is_checked_before_size() {
    assert_eq!(validate_media(Some("image/png"), 10 * 1024), Ok(MediaType::Png));
    assert_eq!(validate_media(Some("image/gif"), 10 * 1024 * 1024), Err(MediaRejection::BadType));
    assert_eq!(validate_media(Some("image/webp"), 5 * 1024 * 1024 + 1), Err(MediaRejection::TooLarge));
    assert_eq!(validate_media(None, 1), Err(MediaRejection::BadType));
}

#[test]
fn only_the_file_field_is_the_image() {
    assert!(is_file_field(Some("file")));
    assert!(!is_file_field(Some("files")));
    assert!(!is_file_field(Some("File")));
    assert!(!is_file_field(None));
}

#[test]
fn filenames_join_identifier_and_extension() {
    assert_eq!(image_filename("abc", MediaType::Png), "abc.png");
    assert_eq!(upload_path("abc.png"), "uploads/abc.png");
}

#[test]
fn generated_filenames_are_fresh_and_well_formed() {
    let a = new_image_filename(MediaType::Png);
    let b = new_image_filename(MediaType::Png);
    assert_ne!(a, b);
    assert_eq!(a.len(), 40);
    assert!(a.ends_with(".png"));
    let id = &a[..36];
    for (i, c) in id.chars().enumerate() {
        if i == 8 || i == 13 || i == 18 || i == 23 {
            assert_eq!(c, '-');
        } else {
            assert!(c.is_ascii_hexdigit() && !c.is_ascii_uppercase());
        }
    }
    assert_eq!(&id[14..15], "4");
    assert!(new_image_filename(MediaType::Webp).ends_with(".webp"));
    assert!(new_image_filename(MediaType::Jpeg).ends_with(".jpg"));
}

#[test]
fn character_helpers() {
    assert_eq!(to_chars("añb"), vec!['a', 'ñ', 'b']);
    assert_eq!(from_chars(&vec!['x', 'ü']), "xü");
    assert!(str_eq("imagen", "imagen"));
    assert!(!str_eq("imagen", "imagén"));
    assert!(!str_eq("a", "ab"));
}
