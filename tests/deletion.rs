use guestbook::gallery::{after_file_removed, after_row_removed, is_flat_file_name, start_delete, DeleteAction, DeleteOutcome};
use guestbook::media::{new_image_filename, MediaType};

#[test]
fn names_outside_the_upload_directory_are_refused() {
    for name in ["", ".", "..", "../secret", "a/b.png", "a\\b.png"] {
        assert!(!is_flat_file_name(name));
        assert!(matches!(start_delete(name), DeleteAction::Finish(DeleteOutcome::InvalidName)));
    }
    assert!(is_flat_file_name("foto.png"));
    assert!(is_flat_file_name("...png"));
}

#[test]
fn row_goes_first_then_the_file() {
    let name = new_image_filename(MediaType::Png);
    match start_delete(&name) {
        DeleteAction::RemoveRow { filename } => assert_eq!(filename, name),
        other => panic!("expected a row deletion, got {:?}", other),
    }
    match after_row_removed(&name, true) {
        DeleteAction::RemoveFile { path } => assert_eq!(path, format!("uploads/{}", name)),
        other => panic!("expected a file removal, got {:?}", other),
    }
    assert_eq!(after_file_removed(true), DeleteOutcome::Deleted);
}

#[test]
fn failures_are_reported() {
    assert!(matches!(after_row_removed("a.png", false), DeleteAction::Finish(DeleteOutcome::RowFailed)));
    assert_eq!(after_file_removed(false), DeleteOutcome::FileFailed);
}
