//! The decisions of an image deletion: the name must address a file of the
//! flat upload directory; the row goes first, then the file, so that no row
//! is ever left without its file.

use vstd::prelude::*;
use crate::chars::to_chars;
use crate::media::{is_image_filename, is_uuid_text, is_lower_hex, upload_path, MediaType, UPLOAD_DIR};
use crate::text::has_char;

verus! {

/// How a deletion ended.
#[derive(Debug, Clone, Copy, PartialEq, Eq, Structural)]
pub enum DeleteOutcome {
    /// Both the row and the file are gone.
    Deleted,
    /// The name does not address a file of the upload directory.
    InvalidName,
    /// The row could not be deleted; the file was left alone.
    RowFailed,
    /// The row is gone but the file could not be removed: it is left
    /// behind, invisible.
    FileFailed,
}

/// What the caller does next.
#[derive(Debug)]
pub enum DeleteAction {
    /// Delete the image row with this file name.
    RemoveRow { filename: String },
    /// Remove the file at this path.
    RemoveFile { path: String },
    /// Stop and answer with this outcome.
    Finish(DeleteOutcome),
}

/// A name of one entry of a flat directory: not empty, no separator, and
/// neither `.` nor `..`.
pub open spec fn is_flat_name(s: Seq<char>) -> bool {
    &&& s.len() > 0
    &&& !has_char(s, '/')
    &&& !has_char(s, '\\')
    &&& s != seq!['.']
    &&& s != seq!['.', '.']
}

/// Whether `name` is a name of one entry of a flat directory.
pub fn is_flat_file_name(name: &str) -> (r: bool)
    ensures
        r == is_flat_name(name@),
{
    let v = to_chars(name);
    if v.len() == 0 {
        return false;
    }
    if v.len() == 1 && v[0] == '.' {
        assert(v@ =~= seq!['.']);
        return false;
    }
    if v.len() == 2 && v[0] == '.' && v[1] == '.' {
        assert(v@ =~= seq!['.', '.']);
        return false;
    }
    assert(v@ != seq!['.'] && v@ != seq!['.', '.']) by {
        if v@ == seq!['.'] {
            assert(v@[0] == '.');
        }
        if v@ == seq!['.', '.'] {
            assert(v@[0] == '.' && v@[1] == '.');
        }
    }
    let mut i: usize = 0;
    while i < v.len()
        invariant
            i <= v.len(),
            v@ == name@,
            forall|j: int| 0 <= j < i ==> v@[j] != '/' && v@[j] != '\\',
        decreases v.len() - i,
    {
        if v[i] == '/' || v[i] == '\\' {
            return false;
        }
        i = i + 1;
    }
    true
}

/// The first step of deleting the image stored as `filename`: refuse a name
/// outside the upload directory, else delete its row.
pub fn start_delete(filename: &str) -> (act: DeleteAction)
    ensures
        is_flat_name(filename@) ==> act is RemoveRow && act->RemoveRow_filename@ == filename@,
        !is_flat_name(filename@) ==> act == DeleteAction::Finish(DeleteOutcome::InvalidName),
{
    if is_flat_file_name(filename) {
        DeleteAction::RemoveRow { filename: String::from_str(filename) }
    } else {
        DeleteAction::Finish(DeleteOutcome::InvalidName)
    }
}

/// The step after the row deletion: remove the file only once its row is
/// gone.
pub fn after_row_removed(filename: &str, row_removed: bool) -> (act: DeleteAction)
    ensures
        row_removed ==> act is RemoveFile && act->RemoveFile_path@ == UPLOAD_DIR@ + filename@,
        !row_removed ==> act == DeleteAction::Finish(DeleteOutcome::RowFailed),
{
    if row_removed {
        DeleteAction::RemoveFile { path: upload_path(filename) }
    } else {
        DeleteAction::Finish(DeleteOutcome::RowFailed)
    }
}

/// How the deletion ends once the file removal was attempted.
pub fn after_file_removed(file_removed: bool) -> (r: DeleteOutcome)
    ensures
        r == (if file_removed { DeleteOutcome::Deleted } else { DeleteOutcome::FileFailed }),
{
    if file_removed {
        DeleteOutcome::Deleted
    } else {
        DeleteOutcome::FileFailed
    }
}

/// Every name that an upload generates is one that deletion accepts, so the
/// file an upload wrote is the one a deletion of its row removes.
pub proof fn lemma_generated_name_deletable(f: Seq<char>, media: MediaType)
    requires
        is_image_filename(f, media),
    ensures
        is_flat_name(f),
{
    reveal_strlit("jpg");
    reveal_strlit("png");
    reveal_strlit("webp");
    assert forall|i: int| 0 <= i < f.len() implies f[i] != '/' && f[i] != '\\' by {
        if i < 36 {
            assert(f.take(36)[i] == f[i]);
            assert(is_uuid_text(f.take(36)));
            if !(i == 8 || i == 13 || i == 18 || i == 23) {
                assert(is_lower_hex(f.take(36)[i]));
            }
        } else {
            assert(f.skip(36)[i - 36] == f[i]);
            if i > 36 {
                assert((seq!['.'] + media.ext())[i - 36] == media.ext()[i - 37]);
            }
        }
    }
}

} // verus!
