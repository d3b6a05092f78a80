//! The decisions of an image upload, one event at a time: pick the image
//! field, check its type, check its size, write the file, then record it.
//! The caller performs each action and reports what came of it.

use vstd::prelude::*;
use crate::media::{check_size, check_type, is_file_field, is_image_filename, media_type_of,
    new_image_filename, upload_path, MediaRejection, MediaType, FILE_FIELD, MAX_IMAGE_SIZE, UPLOAD_DIR};

verus! {

/// What happened since the last action.
#[derive(Debug)]
pub enum UploadEvent {
    /// A part of the multipart payload, with its name and declared type.
    FieldArrived { name: Option<String>, content_type: Option<String> },
    /// The payload holds no further part.
    NoMoreFields,
    /// The current part's payload was read whole: `len` bytes.
    PayloadRead { len: usize },
    /// The file write finished, or failed.
    WriteDone { ok: bool },
    /// The row insert finished, or failed.
    RecordDone { ok: bool },
}

/// How an upload ended.
#[derive(Debug, Clone, Copy, PartialEq, Eq, Structural)]
pub enum UploadOutcome {
    /// The file was written and its row inserted.
    Stored,
    /// Refused before any write.
    Rejected(MediaRejection),
    /// The file could not be written; no row was inserted.
    WriteFailed,
    /// The file was written but its row could not be inserted: the file is
    /// left behind, invisible, and the caller should log it.
    RecordFailed,
}

/// What the caller does next.
#[derive(Debug)]
pub enum UploadAction {
    /// Skip this part and report the next one.
    NextField,
    /// Read this part's payload whole and report its length.
    ReadPayload,
    /// Create `path` and write the payload to it.
    WriteFile { path: String, filename: String },
    /// Insert an image row for `filename`.
    InsertRow { filename: String },
    /// Stop and answer with this outcome.
    Finish(UploadOutcome),
}

/// Where an upload stands.
#[derive(Debug)]
pub enum UploadPhase {
    /// Looking for the image field.
    Selecting,
    /// The image field's type was accepted; waiting for its payload.
    Sizing { media: MediaType },
    /// The payload was accepted; waiting for the file write.
    Writing { filename: String },
    /// The file was written; waiting for the row insert.
    Recording { filename: String },
    /// Ended.
    Finished(UploadOutcome),
}

/// One upload in progress.
pub struct UploadSession {
    pub phase: UploadPhase,
}

/// A part with this name carries the image.
pub open spec fn names_file_field(name: Option<String>) -> bool {
    name is Some && name->Some_0@ == FILE_FIELD@
}

/// The media type that a part's declared type names, if allowed.
pub open spec fn declared_media(content_type: Option<String>) -> Option<MediaType> {
    if content_type is Some {
        media_type_of(content_type->Some_0@)
    } else {
        None
    }
}

/// `event` is one that an upload in `phase` waits for.
pub open spec fn awaits(phase: UploadPhase, event: UploadEvent) -> bool {
    match phase {
        UploadPhase::Selecting => event is FieldArrived || event is NoMoreFields,
        UploadPhase::Sizing { .. } => event is PayloadRead,
        UploadPhase::Writing { .. } => event is WriteDone,
        UploadPhase::Recording { .. } => event is RecordDone,
        UploadPhase::Finished(_) => false,
    }
}

/// The upload ends in `phase` with `outcome`, and says so.
pub open spec fn finishes(phase: UploadPhase, act: UploadAction, outcome: UploadOutcome) -> bool {
    phase == UploadPhase::Finished(outcome) && act == UploadAction::Finish(outcome)
}

/// `event` is awaited in `phase`; on it the upload moves to `next` and asks for `act`.
pub open spec fn transition(
    phase: UploadPhase,
    event: UploadEvent,
    next: UploadPhase,
    act: UploadAction,
) -> bool {
    &&& awaits(phase, event)
    &&& match phase {
        UploadPhase::Selecting => match event {
            UploadEvent::FieldArrived { name, content_type } => if !names_file_field(name) {
                next is Selecting && act is NextField
            } else if declared_media(content_type) is None {
                finishes(next, act, UploadOutcome::Rejected(MediaRejection::BadType))
            } else {
                next == UploadPhase::Sizing { media: declared_media(content_type)->Some_0 }
                    && act is ReadPayload
            },
            _ => finishes(next, act, UploadOutcome::Rejected(MediaRejection::MissingField)),
        },
        UploadPhase::Sizing { media } => {
            let len = event->PayloadRead_len;
            if len > MAX_IMAGE_SIZE {
                finishes(next, act, UploadOutcome::Rejected(MediaRejection::TooLarge))
            } else {
                &&& next is Writing
                &&& is_image_filename(next->Writing_filename@, media)
                &&& act is WriteFile
                &&& act->WriteFile_filename@ == next->Writing_filename@
                &&& act->WriteFile_path@ == UPLOAD_DIR@ + next->Writing_filename@
            }
        },
        UploadPhase::Writing { filename } => if event->WriteDone_ok {
            &&& next is Recording
            &&& next->Recording_filename@ == filename@
            &&& act is InsertRow
            &&& act->InsertRow_filename@ == filename@
        } else {
            finishes(next, act, UploadOutcome::WriteFailed)
        },
        UploadPhase::Recording { .. } => if event->RecordDone_ok {
            finishes(next, act, UploadOutcome::Stored)
        } else {
            finishes(next, act, UploadOutcome::RecordFailed)
        },
        UploadPhase::Finished(_) => false,
    }
}

impl UploadSession {
    /// A new upload, looking for the image field.
    pub fn new() -> (r: UploadSession)
        ensures
            r.phase is Selecting,
    {
        UploadSession { phase: UploadPhase::Selecting }
    }

    /// Whether the upload waits for `event`.
    pub fn accepts(&self, event: &UploadEvent) -> (r: bool)
        ensures
            r == awaits(self.phase, *event),
    {
        match &self.phase {
            UploadPhase::Selecting => match event {
                UploadEvent::FieldArrived { .. } => true,
                UploadEvent::NoMoreFields => true,
                _ => false,
            },
            UploadPhase::Sizing { .. } => match event {
                UploadEvent::PayloadRead { .. } => true,
                _ => false,
            },
            UploadPhase::Writing { .. } => match event {
                UploadEvent::WriteDone { .. } => true,
                _ => false,
            },
            UploadPhase::Recording { .. } => match event {
                UploadEvent::RecordDone { .. } => true,
                _ => false,
            },
            UploadPhase::Finished(_) => false,
        }
    }

    /// Ends the upload with `outcome`.
    fn finish(&mut self, outcome: UploadOutcome) -> (act: UploadAction)
        ensures
            finishes(final(self).phase, act, outcome),
    {
        self.phase = UploadPhase::Finished(outcome);
        UploadAction::Finish(outcome)
    }

    /// Takes in one awaited event and decides the next action.
    pub fn step(&mut self, event: UploadEvent) -> (act: UploadAction)
        requires
            awaits(old(self).phase, event),
        ensures
            transition(old(self).phase, event, final(self).phase, act),
    {
        match event {
            UploadEvent::FieldArrived { name, content_type } => {
                let wanted = match &name {
                    Some(n) => is_file_field(Some(n.as_str())),
                    None => false,
                };
                if !wanted {
                    return UploadAction::NextField;
                }
                let declared = match &content_type {
                    Some(ct) => check_type(Some(ct.as_str())),
                    None => check_type(None),
                };
                match declared {
                    Ok(media) => {
                        self.phase = UploadPhase::Sizing { media };
                        UploadAction::ReadPayload
                    },
                    Err(e) => self.finish(UploadOutcome::Rejected(e)),
                }
            },
            UploadEvent::NoMoreFields => self.finish(UploadOutcome::Rejected(MediaRejection::MissingField)),
            UploadEvent::PayloadRead { len } => {
                let media = match &self.phase {
                    UploadPhase::Sizing { media } => *media,
                    _ => unreached(),
                };
                match check_size(len) {
                    Err(e) => self.finish(UploadOutcome::Rejected(e)),
                    Ok(()) => {
                        let filename = new_image_filename(media);
                        let path = upload_path(filename.as_str());
                        let act = UploadAction::WriteFile { path, filename: filename.clone() };
                        self.phase = UploadPhase::Writing { filename };
                        act
                    },
                }
            },
            UploadEvent::WriteDone { ok } => {
                if !ok {
                    return self.finish(UploadOutcome::WriteFailed);
                }
                let filename = match &self.phase {
                    UploadPhase::Writing { filename } => filename.clone(),
                    _ => unreached(),
                };
                let act = UploadAction::InsertRow { filename: filename.clone() };
                self.phase = UploadPhase::Recording { filename };
                act
            },
            UploadEvent::RecordDone { ok } => {
                if ok {
                    self.finish(UploadOutcome::Stored)
                } else {
                    self.finish(UploadOutcome::RecordFailed)
                }
            },
        }
    }
}

/// An image field whose declared type is missing or not one of the allowed
/// four ends the upload refused, and no file write is asked for.
pub proof fn lemma_bad_type_rejected_before_write(
    name: Option<String>,
    content_type: Option<String>,
    next: UploadPhase,
    act: UploadAction,
)
    requires
        transition(UploadPhase::Selecting, UploadEvent::FieldArrived { name, content_type }, next, act),
        names_file_field(name),
        declared_media(content_type) is None,
    ensures
        act == UploadAction::Finish(UploadOutcome::Rejected(MediaRejection::BadType)),
        next == UploadPhase::Finished(UploadOutcome::Rejected(MediaRejection::BadType)),
        !(act is WriteFile),
{
}

/// The sizing phase is entered only from an image field whose declared type
/// is allowed, and keeps that type.
pub proof fn lemma_sizing_follows_type_check(
    phase: UploadPhase,
    event: UploadEvent,
    next: UploadPhase,
    act: UploadAction,
)
    requires
        transition(phase, event, next, act),
        next is Sizing,
    ensures
        phase is Selecting,
        event is FieldArrived,
        names_file_field(event->FieldArrived_name),
        declared_media(event->FieldArrived_content_type) == Some(next->Sizing_media),
{
}

/// A file write is asked for only in the sizing phase, for a payload of at
/// most `MAX_IMAGE_SIZE` bytes, under a fresh name with the type's extension.
pub proof fn lemma_write_follows_checks(
    phase: UploadPhase,
    event: UploadEvent,
    next: UploadPhase,
    act: UploadAction,
)
    requires
        transition(phase, event, next, act),
        act is WriteFile,
    ensures
        phase is Sizing,
        event is PayloadRead,
        event->PayloadRead_len <= MAX_IMAGE_SIZE,
        is_image_filename(act->WriteFile_filename@, phase->Sizing_media),
{
}

/// A row is inserted only once its file was written, and names that file.
pub proof fn lemma_row_follows_write(
    phase: UploadPhase,
    event: UploadEvent,
    next: UploadPhase,
    act: UploadAction,
)
    requires
        transition(phase, event, next, act),
        act is InsertRow,
    ensures
        phase is Writing,
        event == (UploadEvent::WriteDone { ok: true }),
        act->InsertRow_filename@ == phase->Writing_filename@,
{
}

} // verus!
