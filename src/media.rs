//! Admission of an uploaded image: the declared content type must be one of
//! four, the payload at most 5 MiB; the stored file is named by a random
//! identifier and the extension that the content type maps to.

use vstd::prelude::*;
use crate::chars::str_eq;

verus! {

/// Largest payload accepted, in bytes.
pub const MAX_IMAGE_SIZE: usize = 5 * 1024 * 1024;

/// The part name of the multipart field that carries the image.
pub const FILE_FIELD: &'static str = "file";

/// Directory that holds uploaded files, with its separator.
pub const UPLOAD_DIR: &'static str = "uploads/";

/// The kinds of image that may be uploaded.
#[derive(Debug, Clone, Copy, PartialEq, Eq, Structural)]
pub enum MediaType {
    Jpeg,
    Png,
    Webp,
}

/// Why an upload was refused before anything was written.
#[derive(Debug, Clone, Copy, PartialEq, Eq, Structural)]
pub enum MediaRejection {
    BadType,
    TooLarge,
    MissingField,
}

/// The media type that a declared content type names, if it is allowed.
pub open spec fn media_type_of(content_type: Seq<char>) -> Option<MediaType> {
    if content_type == "image/jpeg"@ || content_type == "image/jpg"@ {
        Some(MediaType::Jpeg)
    } else if content_type == "image/png"@ {
        Some(MediaType::Png)
    } else if content_type == "image/webp"@ {
        Some(MediaType::Webp)
    } else {
        None
    }
}

impl MediaType {
    /// The file extension, without its dot.
    pub open spec fn ext(self) -> Seq<char> {
        match self {
            MediaType::Jpeg => "jpg"@,
            MediaType::Png => "png"@,
            MediaType::Webp => "webp"@,
        }
    }

    /// The file extension, without its dot.
    pub fn extension(&self) -> (r: &'static str)
        ensures
            r@ == self.ext(),
    {
        match self {
            MediaType::Jpeg => "jpg",
            MediaType::Png => "png",
            MediaType::Webp => "webp",
        }
    }
}

/// Whether a multipart part with this name is the image field.
pub fn is_file_field(name: Option<&str>) -> (r: bool)
    ensures
        r == (name is Some && name->Some_0@ == FILE_FIELD@),
{
    match name {
        Some(n) => str_eq(n, FILE_FIELD),
        None => false,
    }
}

/// The media type of a declared content type; a missing one is refused
/// like any other that is not allowed.
pub fn check_type(content_type: Option<&str>) -> (r: Result<MediaType, MediaRejection>)
    ensures
        content_type is Some && media_type_of(content_type->Some_0@) is Some
            ==> r == Ok::<MediaType, MediaRejection>(media_type_of(content_type->Some_0@)->Some_0),
        !(content_type is Some && media_type_of(content_type->Some_0@) is Some)
            ==> r == Err::<MediaType, MediaRejection>(MediaRejection::BadType),
{
    let ct = match content_type {
        Some(ct) => ct,
        None => return Err(MediaRejection::BadType),
    };
    if str_eq(ct, "image/jpeg") || str_eq(ct, "image/jpg") {
        Ok(MediaType::Jpeg)
    } else if str_eq(ct, "image/png") {
        Ok(MediaType::Png)
    } else if str_eq(ct, "image/webp") {
        Ok(MediaType::Webp)
    } else {
        Err(MediaRejection::BadType)
    }
}

/// Accepts a payload of at most `MAX_IMAGE_SIZE` bytes.
pub fn check_size(len: usize) -> (r: Result<(), MediaRejection>)
    ensures
        r is Ok <==> len <= MAX_IMAGE_SIZE,
        r is Err ==> r->Err_0 == MediaRejection::TooLarge,
{
    if len > MAX_IMAGE_SIZE {
        Err(MediaRejection::TooLarge)
    } else {
        Ok(())
    }
}

/// Admits a payload of `len` bytes declared as `content_type`: the type is
/// checked first, then the size.
pub fn validate_media(content_type: Option<&str>, len: usize) -> (r: Result<MediaType, MediaRejection>)
    ensures
        content_type is None || media_type_of(content_type->Some_0@) is None
            ==> r == Err::<MediaType, MediaRejection>(MediaRejection::BadType),
        content_type is Some && media_type_of(content_type->Some_0@) is Some ==> r == (if len
            <= MAX_IMAGE_SIZE {
            Ok::<MediaType, MediaRejection>(media_type_of(content_type->Some_0@)->Some_0)
        } else {
            Err(MediaRejection::TooLarge)
        }),
{
    let media = check_type(content_type)?;
    check_size(len)?;
    Ok(media)
}

/// A lowercase hexadecimal digit.
pub open spec fn is_lower_hex(c: char) -> bool {
    ('0' <= c && c <= '9') || ('a' <= c && c <= 'f')
}

/// A version-4 identifier in hyphenated form: 36 characters, hyphens at
/// indices 8, 13, 18 and 23, lowercase hex digits elsewhere, the version
/// digit `4` and a variant digit among `8`, `9`, `a`, `b`.
pub open spec fn is_uuid_text(s: Seq<char>) -> bool {
    &&& s.len() == 36
    &&& forall|i: int|
        0 <= i < 36 ==> if i == 8 || i == 13 || i == 18 || i == 23 {
            #[trigger] s[i] == '-'
        } else {
            is_lower_hex(s[i])
        }
    &&& s[14] == '4'
    &&& s[19] == '8' || s[19] == '9' || s[19] == 'a' || s[19] == 'b'
}

/// A stored name for an image of type `media`: an identifier, a dot, and
/// the extension.
pub open spec fn is_image_filename(f: Seq<char>, media: MediaType) -> bool {
    &&& f.len() == 37 + media.ext().len()
    &&& is_uuid_text(f.take(36))
    &&& f.skip(36) == seq!['.'] + media.ext()
}

/// Relies on uuid's `Uuid::new_v4` and its `Display`: a random version-4
/// identifier written in lowercase hyphenated form. It panics only where the
/// operating system gives no random bytes.
#[verifier::external_body]
fn random_uuid_text() -> (r: String)
    ensures
        is_uuid_text(r@),
{
    uuid::Uuid::new_v4().to_string()
}

/// The file name for an image with identifier `id`: `id`, a dot, the extension.
pub fn image_filename(id: &str, media: MediaType) -> (r: String)
    ensures
        r@ == id@ + seq!['.'] + media.ext(),
{
    let mut r = String::from_str(id);
    r.append(".");
    proof {
        reveal_strlit(".");
    }
    r.append(media.extension());
    r
}

/// A fresh, collision-resistant file name for an image of type `media`.
pub fn new_image_filename(media: MediaType) -> (r: String)
    ensures
        is_image_filename(r@, media),
{
    let id = random_uuid_text();
    let r = image_filename(id.as_str(), media);
    assert(r@.take(36) =~= id@);
    assert(r@.skip(36) =~= seq!['.'] + media.ext());
    r
}

/// The path of a stored file: the upload directory, then the name.
pub fn upload_path(filename: &str) -> (r: String)
    ensures
        r@ == UPLOAD_DIR@ + filename@,
{
    let mut r = String::from_str(UPLOAD_DIR);
    r.append(filename);
    r
}

} // verus!
