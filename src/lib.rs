//! A guestbook core: sanitizing and validating submitted text, admitting
//! uploaded images, and paging through stored messages.

pub mod chars;
pub mod text;
pub mod validate;
pub mod media;
pub mod upload;
pub mod paging;
pub mod gallery;
