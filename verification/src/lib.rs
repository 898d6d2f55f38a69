//! Library behind an uploader that keeps files in Google Drive as
//! base64 text split over Google Docs documents.

pub mod cli;
pub mod codec;
pub mod file;
pub mod gapi;
pub mod json;
pub mod text;
pub mod token;
