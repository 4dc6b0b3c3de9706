//! Translation of markdown documents, unit by unit, with a content-addressed
//! cache and a bounded number of provider calls in flight.
pub mod cli;
pub mod error;
pub mod markdown;
pub mod text;
pub mod translator;

pub use error::{MdTranslateError, Result};
