//! Core library to keep track of classes and assignments.
//!
//! A [`tracker::Tracker`] owns a collection of [`class::Class`]es; each class
//! owns a collection of [`assignment::Assignment`]s. Every mutation validates
//! its input before committing: assignment weights within a class may sum to
//! at most 100, class codes are unique across a tracker, assignment ids are
//! unique across a tracker, and assignment names are unique within a class.
//! A mutation that would violate one of these rules fails with a typed error
//! and leaves every entity unchanged.

pub mod args;
pub mod assignment;
pub mod class;
pub mod class_code;
pub mod grade;
pub mod invalid_error;
pub mod mark;
pub mod out_of;
pub mod parse_error;
pub mod percent;
pub mod status;
pub mod tracker;

pub use args::Args;
pub use assignment::{Assignment, AssignmentBuilder, AssignmentError};
pub use class::{Class, ClassError};
pub use class_code::{ClassCode, ClassCodes};
pub use grade::{Grade, Modifier};
pub use invalid_error::InvalidError;
pub use mark::{InvalidMarkError, Mark};
pub use out_of::OutOf;
pub use parse_error::AssignmentParseError;
pub use percent::Percent;
pub use status::{Status, StatusError};
pub use tracker::{Tracker, TrackerError};
