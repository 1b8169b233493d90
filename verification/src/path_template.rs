//! The naming pattern of migration files: a path is read into a
//! [`PathTemplate`], which later gives the name of the next migration.

pub mod ast;
pub mod laws;
pub mod parser;
pub mod resolver;
pub mod round_trip;

pub use crate::instant::{CivilTime, UtcInstant};
pub use ast::{
    Date, DateTime, DoUndo, EpochTimestamp, PaddedNumber, PathTemplate, Segment, SegmentKind,
    Semver, SubSecond, TemplateData, Time, Timestamp, Token, UpDown,
};
pub use parser::{parse, ParseError};
pub use resolver::Resolve;
