//! Rewrites the timestamps embedded in lines of text into another time zone.
//!
//! A strftime-style format is compiled into a regular expression that finds
//! a matching timestamp anywhere in a line. The first pattern of a set that
//! finds one decides how the timestamp is read and written back.

pub mod directive;
pub mod strftime;
pub mod table;
pub mod matcher;
pub mod compile;
pub mod text;
pub mod clock;
pub mod rewrite;
pub mod pattern_set;
