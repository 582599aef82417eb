//! Column-by-column compression of tabular transfer records: run-length and
//! dictionary codecs, the rules that choose a codec for each column, and the
//! path that reverses them.

pub mod address;
pub mod classify;
pub mod decimal;
pub mod dictionary;
pub mod layout;
pub mod error;
pub mod report;
pub mod rle;
pub mod series;
pub mod table;
pub mod value;
