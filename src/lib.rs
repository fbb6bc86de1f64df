//! A declarative date/time format-description interpreter.
//!
//! A format description is a tree of literals, typed components, compound
//! sequences, optional groups and first-match alternations. The interpreter
//! walks such a tree over input bytes, collects the parsed fields, and the
//! value builders turn them into a time of day, a date and time, or a date and
//! time with a UTC offset. The modules `first` to `fourth` offer ready-made
//! parsers, each built from a different arrangement of layouts, and `compile`
//! turns a bracketed text such as `[hour]:[minute]` into a description.
pub mod value;
pub mod format;
pub mod component;
pub mod interp;
pub mod builder;
pub mod strategy;
pub mod describe;
pub mod rfc3339;
pub mod first;
pub mod second;
pub mod third;
pub mod fourth;
pub mod laws;
pub mod compile;
