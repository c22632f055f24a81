//! A parser for a two-command line protocol: `PUBLISH <data>` and `RETRIEVE`.

pub mod chars;
pub mod protocol_parser;
pub mod text;
