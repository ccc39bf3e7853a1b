//! Incremental decoding of music-catalog dumps.
//!
//! A dump is one long run of tagged records: artists, labels, masters or
//! releases. A tokenizer turns its bytes into [`token::Token`]s; the parsers
//! of this crate are state machines that consume those tokens one at a time
//! and hand out a typed record whenever the closing tag of one has been seen.
//! Every parser comes with a mathematical model of its state and a transition
//! function, and its `process` is proved to follow that function step by step.
pub mod artist;
pub mod artist_credit;
pub mod company;
pub mod label;
pub mod master;
pub mod number;
pub mod parser;
pub mod reader;
pub mod release;
pub mod shared;
pub mod token;
pub mod track;
pub mod util;
pub mod video;

pub use crate::parser::{Parser, ParserError, XmlFault};
pub use crate::reader::{
    ArtistsReader, DiscogsReader, LabelsReader, MastersReader, ReaderError, ReleasesReader,
};
pub use crate::token::{Attribute, Tag, Token};
