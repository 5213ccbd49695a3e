//! A random-access ZIP archive reader that lists and extracts entries
//! without reading the whole archive: the End of Central Directory is
//! found at the tail, the Central Directory is read in one positioned
//! read, and each entry's data is located through its Local File Header.
//! The same parser serves a local file, an in-memory buffer, or a remote
//! archive fetched by HTTP Range requests, through the [`ReadAt`]
//! capability; the retry and range arithmetic of the remote case is the
//! [`RangeRead`] state machine. Every function of the library carries a
//! contract against a byte-level model of the format, checked by Verus.

pub mod cli;
pub mod decimal;
pub mod error;
pub mod extractor;
pub mod filter;
pub mod http;
pub mod io;
pub mod le;
pub mod parser;
pub mod structures;

pub use cli::{compression_ratio, listing_totals, output_path, write_decision, Cli, WriteDecision};
pub use decimal::dec_u64;
pub use error::ZipError;
pub use extractor::ZipExtractor;
pub use filter::{basename_str, glob_match, has_glob_chars, should_extract};
pub use http::{range_header, validate_head, RangeEvent, RangeRead, RangeStep};
pub use io::{MemoryReader, ReadAt};
pub use parser::ZipParser;
pub use structures::{
    CompressionMethod, EndOfCentralDirectory, EntryModel, Zip64EOCD, Zip64EOCDLocator,
    ZipFileEntry,
};
