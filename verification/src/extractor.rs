use vstd::prelude::*;

use std::sync::Arc;

use crate::error::ZipError;
use crate::io::{padded_read, read_padded, ReadAt};
use crate::parser::{spec_data_offset, spec_list, ZipParser};
use crate::structures::{CompressionMethod, EntryModel, ZipFileEntry};

verus! {

/// What decoding a raw DEFLATE stream yields: the decompressed bytes, or
/// nothing when the stream is invalid or truncated.
pub uninterp spec fn inflate_raw(data: Seq<u8>) -> Option<Seq<u8>>;

/// Relies on flate2's `DeflateDecoder` reading a raw DEFLATE stream (no
/// zlib or gzip framing): what it decodes, or that it fails, is a function
/// of the compressed bytes alone.
#[verifier::external_body]
fn inflate(data: &Vec<u8>, size_hint: usize) -> (r: Result<Vec<u8>, ZipError>)
    ensures
        r matches Ok(v) ==> inflate_raw(data@) == Some(v@),
        r matches Err(e) ==> e == ZipError::DecodeFailed && inflate_raw(data@) is None,
{
    let mut decoder = flate2::read::DeflateDecoder::new(data.as_slice());
    let mut out = Vec::with_capacity(size_hint);
    match std::io::Read::read_to_end(&mut decoder, &mut out) {
        Ok(_) => Ok(out),
        Err(_) => Err(ZipError::DecodeFailed),
    }
}

/// Whether `out` is the correct extraction of entry `e` from archive `c`:
/// the entry's data, located through its Local File Header, taken verbatim
/// for a stored entry or decoded as raw DEFLATE for a deflate entry.
pub open spec fn spec_extract_ok(c: Seq<u8>, e: EntryModel, out: Seq<u8>) -> bool {
    match spec_data_offset(c, e.lfh_offset as int) {
        None => false,
        Some(off) => match e.compression_method {
            CompressionMethod::Stored => out == padded_read(c, off, e.uncompressed_size as int),
            CompressionMethod::Deflate => inflate_raw(padded_read(c, off, e.compressed_size as int))
                == Some(out),
            CompressionMethod::Unknown(_) => false,
        },
    }
}

/// Whether extraction of entry `e` from archive `c` owes exactly the
/// failure `err`: a bad Local File Header, data that no address or buffer
/// can hold, a compression method the extractor does not support, or an
/// invalid DEFLATE stream.
pub open spec fn spec_extract_err(c: Seq<u8>, e: EntryModel, err: ZipError) -> bool {
    let off = spec_data_offset(c, e.lfh_offset as int);
    match err {
        ZipError::InvalidLfh => off is None,
        ZipError::EntryOutOfBounds => {
            ||| (match off {
                Some(v) => v > u64::MAX,
                None => false,
            })
            ||| (off is Some && e.compression_method is Stored && e.uncompressed_size
                > usize::MAX)
            ||| (off is Some && e.compression_method is Deflate && e.compressed_size > usize::MAX)
        },
        ZipError::UnsupportedMethod(m) => off is Some && e.compression_method
            == CompressionMethod::Unknown(m),
        ZipError::DecodeFailed => {
            &&& off is Some
            &&& e.compression_method is Deflate
            &&& e.compressed_size <= usize::MAX
            &&& inflate_raw(padded_read(c, off.unwrap(), e.compressed_size as int)) is None
        },
        _ => false,
    }
}

/// High-level extractor over a ZIP archive: lists entries and decompresses
/// their data into memory. Wraps the lower-level parser; the callers that
/// write files or stream to standard output build on `extract_to_memory`.
pub struct ZipExtractor<R: ReadAt> {
    /// The underlying parser for reading the archive's structures
    parser: ZipParser<R>,
}

impl<R: ReadAt> ZipExtractor<R> {
    /// The bytes of the archive this extractor reads.
    pub closed spec fn contents(&self) -> Seq<u8> {
        self.parser.contents()
    }

    /// The extractor is usable whenever its parser's cached size agrees
    /// with the source.
    pub closed spec fn wf(&self) -> bool {
        self.parser.wf()
    }

    /// Create an extractor over a shared random-access source.
    pub fn new(reader: Arc<R>) -> (r: ZipExtractor<R>)
        ensures
            r.wf(),
            r.contents() == (*reader).contents(),
    {
        ZipExtractor { parser: ZipParser::new(reader) }
    }

    /// List every entry of the archive, in Central Directory order.
    pub fn list_files(&self) -> (r: Result<Vec<ZipFileEntry>, ZipError>)
        requires
            self.wf(),
        ensures
            r matches Ok(v) ==> {
                &&& spec_list(self.contents()) == Some(v.deep_view())
                &&& forall|m: int|
                    0 <= m < v@.len() ==> ((#[trigger] v@[m]).is_directory <==> v@[m].file_name@.len()
                        > 0 && v@[m].file_name@.last() == '/')
            },
            r matches Err(e) ==> e.spec_is_io() || {
                &&& spec_list(self.contents()) is None
                &&& (e == ZipError::NotAZipFile || e == ZipError::InvalidZip64
                    || e == ZipError::InvalidCdfh)
            },
    {
        self.parser.list_files()
    }

    /// Extract one entry's contents into memory: resolve its data offset
    /// through the Local File Header, read the data in one positioned
    /// read, and decode it per the entry's compression method.
    pub fn extract_to_memory(&self, entry: &ZipFileEntry) -> (r: Result<Vec<u8>, ZipError>)
        requires
            self.wf(),
        ensures
            r matches Ok(v) ==> spec_extract_ok(self.contents(), entry@, v@),
            r matches Err(e) ==> e.spec_is_io() || spec_extract_err(self.contents(), entry@, e),
    {
        let data_offset = match self.parser.get_data_offset(entry) {
            Ok(off) => off,
            Err(e) => {
                return Err(e);
            },
        };
        match entry.compression_method {
            CompressionMethod::Stored => {
                if entry.uncompressed_size > usize::MAX as u64 {
                    return Err(ZipError::EntryOutOfBounds);
                }
                match read_padded(&**self.parser.reader(), data_offset, entry.uncompressed_size as usize) {
                    Ok(buf) => Ok(buf),
                    Err(e) => Err(e),
                }
            },
            CompressionMethod::Deflate => {
                if entry.compressed_size > usize::MAX as u64 {
                    return Err(ZipError::EntryOutOfBounds);
                }
                let compressed = match read_padded(
                    &**self.parser.reader(),
                    data_offset,
                    entry.compressed_size as usize,
                ) {
                    Ok(buf) => buf,
                    Err(e) => {
                        return Err(e);
                    },
                };
                let hint = if entry.uncompressed_size > usize::MAX as u64 {
                    0
                } else {
                    entry.uncompressed_size as usize
                };
                inflate(&compressed, hint)
            },
            CompressionMethod::Unknown(method) => Err(ZipError::UnsupportedMethod(method)),
        }
    }
}

} // verus!
