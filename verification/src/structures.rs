use vstd::prelude::*;

use crate::error::ZipError;
use crate::le::{le16, le32, le64, lemma_le16_bounds, lemma_le32_bounds, lemma_le64_bounds};
use crate::le::{read_u16_le, read_u32_le, read_u64_le};

verus! {

/// Size of the fixed portion of the End of Central Directory record.
pub const EOCD_SIZE: usize = 22;

/// Size of the ZIP64 End of Central Directory Locator record.
pub const ZIP64_LOCATOR_SIZE: usize = 20;

/// Minimum size of the ZIP64 End of Central Directory record.
pub const ZIP64_EOCD_MIN_SIZE: usize = 56;

/// Size of the fixed portion of a Central Directory File Header.
pub const CDFH_MIN_SIZE: usize = 46;

/// Size of the fixed portion of a Local File Header.
pub const LFH_SIZE: usize = 30;

/// The End of Central Directory signature bytes, "PK\x05\x06".
pub open spec fn eocd_signature() -> Seq<u8> {
    seq![0x50u8, 0x4bu8, 0x05u8, 0x06u8]
}

/// The ZIP64 End of Central Directory Locator signature bytes, "PK\x06\x07".
pub open spec fn zip64_locator_signature() -> Seq<u8> {
    seq![0x50u8, 0x4bu8, 0x06u8, 0x07u8]
}

/// The ZIP64 End of Central Directory signature bytes, "PK\x06\x06".
pub open spec fn zip64_eocd_signature() -> Seq<u8> {
    seq![0x50u8, 0x4bu8, 0x06u8, 0x06u8]
}

/// The Central Directory File Header signature bytes, "PK\x01\x02".
pub open spec fn cdfh_signature() -> Seq<u8> {
    seq![0x50u8, 0x4bu8, 0x01u8, 0x02u8]
}

/// The Local File Header signature bytes, "PK\x03\x04".
pub open spec fn lfh_signature() -> Seq<u8> {
    seq![0x50u8, 0x4bu8, 0x03u8, 0x04u8]
}

/// Whether the four bytes of `b` at `i` equal the four signature bytes given.
fn sig_matches(b: &[u8], i: usize, s0: u8, s1: u8, s2: u8, s3: u8) -> (r: bool)
    requires
        i + 4 <= b@.len(),
    ensures
        r == (b@.subrange(i as int, i as int + 4) == seq![s0, s1, s2, s3]),
{
    let r = b[i] == s0 && b[i + 1] == s1 && b[i + 2] == s2 && b[i + 3] == s3;
    proof {
        let sub = b@.subrange(i as int, i as int + 4);
        if r {
            assert(sub =~= seq![s0, s1, s2, s3]);
        } else {
            assert(sub[0] == b@[i as int]);
            assert(sub[1] == b@[i as int + 1]);
            assert(sub[2] == b@[i as int + 2]);
            assert(sub[3] == b@[i as int + 3]);
        }
    }
    r
}

/// Compression method tag of a ZIP entry: stored (0), deflate (8), or any
/// other raw value preserved as `Unknown`.
#[derive(Debug, Clone, Copy, PartialEq, Eq, Structural)]
pub enum CompressionMethod {
    /// No compression (method 0)
    Stored,
    /// Raw DEFLATE compression (method 8)
    Deflate,
    /// Any other compression method, with its raw value
    Unknown(u16),
}

impl CompressionMethod {
    /// What `as_u16` returns, as a spec-level function.
    pub open spec fn spec_as_u16(self) -> u16 {
        match self {
            CompressionMethod::Stored => 0,
            CompressionMethod::Deflate => 8,
            CompressionMethod::Unknown(v) => v,
        }
    }

    /// What `from_u16` returns, as a spec-level function.
    pub open spec fn spec_from_u16(value: u16) -> CompressionMethod {
        if value == 0 {
            CompressionMethod::Stored
        } else if value == 8 {
            CompressionMethod::Deflate
        } else {
            CompressionMethod::Unknown(value)
        }
    }

    /// Convert a raw method identifier into the tagged value.
    pub fn from_u16(value: u16) -> (r: CompressionMethod)
        ensures
            r == Self::spec_from_u16(value),
    {
        match value {
            0 => CompressionMethod::Stored,
            8 => CompressionMethod::Deflate,
            _ => CompressionMethod::Unknown(value),
        }
    }

    /// Convert the tagged value back to its raw method identifier.
    pub fn as_u16(&self) -> (r: u16)
        ensures
            r == self.spec_as_u16(),
    {
        match self {
            CompressionMethod::Stored => 0,
            CompressionMethod::Deflate => 8,
            CompressionMethod::Unknown(v) => *v,
        }
    }
}

/// Law: converting any raw method value to a tag and back returns the value.
pub proof fn lemma_method_round_trip(m: u16)
    ensures
        CompressionMethod::spec_from_u16(m).spec_as_u16() == m,
{
}

/// End of Central Directory record: the 22-byte terminator of a ZIP archive,
/// pointing at the Central Directory.
#[derive(Debug, Clone, Copy, PartialEq, Eq, Structural)]
pub struct EndOfCentralDirectory {
    /// Number of this disk
    pub disk_number: u16,
    /// Disk where the Central Directory starts
    pub disk_with_cd: u16,
    /// Number of Central Directory entries on this disk
    pub disk_entries: u16,
    /// Total number of Central Directory entries
    pub total_entries: u16,
    /// Size of the Central Directory in bytes
    pub cd_size: u32,
    /// Offset of the start of the Central Directory
    pub cd_offset: u32,
    /// Length of the archive comment that follows the record
    pub comment_len: u16,
}

impl EndOfCentralDirectory {
    /// Whether `b` holds an End of Central Directory signature at `i` with the
    /// full fixed record in bounds.
    pub open spec fn spec_valid_at(b: Seq<u8>, i: int) -> bool {
        &&& 0 <= i
        &&& i + EOCD_SIZE <= b.len()
        &&& b.subrange(i, i + 4) == eocd_signature()
    }

    /// The record decoded from the little-endian bytes of `b` at `i`.
    pub open spec fn spec_decode(b: Seq<u8>, i: int) -> EndOfCentralDirectory {
        EndOfCentralDirectory {
            disk_number: le16(b, i + 4) as u16,
            disk_with_cd: le16(b, i + 6) as u16,
            disk_entries: le16(b, i + 8) as u16,
            total_entries: le16(b, i + 10) as u16,
            cd_size: le32(b, i + 12) as u32,
            cd_offset: le32(b, i + 16) as u32,
            comment_len: le16(b, i + 20) as u16,
        }
    }

    /// Parse an End of Central Directory record from the start of `data`.
    /// Succeeds exactly when `data` is long enough and carries the signature.
    pub fn from_bytes(data: &[u8]) -> (r: Result<EndOfCentralDirectory, ZipError>)
        ensures
            r is Ok <==> Self::spec_valid_at(data@, 0),
            r matches Ok(e) ==> e == Self::spec_decode(data@, 0),
            r matches Err(e) ==> e == ZipError::InvalidEocd,
    {
        if data.len() < EOCD_SIZE {
            return Err(ZipError::InvalidEocd);
        }
        if !sig_matches(data, 0, 0x50, 0x4b, 0x05, 0x06) {
            proof {
                assert(seq![0x50u8, 0x4bu8, 0x05u8, 0x06u8] =~= eocd_signature());
            }
            return Err(ZipError::InvalidEocd);
        }
        proof {
            assert(seq![0x50u8, 0x4bu8, 0x05u8, 0x06u8] =~= eocd_signature());
            lemma_le16_bounds(data@, 4);
            lemma_le16_bounds(data@, 6);
            lemma_le16_bounds(data@, 8);
            lemma_le16_bounds(data@, 10);
            lemma_le32_bounds(data@, 12);
            lemma_le32_bounds(data@, 16);
            lemma_le16_bounds(data@, 20);
        }
        Ok(EndOfCentralDirectory {
            disk_number: read_u16_le(data, 4),
            disk_with_cd: read_u16_le(data, 6),
            disk_entries: read_u16_le(data, 8),
            total_entries: read_u16_le(data, 10),
            cd_size: read_u32_le(data, 12),
            cd_offset: read_u32_le(data, 16),
            comment_len: read_u16_le(data, 20),
        })
    }

    /// Whether any field carries a ZIP64 sentinel, so that the 64-bit record
    /// must be consulted for the true values.
    pub open spec fn spec_is_zip64(self) -> bool {
        ||| self.disk_entries == 0xFFFFu16
        ||| self.total_entries == 0xFFFFu16
        ||| self.cd_size == 0xFFFFFFFFu32
        ||| self.cd_offset == 0xFFFFFFFFu32
    }

    /// Whether this archive requires the ZIP64 End of Central Directory.
    pub fn is_zip64(&self) -> (r: bool)
        ensures
            r == self.spec_is_zip64(),
    {
        self.disk_entries == 0xFFFF || self.total_entries == 0xFFFF || self.cd_size == 0xFFFFFFFF
            || self.cd_offset == 0xFFFFFFFF
    }
}

/// ZIP64 End of Central Directory Locator: the 20-byte record immediately
/// before the regular End of Central Directory in ZIP64 archives.
#[derive(Debug, Clone, Copy, PartialEq, Eq, Structural)]
pub struct Zip64EOCDLocator {
    /// Disk number containing the ZIP64 End of Central Directory
    pub disk_with_eocd64: u32,
    /// Absolute offset of the ZIP64 End of Central Directory
    pub eocd64_offset: u64,
    /// Total number of disks
    pub total_disks: u32,
}

impl Zip64EOCDLocator {
    /// Whether `b` holds a locator signature at `i` with the record in bounds.
    pub open spec fn spec_valid_at(b: Seq<u8>, i: int) -> bool {
        &&& 0 <= i
        &&& i + ZIP64_LOCATOR_SIZE <= b.len()
        &&& b.subrange(i, i + 4) == zip64_locator_signature()
    }

    /// The record decoded from the little-endian bytes of `b` at `i`.
    pub open spec fn spec_decode(b: Seq<u8>, i: int) -> Zip64EOCDLocator {
        Zip64EOCDLocator {
            disk_with_eocd64: le32(b, i + 4) as u32,
            eocd64_offset: le64(b, i + 8) as u64,
            total_disks: le32(b, i + 16) as u32,
        }
    }

    /// Parse a ZIP64 locator from the start of `data`. Succeeds exactly when
    /// `data` is long enough and carries the signature.
    pub fn from_bytes(data: &[u8]) -> (r: Result<Zip64EOCDLocator, ZipError>)
        ensures
            r is Ok <==> Self::spec_valid_at(data@, 0),
            r matches Ok(l) ==> l == Self::spec_decode(data@, 0),
            r matches Err(e) ==> e == ZipError::InvalidZip64,
    {
        if data.len() < ZIP64_LOCATOR_SIZE {
            return Err(ZipError::InvalidZip64);
        }
        if !sig_matches(data, 0, 0x50, 0x4b, 0x06, 0x07) {
            proof {
                assert(seq![0x50u8, 0x4bu8, 0x06u8, 0x07u8] =~= zip64_locator_signature());
            }
            return Err(ZipError::InvalidZip64);
        }
        proof {
            assert(seq![0x50u8, 0x4bu8, 0x06u8, 0x07u8] =~= zip64_locator_signature());
            lemma_le32_bounds(data@, 4);
            lemma_le64_bounds(data@, 8);
            lemma_le32_bounds(data@, 16);
        }
        Ok(Zip64EOCDLocator {
            disk_with_eocd64: read_u32_le(data, 4),
            eocd64_offset: read_u64_le(data, 8),
            total_disks: read_u32_le(data, 16),
        })
    }
}

/// ZIP64 End of Central Directory record, carrying the 64-bit versions of the
/// fields that overflow in the regular record.
#[derive(Debug, Clone, Copy, PartialEq, Eq, Structural)]
pub struct Zip64EOCD {
    /// Size of this record, not counting the signature and this field
    pub eocd64_size: u64,
    /// Version that created the archive
    pub version_made_by: u16,
    /// Minimum version needed to extract
    pub version_needed: u16,
    /// Number of this disk
    pub disk_number: u32,
    /// Disk where the Central Directory starts
    pub disk_with_cd: u32,
    /// Entries on this disk
    pub disk_entries: u64,
    /// Total number of entries
    pub total_entries: u64,
    /// Central Directory size in bytes
    pub cd_size: u64,
    /// Offset of the start of the Central Directory
    pub cd_offset: u64,
}

impl Zip64EOCD {
    /// Whether `b` holds a ZIP64 End of Central Directory signature at `i`
    /// with the minimum fixed record in bounds.
    pub open spec fn spec_valid_at(b: Seq<u8>, i: int) -> bool {
        &&& 0 <= i
        &&& i + ZIP64_EOCD_MIN_SIZE <= b.len()
        &&& b.subrange(i, i + 4) == zip64_eocd_signature()
    }

    /// The record decoded from the little-endian bytes of `b` at `i`.
    pub open spec fn spec_decode(b: Seq<u8>, i: int) -> Zip64EOCD {
        Zip64EOCD {
            eocd64_size: le64(b, i + 4) as u64,
            version_made_by: le16(b, i + 12) as u16,
            version_needed: le16(b, i + 14) as u16,
            disk_number: le32(b, i + 16) as u32,
            disk_with_cd: le32(b, i + 20) as u32,
            disk_entries: le64(b, i + 24) as u64,
            total_entries: le64(b, i + 32) as u64,
            cd_size: le64(b, i + 40) as u64,
            cd_offset: le64(b, i + 48) as u64,
        }
    }

    /// Parse a ZIP64 End of Central Directory record from the start of
    /// `data`. Succeeds exactly when `data` is long enough and carries the
    /// signature.
    pub fn from_bytes(data: &[u8]) -> (r: Result<Zip64EOCD, ZipError>)
        ensures
            r is Ok <==> Self::spec_valid_at(data@, 0),
            r matches Ok(z) ==> z == Self::spec_decode(data@, 0),
            r matches Err(e) ==> e == ZipError::InvalidZip64,
    {
        if data.len() < ZIP64_EOCD_MIN_SIZE {
            return Err(ZipError::InvalidZip64);
        }
        if !sig_matches(data, 0, 0x50, 0x4b, 0x06, 0x06) {
            proof {
                assert(seq![0x50u8, 0x4bu8, 0x06u8, 0x06u8] =~= zip64_eocd_signature());
            }
            return Err(ZipError::InvalidZip64);
        }
        proof {
            assert(seq![0x50u8, 0x4bu8, 0x06u8, 0x06u8] =~= zip64_eocd_signature());
            lemma_le64_bounds(data@, 4);
            lemma_le16_bounds(data@, 12);
            lemma_le16_bounds(data@, 14);
            lemma_le32_bounds(data@, 16);
            lemma_le32_bounds(data@, 20);
            lemma_le64_bounds(data@, 24);
            lemma_le64_bounds(data@, 32);
            lemma_le64_bounds(data@, 40);
            lemma_le64_bounds(data@, 48);
        }
        Ok(Zip64EOCD {
            eocd64_size: read_u64_le(data, 4),
            version_made_by: read_u16_le(data, 12),
            version_needed: read_u16_le(data, 14),
            disk_number: read_u32_le(data, 16),
            disk_with_cd: read_u32_le(data, 20),
            disk_entries: read_u64_le(data, 24),
            total_entries: read_u64_le(data, 32),
            cd_size: read_u64_le(data, 40),
            cd_offset: read_u64_le(data, 48),
        })
    }
}

/// The spec-level image of a parsed entry: what a `ZipFileEntry` holds, with
/// the file name as a character sequence.
pub ghost struct EntryModel {
    pub file_name: Seq<char>,
    pub compression_method: CompressionMethod,
    pub compressed_size: u64,
    pub uncompressed_size: u64,
    pub crc32: u32,
    pub lfh_offset: u64,
    pub last_mod_time: u16,
    pub last_mod_date: u16,
    pub is_directory: bool,
}

/// One entry of the archive, as parsed from its Central Directory File
/// Header. Immutable once constructed.
#[derive(Debug, Clone)]
pub struct ZipFileEntry {
    /// The file name (may include path components)
    pub file_name: String,
    /// Compression method used for this entry
    pub compression_method: CompressionMethod,
    /// Size of the compressed data in bytes
    pub compressed_size: u64,
    /// Size of the uncompressed data in bytes
    pub uncompressed_size: u64,
    /// CRC-32 checksum of the uncompressed data, as stored (not validated)
    pub crc32: u32,
    /// Offset of the entry's Local File Header from the start of the archive
    pub lfh_offset: u64,
    /// Last modification time in DOS format
    pub last_mod_time: u16,
    /// Last modification date in DOS format
    pub last_mod_date: u16,
    /// True if this entry represents a directory
    pub is_directory: bool,
}

impl View for ZipFileEntry {
    type V = EntryModel;

    open spec fn view(&self) -> EntryModel {
        EntryModel {
            file_name: self.file_name@,
            compression_method: self.compression_method,
            compressed_size: self.compressed_size,
            uncompressed_size: self.uncompressed_size,
            crc32: self.crc32,
            lfh_offset: self.lfh_offset,
            last_mod_time: self.last_mod_time,
            last_mod_date: self.last_mod_date,
            is_directory: self.is_directory,
        }
    }
}

impl DeepView for ZipFileEntry {
    type V = EntryModel;

    open spec fn deep_view(&self) -> EntryModel {
        self.view()
    }
}

/// The (year, month, day) triple packed into a DOS date.
pub open spec fn spec_dos_date(d: u16) -> (u16, u8, u8) {
    (((d / 0x200) + 1980) as u16, ((d / 0x20) % 0x10) as u8, (d % 0x20) as u8)
}

/// The (hour, minute, second) triple packed into a DOS time.
pub open spec fn spec_dos_time(t: u16) -> (u8, u8, u8) {
    ((t / 0x800) as u8, ((t / 0x20) % 0x40) as u8, ((t % 0x20) * 2) as u8)
}

impl ZipFileEntry {
    /// Unpack the modification date from DOS format as (year, month, day):
    /// bits 0-4 day, bits 5-8 month, bits 9-15 year offset from 1980.
    pub fn mod_date(&self) -> (r: (u16, u8, u8))
        ensures
            r == spec_dos_date(self.last_mod_date),
    {
        let day = (self.last_mod_date % 0x20) as u8;
        let month = ((self.last_mod_date / 0x20) % 0x10) as u8;
        let year = (self.last_mod_date / 0x200) + 1980;
        (year, month, day)
    }

    /// Unpack the modification time from DOS format as (hour, minute,
    /// second): bits 0-4 second halved, bits 5-10 minute, bits 11-15 hour.
    pub fn mod_time(&self) -> (r: (u8, u8, u8))
        ensures
            r == spec_dos_time(self.last_mod_time),
    {
        let second = ((self.last_mod_time % 0x20) * 2) as u8;
        let minute = ((self.last_mod_time / 0x20) % 0x40) as u8;
        let hour = (self.last_mod_time / 0x800) as u8;
        (hour, minute, second)
    }
}

/// Law: the DOS time's second field is always even, never exceeds 62, and
/// stays within the 58 that the format can express whenever the stored
/// half-second count is in its documented range.
pub proof fn lemma_dos_time_second(t: u16)
    ensures
        spec_dos_time(t).2 % 2 == 0,
        spec_dos_time(t).2 <= 62,
        t % 0x20 <= 29 ==> spec_dos_time(t).2 <= 58,
{
}

} // verus!
