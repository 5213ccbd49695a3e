use vstd::prelude::*;

use std::sync::Arc;

use crate::error::ZipError;
use crate::io::{padded_read, read_padded, ReadAt};
use crate::le::{
    le16, le32, le64, lemma_le16_bounds, lemma_le32_bounds, lemma_le64_bounds, read_u16_le,
    read_u32_le, read_u64_le,
};
use crate::structures::{
    cdfh_signature, eocd_signature, lfh_signature, CompressionMethod, EndOfCentralDirectory,
    EntryModel, Zip64EOCD, Zip64EOCDLocator, ZipFileEntry, CDFH_MIN_SIZE, EOCD_SIZE, LFH_SIZE,
    ZIP64_EOCD_MIN_SIZE, ZIP64_LOCATOR_SIZE,
};

verus! {

/// What `String::from_utf8_lossy` yields on the given bytes.
pub uninterp spec fn utf8_lossy_of(b: Seq<u8>) -> Seq<char>;

/// Relies on `String::from_utf8_lossy`: the result is a function of the
/// bytes alone; empty input gives empty output; and the text ends in '/'
/// exactly when the bytes end in 0x2F, since 0x2F is a complete one-byte
/// UTF-8 sequence that decodes to '/' and no other final sequence does.
#[verifier::external_body]
fn utf8_lossy(b: &[u8]) -> (r: String)
    ensures
        r@ == utf8_lossy_of(b@),
        b@.len() == 0 ==> r@.len() == 0,
        (r@.len() > 0 && r@.last() == '/') <==> (b@.len() > 0 && b@.last() == 0x2Fu8),
{
    String::from_utf8_lossy(b).to_string()
}

/// The largest archive comment the format can carry, which bounds the
/// backward search for the End of Central Directory.
pub const MAX_COMMENT_SIZE: usize = 65535;

/// Whether the archive's last 22 bytes are an End of Central Directory
/// record that claims a zero-length comment: the common case, accepted
/// without any backward search.
pub open spec fn eocd_fast_path(c: Seq<u8>) -> bool {
    &&& c.len() >= EOCD_SIZE
    &&& EndOfCentralDirectory::spec_valid_at(c, c.len() - EOCD_SIZE)
    &&& le16(c, c.len() - 2) == 0
}

/// Whether index `i` of the search window `w` starts an End of Central
/// Directory record whose comment-length claim matches the bytes that
/// remain after it. The claim check pins the real record: the signature
/// bytes may appear inside file content, but only the true record is
/// followed by exactly the comment it declares.
pub open spec fn scan_hit(w: Seq<u8>, i: int) -> bool {
    &&& 0 <= i
    &&& i + EOCD_SIZE <= w.len()
    &&& w.subrange(i, i + 4) == eocd_signature()
    &&& le16(w, i + 20) == w.len() - i - EOCD_SIZE
}

/// The highest index at or below `from` where the search window holds a
/// consistent End of Central Directory record, if any.
pub open spec fn spec_scan(w: Seq<u8>, from: int) -> Option<int>
    decreases from + 1,
{
    if from < 0 {
        None
    } else if scan_hit(w, from) {
        Some(from)
    } else {
        spec_scan(w, from - 1)
    }
}

/// How many tail bytes the backward search examines: the largest possible
/// comment plus the record itself, bounded by the archive's size.
pub open spec fn spec_search_size(len: int) -> int {
    if len < MAX_COMMENT_SIZE + EOCD_SIZE {
        len
    } else {
        MAX_COMMENT_SIZE + EOCD_SIZE
    }
}

/// Where the End of Central Directory record starts in the archive `c`:
/// at `c.len() - 22` when the uncommented fast path applies, otherwise at
/// the highest consistent position within the search window, or nowhere.
pub open spec fn spec_eocd_offset(c: Seq<u8>) -> Option<int> {
    if eocd_fast_path(c) {
        Some(c.len() - EOCD_SIZE)
    } else {
        let search = spec_search_size(c.len() as int);
        let w = c.subrange(c.len() - search, c.len() as int);
        match spec_scan(w, search - EOCD_SIZE) {
            Some(i) => Some(c.len() - search + i),
            None => None,
        }
    }
}

/// Law: an archive whose last 22 bytes are an End of Central Directory
/// record claiming a zero-length comment is located at exactly
/// `len - 22`, by the tail fast path, with no backward search.
pub proof fn lemma_eocd_uncommented(c: Seq<u8>)
    requires
        c.len() >= EOCD_SIZE,
        EndOfCentralDirectory::spec_valid_at(c, c.len() - EOCD_SIZE),
        le16(c, c.len() - 2) == 0,
    ensures
        spec_eocd_offset(c) == Some(c.len() - EOCD_SIZE),
{
}

proof fn lemma_scan_down(w: Seq<u8>, from: int, target: int)
    requires
        target <= from,
        scan_hit(w, target),
        forall|j: int| target < j <= from ==> !scan_hit(w, j),
    ensures
        spec_scan(w, from) == Some(target),
    decreases from - target,
{
    if from > target {
        lemma_scan_down(w, from - 1, target);
    }
}

/// Law: in an archive that ends with a comment of length `comment_len`
/// after its End of Central Directory record, the record is located at
/// `len - 22 - comment_len`, provided the tail itself is not a consistent
/// record and every later signature's trailing claim is wrong. The
/// comment-length check is what rejects signature bytes that merely
/// appear inside the comment.
pub proof fn lemma_eocd_with_comment(c: Seq<u8>, comment_len: int)
    requires
        1 <= comment_len <= MAX_COMMENT_SIZE,
        c.len() >= EOCD_SIZE + comment_len,
        EndOfCentralDirectory::spec_valid_at(c, c.len() - EOCD_SIZE - comment_len),
        le16(c, c.len() - 2 - comment_len) == comment_len,
        !eocd_fast_path(c),
        forall|i: int|
            c.len() - EOCD_SIZE - comment_len < i && i + EOCD_SIZE <= c.len() ==> !(
            #[trigger] c.subrange(i, i + 4) == eocd_signature() && le16(c, i + 20) == c.len() - i
                - EOCD_SIZE),
    ensures
        spec_eocd_offset(c) == Some(c.len() - EOCD_SIZE - comment_len),
{
    let q = c.len() - EOCD_SIZE - comment_len;
    let search = spec_search_size(c.len() as int);
    let w = c.subrange(c.len() - search, c.len() as int);
    let wq = q - (c.len() - search);
    assert(EOCD_SIZE + comment_len <= search);
    assert(w.subrange(wq, wq + 4) =~= c.subrange(q, q + 4));
    assert(le16(w, wq + 20) == le16(c, q + 20));
    assert(le16(c, q + 20) == comment_len);
    assert(scan_hit(w, wq));
    assert forall|j: int| wq < j <= search - EOCD_SIZE implies !scan_hit(w, j) by {
        let i = j + (c.len() - search);
        if scan_hit(w, j) {
            assert(c.subrange(i, i + 4) =~= w.subrange(j, j + 4));
            assert(le16(c, i + 20) == le16(w, j + 20));
            assert(le16(w, j + 20) == w.len() - j - EOCD_SIZE);
            assert(c.len() - i - EOCD_SIZE == w.len() - j - EOCD_SIZE);
            assert(false);
        }
    }
    lemma_scan_down(w, search - EOCD_SIZE, wq);
}

/// Low-level ZIP archive parser: locates the End of Central Directory,
/// resolves ZIP64 records, walks the Central Directory, and resolves each
/// entry's Local File Header, over any random-access source.
pub struct ZipParser<R: ReadAt> {
    /// The underlying data source
    reader: Arc<R>,
    /// Total size of the archive in bytes
    size: u64,
}

impl<R: ReadAt> ZipParser<R> {
    /// The bytes of the archive this parser reads.
    pub closed spec fn contents(&self) -> Seq<u8> {
        (*self.reader).contents()
    }

    /// The parser caches the source's size at construction; every method
    /// relies on the cache agreeing with the source.
    pub closed spec fn wf(&self) -> bool {
        self.size == self.contents().len()
    }

    /// Create a parser over a shared random-access source.
    pub fn new(reader: Arc<R>) -> (r: ZipParser<R>)
        ensures
            r.wf(),
            r.contents() == (*reader).contents(),
    {
        let size = reader.size();
        ZipParser { reader, size }
    }

    /// The shared source handle, for reading entry data after the parser
    /// has resolved where it starts.
    pub fn reader(&self) -> (r: &Arc<R>)
        ensures
            (**r).contents() == self.contents(),
    {
        &self.reader
    }

    /// Find the End of Central Directory record. Tries the uncommented tail
    /// first, then searches backward through the largest possible comment.
    /// Returns the decoded record and its offset in the archive.
    pub fn find_eocd(&self) -> (r: Result<(EndOfCentralDirectory, u64), ZipError>)
        requires
            self.wf(),
        ensures
            r matches Ok((e, off)) ==> {
                &&& spec_eocd_offset(self.contents()) == Some(off as int)
                &&& EndOfCentralDirectory::spec_valid_at(self.contents(), off as int)
                &&& e == EndOfCentralDirectory::spec_decode(self.contents(), off as int)
            },
            r matches Err(e) ==> e == ZipError::NotAZipFile || e.spec_is_io(),
            r == Err::<(EndOfCentralDirectory, u64), ZipError>(ZipError::NotAZipFile)
                ==> spec_eocd_offset(self.contents()) is None,
    {
        let ghost c = self.contents();
        // Fast path: an uncommented archive ends with the record itself.
        if self.size >= EOCD_SIZE as u64 {
            let offset = self.size - EOCD_SIZE as u64;
            let buf = match read_padded(&*self.reader, offset, EOCD_SIZE) {
                Ok(b) => b,
                Err(e) => {
                    return Err(e);
                },
            };
            proof {
                assert(buf@ =~= c.subrange(offset as int, c.len() as int));
            }
            if buf[0] == 0x50 && buf[1] == 0x4b && buf[2] == 0x05 && buf[3] == 0x06 && buf[20]
                == 0x00 && buf[21] == 0x00 {
                match EndOfCentralDirectory::from_bytes(buf.as_slice()) {
                    Ok(eocd) => {
                        proof {
                            assert(c.subrange(offset as int, offset + 4) =~= buf@.subrange(0, 4));
                            assert(buf@.subrange(0, 4) =~= eocd_signature());
                            assert(le16(c, c.len() - 2) == 0);
                            assert(eocd_fast_path(c));
                            assert(EndOfCentralDirectory::spec_decode(buf@, 0)
                                == EndOfCentralDirectory::spec_decode(c, offset as int));
                        }
                        return Ok((eocd, offset));
                    },
                    Err(_) => {
                        proof {
                            assert(buf@.subrange(0, 4) =~= eocd_signature());
                        }
                        return Err(ZipError::NotAZipFile);
                    },
                }
            }
            proof {
                if eocd_fast_path(c) {
                    assert(c.subrange(c.len() - EOCD_SIZE, c.len() - EOCD_SIZE + 4)
                        =~= buf@.subrange(0, 4));
                    assert(buf@[0] == 0x50 && buf@[1] == 0x4b && buf@[2] == 0x05 && buf@[3]
                        == 0x06);
                    assert(le16(c, c.len() - 2) == buf@[20] + 0x100 * buf@[21]);
                    assert(false);
                }
            }
        }
        // Slow path: search backward through the largest possible comment.
        let search: usize = if self.size < (MAX_COMMENT_SIZE + EOCD_SIZE) as u64 {
            self.size as usize
        } else {
            MAX_COMMENT_SIZE + EOCD_SIZE
        };
        let ghost w = c.subrange(c.len() - search, c.len() as int);
        let search_start = self.size - search as u64;
        let win = match read_padded(&*self.reader, search_start, search) {
            Ok(b) => b,
            Err(e) => {
                return Err(e);
            },
        };
        proof {
            assert(win@ =~= w);
        }
        if search < EOCD_SIZE {
            return Err(ZipError::NotAZipFile);
        }
        proof {
            assert(search as int == spec_search_size(c.len() as int));
        }
        let mut j: usize = search - EOCD_SIZE + 1;
        while j > 0
            invariant
                j <= search - EOCD_SIZE + 1,
                EOCD_SIZE <= search <= MAX_COMMENT_SIZE + EOCD_SIZE,
                self.wf(),
                c == self.contents(),
                !eocd_fast_path(c),
                search <= c.len(),
                search as int == spec_search_size(c.len() as int),
                search_start == c.len() - search,
                w == c.subrange(c.len() - search, c.len() as int),
                win@ == w,
                win@.len() == search,
                spec_scan(w, search - EOCD_SIZE) == spec_scan(w, j - 1),
            decreases j,
        {
            let i = j - 1;
            let sig_ok = win[i] == 0x50 && win[i + 1] == 0x4b && win[i + 2] == 0x05 && win[i + 3]
                == 0x06;
            if sig_ok {
                let claim = read_u16_le(win.as_slice(), i + 20);
                if claim as usize == search - i - EOCD_SIZE {
                    proof {
                        assert(w.subrange(i as int, i + 4) =~= eocd_signature());
                        assert(scan_hit(w, i as int));
                    }
                    let eocd = match EndOfCentralDirectory::from_bytes(&win.as_slice()[i..i
                        + EOCD_SIZE]) {
                        Ok(e) => e,
                        Err(_) => {
                            proof {
                                assert(w.subrange(i as int, i + EOCD_SIZE).subrange(0, 4)
                                    =~= w.subrange(i as int, i + 4));
                                assert(false);
                            }
                            return Err(ZipError::NotAZipFile);
                        },
                    };
                    let offset = search_start + i as u64;
                    proof {
                        let rec = w.subrange(i as int, i + EOCD_SIZE);
                        assert(EndOfCentralDirectory::spec_decode(rec, 0)
                            == EndOfCentralDirectory::spec_decode(c, offset as int));
                        assert(EndOfCentralDirectory::spec_valid_at(c, offset as int)) by {
                            assert(c.subrange(offset as int, offset + 4) =~= w.subrange(
                                i as int,
                                i + 4,
                            ));
                        }
                        assert(spec_eocd_offset(c) == Some(offset as int));
                    }
                    return Ok((eocd, offset));
                }
                proof {
                    assert(!scan_hit(w, i as int));
                }
            } else {
                proof {
                    if scan_hit(w, i as int) {
                        assert(w.subrange(i as int, i + 4) == eocd_signature());
                        assert(w.subrange(i as int, i + 4)[0] == w[i as int]);
                        assert(w.subrange(i as int, i + 4)[1] == w[i as int + 1]);
                        assert(w.subrange(i as int, i + 4)[2] == w[i as int + 2]);
                        assert(w.subrange(i as int, i + 4)[3] == w[i as int + 3]);
                        assert(false);
                    }
                }
            }
            j = j - 1;
        }
        Err(ZipError::NotAZipFile)
    }

    /// Resolve the ZIP64 End of Central Directory: decode the locator in
    /// the 20 bytes before the regular record, then decode the 64-bit
    /// record at the offset the locator reports.
    pub fn read_zip64_eocd(&self, eocd_offset: u64) -> (r: Result<Zip64EOCD, ZipError>)
        requires
            self.wf(),
        ensures
            r matches Ok(z) ==> spec_zip64_resolve(self.contents(), eocd_offset as int) == Some(z),
            r matches Err(e) ==> e.spec_is_io() || (e == ZipError::InvalidZip64
                && spec_zip64_resolve(self.contents(), eocd_offset as int) is None),
    {
        if eocd_offset < ZIP64_LOCATOR_SIZE as u64 {
            return Err(ZipError::InvalidZip64);
        }
        let locator_offset = eocd_offset - ZIP64_LOCATOR_SIZE as u64;
        let locator_buf = match read_padded(&*self.reader, locator_offset, ZIP64_LOCATOR_SIZE) {
            Ok(b) => b,
            Err(e) => {
                return Err(e);
            },
        };
        let locator = match Zip64EOCDLocator::from_bytes(locator_buf.as_slice()) {
            Ok(l) => l,
            Err(_) => {
                return Err(ZipError::InvalidZip64);
            },
        };
        let eocd64_buf = match read_padded(&*self.reader, locator.eocd64_offset, ZIP64_EOCD_MIN_SIZE)
            {
            Ok(b) => b,
            Err(e) => {
                return Err(e);
            },
        };
        match Zip64EOCD::from_bytes(eocd64_buf.as_slice()) {
            Ok(z) => Ok(z),
            Err(_) => Err(ZipError::InvalidZip64),
        }
    }

    /// List every entry of the archive: find the End of Central Directory,
    /// promote to ZIP64 if its sentinels demand it, read the whole Central
    /// Directory in one positioned read, and decode the declared number of
    /// entries. No partial listing is returned: any entry that fails to
    /// parse fails the whole call.
    pub fn list_files(&self) -> (r: Result<Vec<ZipFileEntry>, ZipError>)
        requires
            self.wf(),
        ensures
            r matches Ok(v) ==> {
                &&& spec_list(self.contents()) == Some(v.deep_view())
                &&& forall|m: int|
                    0 <= m < v@.len() ==> ((#[trigger] v@[m]).is_directory <==> v@[m].file_name@.len()
                        > 0 && v@[m].file_name@.last() == '/')
            },
            r matches Err(e) ==> e.spec_is_io() || {
                &&& spec_list(self.contents()) is None
                &&& (e == ZipError::NotAZipFile || e == ZipError::InvalidZip64
                    || e == ZipError::InvalidCdfh)
            },
    {
        let ghost c = self.contents();
        let (eocd, eocd_offset) = match self.find_eocd() {
            Ok(x) => x,
            Err(e) => {
                return Err(e);
            },
        };
        let (cd_offset, cd_size, total_entries): (u64, u64, u64) = if eocd.is_zip64() {
            match self.read_zip64_eocd(eocd_offset) {
                Ok(z) => (z.cd_offset, z.cd_size, z.total_entries),
                Err(e) => {
                    return Err(e);
                },
            }
        } else {
            (eocd.cd_offset as u64, eocd.cd_size as u64, eocd.total_entries as u64)
        };
        proof {
            assert(spec_cd_geometry(c, eocd, eocd_offset as int) == Some(
                (cd_offset, cd_size, total_entries),
            ));
        }
        if cd_size > usize::MAX as u64 {
            return Err(ZipError::InvalidCdfh);
        }
        let cd = match read_padded(&*self.reader, cd_offset, cd_size as usize) {
            Ok(b) => b,
            Err(e) => {
                return Err(e);
            },
        };
        let mut entries: Vec<ZipFileEntry> = Vec::new();
        let mut pos: usize = 0;
        let mut k: u64 = 0;
        while k < total_entries
            invariant
                k <= total_entries,
                pos <= cd@.len(),
                c == self.contents(),
                match spec_parse_cd(cd@, 0, total_entries as nat) {
                    None => spec_list(c) is None,
                    Some(t) => spec_list(c) == Some(t.0),
                },
                match spec_parse_cd(cd@, pos as int, (total_entries - k) as nat) {
                    None => spec_parse_cd(cd@, 0, total_entries as nat) is None,
                    Some(t) => spec_parse_cd(cd@, 0, total_entries as nat) == Some(
                        (entries.deep_view() + t.0, t.1),
                    ),
                },
                forall|m: int|
                    0 <= m < entries@.len() ==> ((#[trigger] entries@[m]).is_directory
                        <==> entries@[m].file_name@.len() > 0 && entries@[m].file_name@.last()
                        == '/'),
            decreases total_entries - k,
        {
            match parse_cdfh(&cd, pos) {
                Ok((e, p2)) => {
                    proof {
                        let rest = spec_parse_cd(cd@, p2 as int, (total_entries - k - 1) as nat);
                        if rest is Some {
                            assert(entries.deep_view().push(e@) + rest.unwrap().0
                                =~= entries.deep_view() + (seq![e@] + rest.unwrap().0));
                            assert(entries@.push(e).map(|i: int, en: ZipFileEntry| en.deep_view())
                                =~= entries.deep_view().push(e@));
                        }
                    }
                    entries.push(e);
                    pos = p2;
                    k = k + 1;
                },
                Err(_) => {
                    return Err(ZipError::InvalidCdfh);
                },
            }
        }
        proof {
            assert(entries.deep_view() + Seq::<EntryModel>::empty() =~= entries.deep_view());
        }
        Ok(entries)
    }

    /// Resolve where an entry's data begins by reading its Local File
    /// Header: the header's own name and extra lengths govern the offset,
    /// even where they differ from the Central Directory's.
    pub fn get_data_offset(&self, entry: &ZipFileEntry) -> (r: Result<u64, ZipError>)
        requires
            self.wf(),
        ensures
            r matches Ok(off) ==> spec_data_offset(self.contents(), entry.lfh_offset as int)
                == Some(off as int),
            r matches Err(e) ==> e.spec_is_io() || (e == ZipError::InvalidLfh && spec_data_offset(
                self.contents(),
                entry.lfh_offset as int,
            ) is None) || (e == ZipError::EntryOutOfBounds && match spec_data_offset(
                self.contents(),
                entry.lfh_offset as int,
            ) {
                Some(v) => v > u64::MAX,
                None => false,
            }),
    {
        let lfh_buf = match read_padded(&*self.reader, entry.lfh_offset, LFH_SIZE) {
            Ok(b) => b,
            Err(e) => {
                return Err(e);
            },
        };
        let s = lfh_buf.as_slice();
        if !(s[0] == 0x50 && s[1] == 0x4b && s[2] == 0x03 && s[3] == 0x04) {
            proof {
                let b = padded_read(self.contents(), entry.lfh_offset as int, LFH_SIZE as int);
                if b.subrange(0, 4) == lfh_signature() {
                    assert(b.subrange(0, 4)[0] == b[0]);
                    assert(b.subrange(0, 4)[1] == b[1]);
                    assert(b.subrange(0, 4)[2] == b[2]);
                    assert(b.subrange(0, 4)[3] == b[3]);
                    assert(false);
                }
            }
            return Err(ZipError::InvalidLfh);
        }
        proof {
            assert(lfh_buf@.subrange(0, 4) =~= lfh_signature());
        }
        let name_len = read_u16_le(s, 26);
        let extra_len = read_u16_le(s, 28);
        let tail: u64 = LFH_SIZE as u64 + name_len as u64 + extra_len as u64;
        match entry.lfh_offset.checked_add(tail) {
            Some(off) => Ok(off),
            None => Err(ZipError::EntryOutOfBounds),
        }
    }
}

/// Parse one Central Directory File Header of `cd` at `pos`, yielding the
/// entry and the position just past its name, extra field and comment.
fn parse_cdfh(cd: &Vec<u8>, pos: usize) -> (r: Result<(ZipFileEntry, usize), ZipError>)
    ensures
        r matches Ok((e, p2)) ==> {
            &&& spec_parse_cdfh(cd@, pos as int) == Some((e@, p2 as int))
            &&& pos < p2 <= cd@.len()
            &&& (e@.is_directory <==> e@.file_name.len() > 0 && e@.file_name.last() == '/')
        },
        r matches Err(err) ==> err == ZipError::InvalidCdfh && spec_parse_cdfh(
            cd@,
            pos as int,
        ) is None,
{
    let len: usize = cd.len();
    if len < CDFH_MIN_SIZE || pos > len - CDFH_MIN_SIZE {
        return Err(ZipError::InvalidCdfh);
    }
    let s = cd.as_slice();
    if !(s[pos] == 0x50 && s[pos + 1] == 0x4b && s[pos + 2] == 0x01 && s[pos + 3] == 0x02) {
        proof {
            if cd@.subrange(pos as int, pos as int + 4) == cdfh_signature() {
                assert(cd@.subrange(pos as int, pos as int + 4)[0] == cd@[pos as int]);
                assert(cd@.subrange(pos as int, pos as int + 4)[1] == cd@[pos as int + 1]);
                assert(cd@.subrange(pos as int, pos as int + 4)[2] == cd@[pos as int + 2]);
                assert(cd@.subrange(pos as int, pos as int + 4)[3] == cd@[pos as int + 3]);
                assert(false);
            }
        }
        return Err(ZipError::InvalidCdfh);
    }
    proof {
        assert(cd@.subrange(pos as int, pos as int + 4) =~= cdfh_signature());
    }
    let method = read_u16_le(s, pos + 10);
    let time = read_u16_le(s, pos + 12);
    let date = read_u16_le(s, pos + 14);
    let crc = read_u32_le(s, pos + 16);
    let csz0 = read_u32_le(s, pos + 20);
    let usz0 = read_u32_le(s, pos + 24);
    let name_len = read_u16_le(s, pos + 28) as usize;
    let extra_len = read_u16_le(s, pos + 30) as usize;
    let comment_len = read_u16_le(s, pos + 32) as usize;
    let lfh0 = read_u32_le(s, pos + 42);
    proof {
        lemma_le16_bounds(cd@, pos + 10);
        lemma_le16_bounds(cd@, pos + 12);
        lemma_le16_bounds(cd@, pos + 14);
        lemma_le32_bounds(cd@, pos + 16);
        lemma_le32_bounds(cd@, pos + 20);
        lemma_le32_bounds(cd@, pos + 24);
        lemma_le16_bounds(cd@, pos + 28);
        lemma_le16_bounds(cd@, pos + 30);
        lemma_le16_bounds(cd@, pos + 32);
        lemma_le32_bounds(cd@, pos + 42);
    }
    let name_start = pos + CDFH_MIN_SIZE;
    let avail = len - name_start;
    if name_len + extra_len + comment_len > avail {
        return Err(ZipError::InvalidCdfh);
    }
    let name_slice = &s[name_start..name_start + name_len];
    let file_name = utf8_lossy(name_slice);
    let is_directory = name_len > 0 && s[name_start + name_len - 1] == 0x2F;
    let extra_slice = &s[name_start + name_len..name_start + name_len + extra_len];
    let sizes = zip64_extra_fields(extra_slice, usz0, csz0, lfh0);
    let next = name_start + name_len + extra_len + comment_len;
    let entry = ZipFileEntry {
        file_name,
        compression_method: CompressionMethod::from_u16(method),
        compressed_size: sizes.1,
        uncompressed_size: sizes.0,
        crc32: crc,
        lfh_offset: sizes.2,
        last_mod_time: time,
        last_mod_date: date,
        is_directory,
    };
    proof {
        let ghost name_bytes = cd@.subrange(name_start as int, name_start + name_len);
        assert(name_slice@ == name_bytes);
        if name_len > 0 {
            assert(name_bytes.last() == cd@[name_start + name_len - 1]);
        }
        assert(entry@ == spec_parse_cdfh(cd@, pos as int).unwrap().0);
    }
    Ok((entry, next))
}

/// The 64-bit (uncompressed size, compressed size, header offset) of an
/// entry after walking its extra-field blob from position `p`: records of
/// `{id, size, payload}` are skipped until the ZIP64 record (id 1), whose
/// payload replaces, in strict order, exactly those base fields that carry
/// the 32-bit sentinel. Fields without the sentinel consume nothing.
pub open spec fn spec_zip64_fields(extra: Seq<u8>, p: int, usz: u32, csz: u32, lfh: u32) -> (
    u64,
    u64,
    u64,
)
    decreases extra.len() - p,
{
    if p < 0 || p + 4 > extra.len() {
        (usz as u64, csz as u64, lfh as u64)
    } else {
        let id = le16(extra, p);
        let size = le16(extra, p + 2);
        if id == 1 {
            let q0 = p + 4;
            let u1: u64 = if usz == 0xFFFFFFFFu32 && q0 + 8 <= extra.len() {
                le64(extra, q0) as u64
            } else {
                usz as u64
            };
            let q1: int = if usz == 0xFFFFFFFFu32 && q0 + 8 <= extra.len() {
                q0 + 8
            } else {
                q0
            };
            let c1: u64 = if csz == 0xFFFFFFFFu32 && q1 + 8 <= extra.len() {
                le64(extra, q1) as u64
            } else {
                csz as u64
            };
            let q2: int = if csz == 0xFFFFFFFFu32 && q1 + 8 <= extra.len() {
                q1 + 8
            } else {
                q1
            };
            let l1: u64 = if lfh == 0xFFFFFFFFu32 && q2 + 8 <= extra.len() {
                le64(extra, q2) as u64
            } else {
                lfh as u64
            };
            (u1, c1, l1)
        } else {
            let p2 = p + 4 + size;
            spec_zip64_fields(
                extra,
                if p2 > extra.len() {
                    extra.len() as int
                } else {
                    p2
                },
                usz,
                csz,
                lfh,
            )
        }
    }
}

/// Walk an entry's extra-field blob for its ZIP64 64-bit field values.
fn zip64_extra_fields(extra: &[u8], usz: u32, csz: u32, lfh: u32) -> (r: (u64, u64, u64))
    requires
        extra@.len() <= 0xFFFF,
    ensures
        r == spec_zip64_fields(extra@, 0, usz, csz, lfh),
{
    let len: usize = extra.len();
    let mut p: usize = 0;
    while p + 4 <= len
        invariant
            len == extra@.len(),
            len <= 0xFFFF,
            p <= len,
            spec_zip64_fields(extra@, 0, usz, csz, lfh) == spec_zip64_fields(
                extra@,
                p as int,
                usz,
                csz,
                lfh,
            ),
        decreases len - p,
    {
        let id = read_u16_le(extra, p);
        let size = read_u16_le(extra, p + 2);
        if id == 1 {
            proof {
                lemma_le16_bounds(extra@, p as int);
            }
            let mut u1: u64 = usz as u64;
            let mut c1: u64 = csz as u64;
            let mut l1: u64 = lfh as u64;
            let mut q: usize = p + 4;
            if usz == 0xFFFFFFFF && q + 8 <= len {
                proof {
                    lemma_le64_bounds(extra@, q as int);
                }
                u1 = read_u64_le(extra, q);
                q = q + 8;
            }
            if csz == 0xFFFFFFFF && q + 8 <= len {
                proof {
                    lemma_le64_bounds(extra@, q as int);
                }
                c1 = read_u64_le(extra, q);
                q = q + 8;
            }
            if lfh == 0xFFFFFFFF && q + 8 <= len {
                proof {
                    lemma_le64_bounds(extra@, q as int);
                }
                l1 = read_u64_le(extra, q);
            }
            return (u1, c1, l1);
        }
        let p2 = p + 4 + size as usize;
        p = if p2 > len {
            len
        } else {
            p2
        };
    }
    (usz as u64, csz as u64, lfh as u64)
}

/// One entry parsed from the Central Directory at `pos`: the fixed header,
/// then the name, the extra blob (consulted for ZIP64 sizes), and the
/// comment (skipped). Yields the entry's image and the position of the
/// next header. Fails on a bad signature or a truncated record.
pub open spec fn spec_parse_cdfh(cd: Seq<u8>, pos: int) -> Option<(EntryModel, int)> {
    if pos < 0 || pos + CDFH_MIN_SIZE > cd.len() {
        None
    } else if cd.subrange(pos, pos + 4) != cdfh_signature() {
        None
    } else {
        let method = le16(cd, pos + 10);
        let time = le16(cd, pos + 12);
        let date = le16(cd, pos + 14);
        let crc = le32(cd, pos + 16);
        let csz0 = le32(cd, pos + 20);
        let usz0 = le32(cd, pos + 24);
        let name_len = le16(cd, pos + 28);
        let extra_len = le16(cd, pos + 30);
        let comment_len = le16(cd, pos + 32);
        let lfh0 = le32(cd, pos + 42);
        let name_start = pos + CDFH_MIN_SIZE;
        let end = name_start + name_len + extra_len + comment_len;
        if end > cd.len() {
            None
        } else {
            let name_bytes = cd.subrange(name_start, name_start + name_len);
            let extra = cd.subrange(name_start + name_len, name_start + name_len + extra_len);
            let sizes = spec_zip64_fields(extra, 0, usz0 as u32, csz0 as u32, lfh0 as u32);
            Some(
                (
                    EntryModel {
                        file_name: utf8_lossy_of(name_bytes),
                        compression_method: CompressionMethod::spec_from_u16(method as u16),
                        compressed_size: sizes.1,
                        uncompressed_size: sizes.0,
                        crc32: crc as u32,
                        lfh_offset: sizes.2,
                        last_mod_time: time as u16,
                        last_mod_date: date as u16,
                        is_directory: name_bytes.len() > 0 && name_bytes.last() == 0x2Fu8,
                    },
                    end,
                ),
            )
        }
    }
}

/// `count` entries parsed back to back from `pos`, with the end position,
/// or nothing if any of them fails to parse.
pub open spec fn spec_parse_cd(cd: Seq<u8>, pos: int, count: nat) -> Option<(Seq<EntryModel>, int)>
    decreases count,
{
    if count == 0 {
        Some((Seq::empty(), pos))
    } else {
        match spec_parse_cdfh(cd, pos) {
            None => None,
            Some((e, p2)) => match spec_parse_cd(cd, p2, (count - 1) as nat) {
                None => None,
                Some((rest, pend)) => Some((seq![e] + rest, pend)),
            },
        }
    }
}

/// Where the Central Directory lies and how many entries it declares:
/// taken from the ZIP64 record when any base field carries a sentinel,
/// otherwise the base record's fields widened to 64 bits.
pub open spec fn spec_cd_geometry(c: Seq<u8>, eocd: EndOfCentralDirectory, eocd_off: int) -> Option<
    (u64, u64, u64),
> {
    if eocd.spec_is_zip64() {
        match spec_zip64_resolve(c, eocd_off) {
            Some(z) => Some((z.cd_offset, z.cd_size, z.total_entries)),
            None => None,
        }
    } else {
        Some((eocd.cd_offset as u64, eocd.cd_size as u64, eocd.total_entries as u64))
    }
}

/// The full listing of the archive `c`: the End of Central Directory is
/// located, promoted to ZIP64 when its sentinels demand it, and the whole
/// Central Directory is decoded entry by entry.
pub open spec fn spec_list(c: Seq<u8>) -> Option<Seq<EntryModel>> {
    match spec_eocd_offset(c) {
        None => None,
        Some(off) => {
            let eocd = EndOfCentralDirectory::spec_decode(c, off);
            match spec_cd_geometry(c, eocd, off) {
                None => None,
                Some(g) => if g.1 > usize::MAX {
                    None
                } else {
                    let cd = padded_read(c, g.0 as int, g.1 as int);
                    match spec_parse_cd(cd, 0, g.2 as nat) {
                        None => None,
                        Some(p) => Some(p.0),
                    }
                },
            }
        },
    }
}

/// Where an entry's data begins, per its Local File Header at
/// `lfh_offset`: after the 30 fixed bytes and the name and extra lengths
/// that the header itself declares. The header's own lengths govern, even
/// where they differ from the Central Directory's.
pub open spec fn spec_data_offset(c: Seq<u8>, lfh_offset: int) -> Option<int> {
    let b = padded_read(c, lfh_offset, LFH_SIZE as int);
    if b.subrange(0, 4) == lfh_signature() {
        Some(lfh_offset + LFH_SIZE + le16(b, 26) + le16(b, 28))
    } else {
        None
    }
}

/// Law: the Central Directory's position, size and entry count come from
/// the ZIP64 record, reached through the locator in the 20 bytes before
/// the regular record, exactly when some field of the regular record
/// carries a sentinel; a record without sentinels keeps its own fields,
/// widened to 64 bits, and no ZIP64 structure is consulted.
pub proof fn lemma_zip64_promotion(c: Seq<u8>, eocd: EndOfCentralDirectory, off: int)
    ensures
        !eocd.spec_is_zip64() ==> spec_cd_geometry(c, eocd, off) == Some(
            (eocd.cd_offset as u64, eocd.cd_size as u64, eocd.total_entries as u64),
        ),
        eocd.spec_is_zip64() ==> spec_cd_geometry(c, eocd, off) == (
        match spec_zip64_resolve(c, off) {
            Some(z) => Some((z.cd_offset, z.cd_size, z.total_entries)),
            None => None::<(u64, u64, u64)>,
        }),
{
}

/// Law: the ZIP64 extra record's replacement stream packs only the
/// fields that overflowed. When the header offset alone carries the
/// 32-bit sentinel, exactly its eight bytes are read, from the very
/// start of the record's payload, and both sizes keep their base values.
pub proof fn lemma_selective_zip64(extra: Seq<u8>, usz: u32, csz: u32, lfh: u32)
    requires
        le16(extra, 0) == 1,
        4 + 8 <= extra.len(),
        usz != 0xFFFFFFFFu32,
        csz != 0xFFFFFFFFu32,
        lfh == 0xFFFFFFFFu32,
    ensures
        spec_zip64_fields(extra, 0, usz, csz, lfh) == (
            usz as u64,
            csz as u64,
            le64(extra, 4) as u64,
        ),
{
}

/// The ZIP64 End of Central Directory that the locator before the regular
/// record at `eocd_off` points to, if both records decode.
pub open spec fn spec_zip64_resolve(c: Seq<u8>, eocd_off: int) -> Option<Zip64EOCD> {
    if eocd_off < ZIP64_LOCATOR_SIZE {
        None
    } else {
        let lbuf = padded_read(c, eocd_off - ZIP64_LOCATOR_SIZE, ZIP64_LOCATOR_SIZE as int);
        if Zip64EOCDLocator::spec_valid_at(lbuf, 0) {
            let loc = Zip64EOCDLocator::spec_decode(lbuf, 0);
            let zbuf = padded_read(c, loc.eocd64_offset as int, ZIP64_EOCD_MIN_SIZE as int);
            if Zip64EOCD::spec_valid_at(zbuf, 0) {
                Some(Zip64EOCD::spec_decode(zbuf, 0))
            } else {
                None
            }
        } else {
            None
        }
    }
}

} // verus!
