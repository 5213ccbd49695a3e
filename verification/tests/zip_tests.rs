use std::io::Write;
use std::sync::atomic::{AtomicU64, Ordering};
use std::sync::Arc;

use runzip::{
    should_extract, CompressionMethod, MemoryReader, ReadAt, ZipError, ZipExtractor, ZipParser,
};

fn push_u16(v: &mut Vec<u8>, x: u16) {
    v.extend_from_slice(&x.to_le_bytes());
}

fn push_u32(v: &mut Vec<u8>, x: u32) {
    v.extend_from_slice(&x.to_le_bytes());
}

fn push_u64(v: &mut Vec<u8>, x: u64) {
    v.extend_from_slice(&x.to_le_bytes());
}

struct TestEntry {
    name: Vec<u8>,
    method: u16,
    data: Vec<u8>,
    uncompressed_len: u32,
    lfh_name: Option<Vec<u8>>,
    lfh_extra: Vec<u8>,
    cd_extra: Vec<u8>,
    cd_comment: Vec<u8>,
    time: u16,
    date: u16,
}

impl TestEntry {
    fn stored(name: &str, data: &[u8]) -> TestEntry {
        TestEntry {
            name: name.as_bytes().to_vec(),
            method: 0,
            data: data.to_vec(),
            uncompressed_len: data.len() as u32,
            lfh_name: None,
            lfh_extra: Vec::new(),
            cd_extra: Vec::new(),
            cd_comment: Vec::new(),
            time: 0x6000,
            date: 0x21,
        }
    }

    fn deflate(name: &str, plain: &[u8]) -> TestEntry {
        let mut enc =
            flate2::write::DeflateEncoder::new(Vec::new(), flate2::Compression::default());
        enc.write_all(plain).unwrap();
        let data = enc.finish().unwrap();
        TestEntry {
            name: name.as_bytes().to_vec(),
            method: 8,
            data,
            uncompressed_len: plain.len() as u32,
            lfh_name: None,
            lfh_extra: Vec::new(),
            cd_extra: Vec::new(),
            cd_comment: Vec::new(),
            time: 0x6000,
            date: 0x21,
        }
    }
}

/// Assemble a complete archive: local headers with data, the central
/// directory, and the end record with an optional archive comment.
fn build_zip(entries: &[TestEntry], comment: &[u8]) -> Vec<u8> {
    let mut out = Vec::new();
    let mut offsets = Vec::new();
    for e in entries {
        offsets.push(out.len() as u32);
        let lfh_name = e.lfh_name.as_ref().unwrap_or(&e.name);
        out.extend_from_slice(b"PK\x03\x04");
        push_u16(&mut out, 20);
        push_u16(&mut out, 0);
        push_u16(&mut out, e.method);
        push_u16(&mut out, e.time);
        push_u16(&mut out, e.date);
        push_u32(&mut out, 0);
        push_u32(&mut out, e.data.len() as u32);
        push_u32(&mut out, e.uncompressed_len);
        push_u16(&mut out, lfh_name.len() as u16);
        push_u16(&mut out, e.lfh_extra.len() as u16);
        out.extend_from_slice(lfh_name);
        out.extend_from_slice(&e.lfh_extra);
        out.extend_from_slice(&e.data);
    }
    let cd_offset = out.len() as u32;
    for (i, e) in entries.iter().enumerate() {
        out.extend_from_slice(b"PK\x01\x02");
        push_u16(&mut out, 20);
        push_u16(&mut out, 20);
        push_u16(&mut out, 0);
        push_u16(&mut out, e.method);
        push_u16(&mut out, e.time);
        push_u16(&mut out, e.date);
        push_u32(&mut out, 0);
        push_u32(&mut out, e.data.len() as u32);
        push_u32(&mut out, e.uncompressed_len);
        push_u16(&mut out, e.name.len() as u16);
        push_u16(&mut out, e.cd_extra.len() as u16);
        push_u16(&mut out, e.cd_comment.len() as u16);
        push_u16(&mut out, 0);
        push_u16(&mut out, 0);
        push_u32(&mut out, 0);
        push_u32(&mut out, offsets[i]);
        out.extend_from_slice(&e.name);
        out.extend_from_slice(&e.cd_extra);
        out.extend_from_slice(&e.cd_comment);
    }
    let cd_size = out.len() as u32 - cd_offset;
    out.extend_from_slice(b"PK\x05\x06");
    push_u16(&mut out, 0);
    push_u16(&mut out, 0);
    push_u16(&mut out, entries.len() as u16);
    push_u16(&mut out, entries.len() as u16);
    push_u32(&mut out, cd_size);
    push_u32(&mut out, cd_offset);
    push_u16(&mut out, comment.len() as u16);
    out.extend_from_slice(comment);
    out
}

fn extractor_over(data: Vec<u8>) -> ZipExtractor<MemoryReader> {
    ZipExtractor::new(Arc::new(MemoryReader::new(data)))
}

fn lorem(n: usize) -> Vec<u8> {
    let phrase = b"Lorem ipsum dolor sit amet, consectetur adipiscing elit. ";
    let mut v = Vec::with_capacity(n);
    while v.len() < n {
        let take = std::cmp::min(phrase.len(), n - v.len());
        v.extend_from_slice(&phrase[..take]);
    }
    v
}

#[test]
fn e1_local_three_entries() {
    let plain = lorem(10240);
    let entries = vec![
        TestEntry::stored("a.txt", b"hello\n"),
        TestEntry::stored("dir/", b""),
        TestEntry::deflate("sub/b.txt", &plain),
    ];
    let zip = build_zip(&entries, b"");
    let ex = extractor_over(zip);
    let list = ex.list_files().unwrap();
    assert_eq!(list.len(), 3);
    assert_eq!(list[0].file_name, "a.txt");
    assert_eq!(list[1].file_name, "dir/");
    assert_eq!(list[2].file_name, "sub/b.txt");
    assert!(!list[0].is_directory);
    assert!(list[1].is_directory);
    assert!(!list[2].is_directory);
    assert_eq!(list[1].uncompressed_size, 0);
    assert_eq!(list[0].compression_method, CompressionMethod::Stored);
    assert_eq!(list[2].compression_method, CompressionMethod::Deflate);
    assert_eq!(ex.extract_to_memory(&list[0]).unwrap(), b"hello\n");
    let extracted = ex.extract_to_memory(&list[2]).unwrap();
    assert_eq!(extracted.len(), 10240);
    assert_eq!(extracted, plain);
}

#[test]
fn eocd_found_without_comment() {
    let zip = build_zip(&[TestEntry::stored("a.txt", b"hello\n")], b"");
    let n = zip.len() as u64;
    let parser = ZipParser::new(Arc::new(MemoryReader::new(zip)));
    let (eocd, offset) = parser.find_eocd().unwrap();
    assert_eq!(offset, n - 22);
    assert_eq!(eocd.total_entries, 1);
    assert_eq!(eocd.comment_len, 0);
}

#[test]
fn eocd_found_behind_comment() {
    for len in [1usize, 100, 65535] {
        // A comment that even contains a fake signature with a wrong
        // trailing claim; the scan must reject it.
        let mut comment = vec![b'x'; len];
        if len >= 22 {
            comment[0..4].copy_from_slice(b"PK\x05\x06");
        }
        let zip = build_zip(&[TestEntry::stored("a.txt", b"hello\n")], &comment);
        let n = zip.len() as u64;
        let parser = ZipParser::new(Arc::new(MemoryReader::new(zip)));
        let (eocd, offset) = parser.find_eocd().unwrap();
        assert_eq!(offset, n - 22 - len as u64);
        assert_eq!(eocd.comment_len, len as u16);
    }
}

#[test]
fn e3_listing_with_large_comment() {
    let comment = vec![b'c'; 65535];
    let zip = build_zip(&[TestEntry::stored("a.txt", b"hello\n")], &comment);
    let ex = extractor_over(zip);
    let list = ex.list_files().unwrap();
    assert_eq!(list.len(), 1);
    assert_eq!(list[0].file_name, "a.txt");
}

/// Replace the regular end record's entry counts with sentinels and
/// append ZIP64 records, so that listing must promote.
fn build_zip64(entries: &[TestEntry], total_entries: u64) -> Vec<u8> {
    let plain = build_zip(entries, b"");
    let eocd_start = plain.len() - 22;
    let cd_size = u32::from_le_bytes(plain[eocd_start + 12..eocd_start + 16].try_into().unwrap());
    let cd_offset = u32::from_le_bytes(plain[eocd_start + 16..eocd_start + 20].try_into().unwrap());
    let mut out = plain[..eocd_start].to_vec();
    let z64_offset = out.len() as u64;
    out.extend_from_slice(b"PK\x06\x06");
    push_u64(&mut out, 44);
    push_u16(&mut out, 45);
    push_u16(&mut out, 45);
    push_u32(&mut out, 0);
    push_u32(&mut out, 0);
    push_u64(&mut out, total_entries);
    push_u64(&mut out, total_entries);
    push_u64(&mut out, cd_size as u64);
    push_u64(&mut out, cd_offset as u64);
    out.extend_from_slice(b"PK\x06\x07");
    push_u32(&mut out, 0);
    push_u64(&mut out, z64_offset);
    push_u32(&mut out, 1);
    out.extend_from_slice(b"PK\x05\x06");
    push_u16(&mut out, 0);
    push_u16(&mut out, 0);
    push_u16(&mut out, 0xFFFF);
    push_u16(&mut out, 0xFFFF);
    push_u32(&mut out, cd_size);
    push_u32(&mut out, cd_offset);
    push_u16(&mut out, 0);
    out
}

#[test]
fn zip64_promotion_follows_locator() {
    let entries = vec![TestEntry::stored("a.txt", b"hello\n")];
    let zip = build_zip64(&entries, 1);
    let n = zip.len() as u64;
    let parser = ZipParser::new(Arc::new(MemoryReader::new(zip.clone())));
    let (eocd, offset) = parser.find_eocd().unwrap();
    assert!(eocd.is_zip64());
    let z64 = parser.read_zip64_eocd(offset).unwrap();
    assert_eq!(z64.total_entries, 1);
    // The locator sits in the 20 bytes before the regular record.
    assert_eq!(&zip[(offset - 20) as usize..(offset - 16) as usize], b"PK\x06\x07");
    assert_eq!(offset, n - 22);
    let ex = extractor_over(zip);
    let list = ex.list_files().unwrap();
    assert_eq!(list.len(), 1);
    assert_eq!(ex.extract_to_memory(&list[0]).unwrap(), b"hello\n");
}

#[test]
fn non_sentinel_eocd_is_not_promoted() {
    // Valid archive with garbage where a ZIP64 locator would sit: if the
    // parser wrongly promoted, listing would fail.
    let mut first = TestEntry::stored("pad", &[0u8; 64]);
    first.data[0..4].copy_from_slice(b"PK\x06\x07");
    let entries = vec![first, TestEntry::stored("a.txt", b"hello\n")];
    let zip = build_zip(&entries, b"");
    let ex = extractor_over(zip);
    let list = ex.list_files().unwrap();
    assert_eq!(list.len(), 2);
}

#[test]
fn selective_zip64_extra_field() {
    // Only the header offset carries the sentinel; the 0x0001 record
    // holds exactly eight payload bytes, which must all go to the offset
    // while both sizes keep their base values.
    let data = b"selective";
    let mut e = TestEntry::stored("a.bin", data);
    let mut extra = Vec::new();
    push_u16(&mut extra, 0x0001);
    push_u16(&mut extra, 8);
    push_u64(&mut extra, 0);
    e.cd_extra = extra;
    let zip = {
        // Patch the CDFH's header-offset field to the sentinel after
        // building; the real offset (zero) goes into the extra record.
        let mut z = build_zip(&[e], b"");
        let eocd_start = z.len() - 22;
        let cd_offset =
            u32::from_le_bytes(z[eocd_start + 16..eocd_start + 20].try_into().unwrap()) as usize;
        z[cd_offset + 42..cd_offset + 46].copy_from_slice(&0xFFFFFFFFu32.to_le_bytes());
        z
    };
    let ex = extractor_over(zip);
    let list = ex.list_files().unwrap();
    assert_eq!(list.len(), 1);
    assert_eq!(list[0].lfh_offset, 0);
    assert_eq!(list[0].compressed_size, data.len() as u64);
    assert_eq!(list[0].uncompressed_size, data.len() as u64);
    assert_eq!(ex.extract_to_memory(&list[0]).unwrap(), data);
}

#[test]
fn lfh_lengths_govern_data_offset() {
    // The local header declares a longer name and an extra field that the
    // central directory does not; the data offset must follow the local
    // header's lengths.
    let mut e = TestEntry::stored("x.txt", b"ground truth");
    e.lfh_name = Some(b"long/local/name.txt".to_vec());
    e.lfh_extra = vec![0xAA; 12];
    let zip = build_zip(&[e], b"");
    let ex = extractor_over(zip);
    let list = ex.list_files().unwrap();
    assert_eq!(list[0].file_name, "x.txt");
    assert_eq!(ex.extract_to_memory(&list[0]).unwrap(), b"ground truth");
}

#[test]
fn e4_zip64_many_entries_large_sizes() {
    // 70000 entries, one declaring an uncompressed size past 4 GiB
    // through its ZIP64 extra record.
    let mut entries = Vec::new();
    for i in 0..70000 {
        let mut e = TestEntry::stored(&format!("f{}", i), b"");
        if i == 0 {
            let mut extra = Vec::new();
            push_u16(&mut extra, 0x0001);
            push_u16(&mut extra, 8);
            push_u64(&mut extra, 5_000_000_000);
            e.cd_extra = extra;
        }
        entries.push(e);
    }
    let mut zip = build_zip64(&entries, 70000);
    // Patch the first CDFH's uncompressed size to the sentinel; its true
    // value lives in the extra record.
    let cd_offset = {
        let z64_sig = b"PK\x06\x06";
        let pos = zip.windows(4).rposition(|w| w == z64_sig).unwrap();
        u64::from_le_bytes(zip[pos + 48..pos + 56].try_into().unwrap()) as usize
    };
    zip[cd_offset + 24..cd_offset + 28].copy_from_slice(&0xFFFFFFFFu32.to_le_bytes());
    let ex = extractor_over(zip);
    let list = ex.list_files().unwrap();
    assert_eq!(list.len(), 70000);
    assert_eq!(list[0].uncompressed_size, 5_000_000_000);
    assert_eq!(list[69999].file_name, "f69999");
}

#[test]
fn e5_unknown_method_listed_but_not_extracted() {
    let mut e = TestEntry::stored("packed.bz2", b"....");
    e.method = 12;
    let zip = build_zip(&[e], b"");
    let ex = extractor_over(zip);
    let list = ex.list_files().unwrap();
    assert_eq!(list[0].compression_method, CompressionMethod::Unknown(12));
    assert_eq!(list[0].compression_method.as_u16(), 12);
    let err = ex.extract_to_memory(&list[0]).unwrap_err();
    assert_eq!(err, ZipError::UnsupportedMethod(12));
    assert_eq!(err.message(), "Unsupported compression method: 12");
}

#[test]
fn e6_corrupt_archive_rejected() {
    // Signature bytes inside the payload, but no consistent end record.
    let mut data = vec![0u8; 4096];
    data[100..104].copy_from_slice(b"PK\x05\x06");
    data[2000..2004].copy_from_slice(b"PK\x05\x06");
    let ex = extractor_over(data);
    let err = ex.list_files().unwrap_err();
    assert_eq!(err, ZipError::NotAZipFile);
    assert_eq!(err.message(), "Not a valid ZIP file");
}

#[test]
fn truncated_deflate_stream_fails() {
    let plain = lorem(10240);
    let mut e = TestEntry::deflate("b.bin", &plain);
    e.data.truncate(e.data.len() / 2);
    let zip = build_zip(&[e], b"");
    let ex = extractor_over(zip);
    let list = ex.list_files().unwrap();
    let err = ex.extract_to_memory(&list[0]).unwrap_err();
    assert_eq!(err, ZipError::DecodeFailed);
}

#[test]
fn filter_selection() {
    let entries = vec![
        TestEntry::stored("a.txt", b"a"),
        TestEntry::stored("dir/", b""),
        TestEntry::stored("dir/keep.txt", b"k"),
        TestEntry::stored("dir/skip.log", b"s"),
    ];
    let zip = build_zip(&entries, b"");
    let ex = extractor_over(zip);
    let list = ex.list_files().unwrap();
    let none: Vec<String> = Vec::new();
    // Directories never extract.
    assert!(!should_extract(&list[1], &none, &none));
    assert!(should_extract(&list[0], &none, &none));
    // Includes match by full name, basename, or glob.
    let inc = vec!["keep.txt".to_string()];
    assert!(should_extract(&list[2], &inc, &none));
    assert!(!should_extract(&list[0], &inc, &none));
    let glob_inc = vec!["*.txt".to_string()];
    assert!(should_extract(&list[0], &glob_inc, &none));
    assert!(should_extract(&list[2], &glob_inc, &none));
    assert!(!should_extract(&list[3], &glob_inc, &none));
    // Excludes override includes, by substring or glob.
    let exc = vec!["skip".to_string()];
    assert!(!should_extract(&list[3], &none, &exc));
    let exc_glob = vec!["*.log".to_string()];
    assert!(!should_extract(&list[3], &glob_inc, &exc_glob));
}

struct CountingReader {
    inner: MemoryReader,
    size: u64,
    read_bytes: AtomicU64,
    read_calls: AtomicU64,
}

impl CountingReader {
    fn over(data: Vec<u8>) -> CountingReader {
        CountingReader {
            size: data.len() as u64,
            inner: MemoryReader::new(data),
            read_bytes: AtomicU64::new(0),
            read_calls: AtomicU64::new(0),
        }
    }
}

impl ReadAt for CountingReader {
    fn read_at(&self, offset: u64, buf: &mut Vec<u8>) -> Result<usize, ZipError> {
        let n = self.inner.read_at(offset, buf)?;
        self.read_bytes.fetch_add(n as u64, Ordering::Relaxed);
        self.read_calls.fetch_add(1, Ordering::Relaxed);
        Ok(n)
    }

    fn size(&self) -> u64 {
        self.size
    }
}

#[test]
fn eocd_fast_path_uses_one_small_read() {
    // An uncommented archive is located with exactly one read of the
    // 22-byte tail: no backward scan.
    let zip = build_zip(&[TestEntry::stored("a.txt", b"hello\n")], b"");
    let n = zip.len() as u64;
    let reader = Arc::new(CountingReader::over(zip));
    let parser = ZipParser::new(reader.clone());
    let (_, offset) = parser.find_eocd().unwrap();
    assert_eq!(offset, n - 22);
    assert_eq!(reader.read_calls.load(Ordering::Relaxed), 1);
    assert_eq!(reader.read_bytes.load(Ordering::Relaxed), 22);
}

#[test]
fn e2_transfer_stays_near_metadata_size() {
    // A 50 MiB archive; the requested entry's 2 KiB of compressed data
    // sit at about 40 MiB. Listing plus extraction must move roughly the
    // end records, the central directory, one local header and the entry
    // data: never anything near the whole archive.
    let target_plain = lorem(4096);
    let filler_a = vec![7u8; 40 * 1024 * 1024];
    let filler_b = vec![9u8; 10 * 1024 * 1024];
    let entries = vec![
        TestEntry::stored("filler_a.bin", &filler_a),
        TestEntry::deflate("target.bin", &target_plain),
        TestEntry::stored("filler_b.bin", &filler_b),
    ];
    let zip = build_zip(&entries, b"");
    let total = zip.len() as u64;
    assert!(total > 50 * 1024 * 1024);
    let reader = Arc::new(CountingReader::over(zip));
    let ex = ZipExtractor::new(reader.clone());
    let list = ex.list_files().unwrap();
    let target = list.iter().find(|e| e.file_name == "target.bin").unwrap();
    assert!(target.lfh_offset > 40 * 1024 * 1024);
    let out = ex.extract_to_memory(target).unwrap();
    assert_eq!(out, target_plain);
    let moved = reader.read_bytes.load(Ordering::Relaxed);
    // End-record area + central directory + one local header + 2 KiB.
    assert!(moved <= 66 * 1024, "transferred {} bytes", moved);
    assert!(moved < total / 100);
}
